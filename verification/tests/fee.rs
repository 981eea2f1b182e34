use zcash_warp::fee::FeeManager;

fn fee_of(inputs: [u8; 3], outputs: [u8; 3]) -> u64 {
    FeeManager { num_inputs: inputs, num_outputs: outputs }.fee()
}

#[test]
fn sapling_logical_actions_table() {
    // inputs, outputs -> logical actions of the Sapling bundle
    assert_eq!(fee_of([0, 0, 0], [0, 0, 0]), 0);
    assert_eq!(fee_of([0, 1, 0], [0, 0, 0]), 2 * 5_000);
    assert_eq!(fee_of([0, 0, 0], [0, 1, 0]), 2 * 5_000);
    assert_eq!(fee_of([0, 1, 0], [0, 1, 0]), 2 * 5_000);
    assert_eq!(fee_of([0, 2, 0], [0, 1, 0]), 2 * 5_000);
    assert_eq!(fee_of([0, 3, 0], [0, 1, 0]), 3 * 5_000);
}

#[test]
fn transparent_and_orchard_fee() {
    assert_eq!(fee_of([3, 0, 0], [1, 0, 0]), 3 * 5_000);
    assert_eq!(fee_of([0, 0, 1], [0, 0, 0]), 2 * 5_000);
    assert_eq!(fee_of([1, 1, 1], [1, 1, 1]), (1 + 2 + 2) * 5_000);
}

#[test]
fn add_input_and_output_return_marginal_fee() {
    let mut fm = FeeManager::new();
    assert_eq!(fm.fee(), 0);
    assert_eq!(fm.add_input(0), 5_000);
    assert_eq!(fm.add_output(0), 0);
    assert_eq!(fm.add_output(0), 5_000);
    assert_eq!(fm.add_output(2), 10_000);
    assert_eq!(fm.add_input(2), 0);
    assert_eq!(fm.fee(), 4 * 5_000);
    assert_eq!(fm.num_inputs, [1, 0, 1]);
    assert_eq!(fm.num_outputs, [2, 0, 1]);
}

#[test]
fn fee_never_decreases_when_adding() {
    let mut fm = FeeManager::default();
    let mut last = fm.fee();
    for pool in [0u8, 1, 2, 1, 0, 2, 2, 1] {
        let added = fm.add_output(pool);
        assert_eq!(fm.fee(), last + added);
        last = fm.fee();
        let added = fm.add_input(pool);
        assert_eq!(fm.fee(), last + added);
        last = fm.fee();
    }
}

#[test]
fn min_actions_padding_values() {
    assert_eq!(FeeManager::min_actions_padding(0), 0);
    assert_eq!(FeeManager::min_actions_padding(1), 2);
    assert_eq!(FeeManager::min_actions_padding(2), 2);
    assert_eq!(FeeManager::min_actions_padding(9), 9);
}
