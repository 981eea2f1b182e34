use zcash_warp::account::{
    downgrade_plan, get_account_signing_capabilities, transfer_pools, transfer_recipients, AccountInfo, DowngradeError, GapScan, KeyAction,
    OrchardAccountInfo, SaplingAccountInfo, TransparentAccountInfo,
};
use zcash_warp::chain::Network;
use zcash_warp::data::AccountSigningCapabilitiesT;
use zcash_warp::types::PoolMask;

#[test]
fn transfer_split_in_parts() {
    let rs = transfer_recipients(&Some("zs1to".to_string()), 25, 10, &Some(vec![1, 2]));
    let amounts: Vec<u64> = rs.iter().map(|r| r.amount).collect();
    assert_eq!(amounts, vec![10, 10, 5]);
    for r in rs.iter() {
        assert_eq!(r.address.as_deref(), Some("zs1to"));
        assert_eq!(r.pools, 7);
        assert_eq!(r.memo_bytes, Some(vec![1, 2]));
        assert!(r.memo.is_none());
    }
}

#[test]
fn transfer_without_split_is_one_payment() {
    let rs = transfer_recipients(&None, 25, 0, &None);
    assert_eq!(rs.len(), 1);
    assert_eq!(rs[0].amount, 25);
    assert!(transfer_recipients(&None, 0, 10, &None).is_empty());
}

#[test]
fn transfer_parts_add_up() {
    for (amount, split) in [(1_000_001u64, 333u64), (7, 7), (7, 8), (u64::MAX / 3, u64::MAX / 7)] {
        let rs = transfer_recipients(&None, amount, split, &None);
        let total: u128 = rs.iter().map(|r| r.amount as u128).sum();
        assert_eq!(total, amount as u128);
        assert!(rs.iter().all(|r| r.amount > 0 && r.amount <= split));
    }
}

#[test]
fn gap_scan_stops_after_gap_limit() {
    // funds at indexes 1 and 4, gap limit 3: stops after checking 7
    let funded = [false, true, false, false, true, false, false, false, false, false];
    let mut scan = GapScan::new(3);
    let mut checked = vec![];
    while let Some(i) = scan.next_index() {
        checked.push(i);
        scan.on_address(funded[i as usize]);
    }
    assert_eq!(checked, vec![0, 1, 2, 3, 4, 5, 6, 7]);
    assert_eq!(scan.gap, 3);
}

#[test]
fn gap_scan_with_zero_limit_checks_nothing() {
    assert_eq!(GapScan::new(0).next_index(), None);
}

fn account(t: bool, t_sk: bool, s: bool, s_sk: bool, o: bool) -> AccountInfo {
    AccountInfo {
        account: 1,
        position: 0,
        name: "main".to_string(),
        seed: None,
        aindex: 0,
        dindex: 0,
        birth: 0,
        saved: false,
        transparent: if t {
            Some(TransparentAccountInfo { index: 0, xsk: None, sk: if t_sk { Some([1u8; 32]) } else { None }, vk: None, addr: zcash_warp::address::TransparentAddress::PublicKeyHash([7u8; 20]), change_index: None })
        } else {
            None
        },
        sapling: if s { Some(SaplingAccountInfo { sk: if s_sk { Some(vec![1]) } else { None }, vk: vec![2], addr: [0u8; 43] }) } else { None },
        orchard: if o { Some(OrchardAccountInfo { sk: None, vk: vec![3], addr: [9u8; 43] }) } else { None },
    }
}

#[test]
fn signing_capabilities_levels() {
    let ai = account(true, true, true, false, false);
    let caps = get_account_signing_capabilities(&ai);
    assert!(!caps.seed);
    assert_eq!((caps.transparent, caps.sapling, caps.orchard), (3, 1, 0));
    assert_eq!(ai.pools().0, 3);
    let byte: u8 = u8::from(&caps);
    assert_eq!(byte, 3 | (1 << 2));
}

#[test]
fn select_pools_keeps_chosen() {
    let ai = account(true, false, true, false, true);
    let s = ai.select_pools(PoolMask(5));
    assert!(s.transparent.is_some());
    assert!(s.sapling.is_none());
    assert!(s.orchard.is_some());
    assert_eq!(s.to_mask(), 5);
}

#[test]
fn addresses_of_account() {
    let ai = account(true, false, true, false, true);
    assert!(ai.to_address(&Network::Main, PoolMask(1)).unwrap().starts_with("t1"));
    assert_eq!(
        ai.to_address(&Network::Main, PoolMask(2)).as_deref(),
        Some("zs1qqqqqqqqqqqqqqqqqqqqqqqqqqqqqqqqqqqqqqqqqqqqqqqqqqqqqqqqqqqqqqqqqqqqqpq6d8g")
    );
    assert!(ai.to_address(&Network::Main, PoolMask(4)).unwrap().starts_with("u1"));
    assert!(ai.to_address(&Network::Main, PoolMask(7)).unwrap().starts_with("u1"));
    assert_ne!(ai.to_address(&Network::Main, PoolMask(7)), ai.to_address(&Network::Main, PoolMask(6)));
    let only_t = account(true, false, false, false, false);
    assert_eq!(only_t.to_address(&Network::Main, PoolMask(6)), None);
    let addrs = ai.to_addresses(&Network::Main);
    assert_eq!(addrs.sapling, ai.to_address(&Network::Main, PoolMask(2)));
}

#[test]
fn downgrade_plans() {
    let caps = AccountSigningCapabilitiesT { seed: false, transparent: 1, sapling: 0, orchard: 3 };
    let plan = downgrade_plan(&caps).unwrap();
    assert!(plan.drop_seed);
    assert_eq!(plan.transparent, KeyAction::DropSpendingKey);
    assert_eq!(plan.sapling, KeyAction::DropPool);
    assert_eq!(plan.orchard, KeyAction::Keep);
    let none = AccountSigningCapabilitiesT { seed: true, transparent: 0, sapling: 0, orchard: 0 };
    assert!(matches!(downgrade_plan(&none), Err(DowngradeError::NoKeyLeft)));
}

#[test]
fn transfer_between_pools() {
    let ai = account(true, false, true, false, true);
    let to = ai.to_address(&Network::Main, PoolMask(1));
    let r = transfer_pools(&ai, &Network::Main, 1_000, 990, 2, 0, 250_000, &Some(vec![0xF6]), 100_000);
    let v = r.recipients.unwrap();
    assert_eq!(v.iter().map(|t| t.amount).collect::<Vec<_>>(), vec![100_000, 100_000, 50_000]);
    for t in v.iter() {
        assert_eq!(t.address, to);
        assert_eq!(t.pools, 7);
        assert_eq!(t.memo_bytes, Some(vec![0xF6]));
    }
    assert_eq!(r.src_pools, 4);
    assert!(r.sender_pay_fees && r.use_change);
    assert_eq!(r.height, 990);
    assert_eq!(r.expiration, 1_050);
}
