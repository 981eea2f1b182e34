use zcash_warp::chain::{get_activation_height, reset_height, time_query_height, HeightSearch, Network, SearchStep};

#[test]
fn sapling_activation_heights() {
    assert_eq!(get_activation_height(&Network::Main), 419_200);
    assert_eq!(get_activation_height(&Network::Regtest), 1);
}

#[test]
fn time_query_height_is_after_activation() {
    assert_eq!(time_query_height(&Network::Main, 10), 419_201);
    assert_eq!(time_query_height(&Network::Main, 2_000_000), 2_000_000);
    assert_eq!(time_query_height(&Network::Regtest, 0), 2);
}

#[test]
fn reset_height_choices() {
    assert_eq!(reset_height(&Network::Main, 0, None), 419_201);
    assert_eq!(reset_height(&Network::Main, 0, Some(1_500_000)), 1_500_000);
    assert_eq!(reset_height(&Network::Main, 2_000_000, Some(1_500_000)), 2_000_000);
    assert_eq!(reset_height(&Network::Main, 5, None), 419_201);
}

/// Runs the search over blocks whose times are given by height.
fn search(times: &[u32], first: u32, time: u32) -> u32 {
    let mut s = HeightSearch::new(time, first, times.len() as u32 - 1);
    while let Some(m) = s.next_height() {
        if let SearchStep::Found(h) = s.on_block(times[m as usize]) {
            return h;
        }
    }
    s.result()
}

#[test]
fn height_search_finds_block_of_day() {
    let day = 86_400u32;
    // heights 0..10, two blocks per day starting at day 100
    let times: Vec<u32> = (0..10u32).map(|h| (100 + h / 2) * day + h).collect();
    let h = search(&times, 1, 103 * day + 5);
    assert_eq!(times[h as usize] / day, 103);
}

#[test]
fn height_search_between_days_ends_on_first_later_block() {
    let day = 86_400u32;
    let times: Vec<u32> = vec![10 * day, 10 * day, 12 * day, 12 * day, 14 * day, 15 * day];
    assert_eq!(search(&times, 1, 13 * day), 4);
    assert_eq!(search(&times, 1, 20 * day), 6);
}
