use zcash_warp::data::ConfigT;

fn config(servers: Option<Vec<&str>>, url: Option<&str>, end: u32, conf: u32, regtest: bool) -> ConfigT {
    ConfigT {
        db_path: Some("wallet.db".to_string()),
        servers: servers.map(|v| v.iter().map(|s| s.to_string()).collect()),
        warp_url: url.map(|s| s.to_string()),
        warp_end_height: end,
        confirmations: conf,
        regtest,
    }
}

#[test]
fn merge_takes_what_other_sets() {
    let mut a = config(Some(vec!["https://a"]), Some("https://warp-a"), 100, 3, false);
    let b = config(Some(vec!["https://b", "https://c"]), None, 0, 10, true);
    a.merge(&b);
    assert_eq!(a.servers, Some(vec!["https://b".to_string(), "https://c".to_string()]));
    assert_eq!(a.warp_url.as_deref(), Some("https://warp-a"));
    assert_eq!(a.warp_end_height, 100);
    assert_eq!(a.confirmations, 10);
    assert!(a.regtest);
    assert_eq!(a.db_path.as_deref(), Some("wallet.db"));
}

#[test]
fn merge_default_changes_nothing() {
    let mut a = config(Some(vec!["https://a"]), Some("u"), 5, 6, true);
    a.merge(&ConfigT::default());
    assert_eq!(a.servers, Some(vec!["https://a".to_string()]));
    assert_eq!(a.warp_url.as_deref(), Some("u"));
    assert_eq!((a.warp_end_height, a.confirmations, a.regtest), (5, 6, true));
}

#[test]
fn merge_twice_is_merge_once() {
    let b = config(None, Some("v"), 7, 0, false);
    let mut once = config(Some(vec!["s"]), None, 1, 2, false);
    once.merge(&b);
    let mut twice = once.clone();
    twice.merge(&b);
    assert_eq!(once.warp_url, twice.warp_url);
    assert_eq!(once.servers, twice.servers);
    assert_eq!((once.warp_end_height, once.confirmations, once.regtest), (twice.warp_end_height, twice.confirmations, twice.regtest));
}
