use zcash_warp::types::{CheckpointHeight, PoolMask};

#[test]
fn pool_mask_from_pool() {
    assert_eq!(PoolMask::from_pool(0).0, 1);
    assert_eq!(PoolMask::from_pool(1).0, 2);
    assert_eq!(PoolMask::from_pool(2).0, 4);
    assert_eq!(PoolMask::from_option(None).0, 0);
    assert_eq!(PoolMask::from_option(Some(1)).0, 2);
}

#[test]
fn pool_mask_to_pool_prefers_highest() {
    assert_eq!(PoolMask(7).to_pool(), Some(2));
    assert_eq!(PoolMask(3).to_pool(), Some(1));
    assert_eq!(PoolMask(1).to_pool(), Some(0));
    assert_eq!(PoolMask(0).to_pool(), None);
}

#[test]
fn pool_mask_round_trip() {
    for p in 0u8..3 {
        let m = PoolMask::from_pool(p);
        assert!(m.single_pool());
        assert_eq!(m.to_pool(), Some(p));
    }
}

#[test]
fn single_pool_masks() {
    assert!(PoolMask(4).single_pool());
    assert!(!PoolMask(6).single_pool());
    assert!(!PoolMask(0).single_pool());
}

#[test]
fn checkpoint_height_value() {
    assert_eq!(CheckpointHeight(2_000_000).to_u32(), 2_000_000);
}
