use zcash_warp::data::{PacketT, PacketsT};
use zcash_warp::data_split::{can_merge, merge, split};

#[test]
fn split_and_merge_round_trip() {
    let data: Vec<u8> = (0..1000u32).map(|i| (i * 7 % 251) as u8).collect();
    let packets = split(&data, 2);
    // 4 source symbols of 256 bytes, and 2 repair packets
    assert_eq!(packets.len(), 6);
    for p in packets.iter() {
        assert_eq!(p.len, 1000);
        assert_eq!(p.data.as_ref().unwrap().len(), 260);
    }
    let parts = PacketsT { packets: Some(packets) };
    assert!(can_merge(&parts));
    assert_eq!(merge(&parts), data);
}

#[test]
fn repair_packets_replace_lost_ones() {
    let data: Vec<u8> = (0..600u32).map(|i| (i % 256) as u8).collect();
    let mut packets = split(&data, 3);
    packets.remove(0);
    packets.remove(0);
    let parts = PacketsT { packets: Some(packets) };
    assert!(can_merge(&parts));
    assert_eq!(merge(&parts), data);
}

#[test]
fn merge_of_nothing_is_empty() {
    let parts = PacketsT { packets: Some(vec![]) };
    assert!(can_merge(&parts));
    assert!(merge(&parts).is_empty());
}

#[test]
fn missing_blocks_give_nothing() {
    let data: Vec<u8> = vec![9u8; 600];
    let mut packets = split(&data, 0);
    packets.pop();
    let parts = PacketsT { packets: Some(packets) };
    assert!(merge(&parts).is_empty());
}

#[test]
fn foreign_packets_cannot_merge() {
    assert!(!can_merge(&PacketsT { packets: None }));
    let short = PacketT { data: Some(vec![0u8; 10]), len: 100 };
    assert!(!can_merge(&PacketsT { packets: Some(vec![short]) }));
    let other_block = PacketT { data: Some(vec![1u8; 260]), len: 100 };
    assert!(!can_merge(&PacketsT { packets: Some(vec![other_block]) }));
    let no_data = PacketT { data: None, len: 100 };
    assert!(!can_merge(&PacketsT { packets: Some(vec![no_data]) }));
}
