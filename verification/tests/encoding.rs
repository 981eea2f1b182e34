use base58check::ToBase58Check;
use zcash_warp::encoding::{export_sk_bip38, to_txid_str, ua_of_orchard, OutputNote};
use zcash_warp::chain::Network;

#[test]
fn txid_text_is_reversed_hex() {
    let mut txid = [0u8; 32];
    for i in 0..32 {
        txid[i] = i as u8;
    }
    let s = to_txid_str(&txid);
    assert_eq!(&s[0..6], "1f1e1d");
    assert_eq!(&s[58..64], "020100");
    assert_eq!(s.len(), 64);
}

#[test]
fn exported_secret_key_is_wif() {
    let sk = [0x11u8; 32];
    let mut payload = sk.to_vec();
    payload.push(1);
    assert_eq!(export_sk_bip38(&sk), payload.to_base58check(0x80));
    assert!(export_sk_bip38(&sk).starts_with('K') || export_sk_bip38(&sk).starts_with('L'));
}

#[test]
fn orchard_unified_address_prefix() {
    let raw = [0u8; 43];
    assert!(ua_of_orchard(Network::Main, &raw).starts_with("u1"));
    assert!(ua_of_orchard(Network::Regtest, &raw).starts_with("uregtest1"));
    assert_ne!(ua_of_orchard(Network::Main, &raw), ua_of_orchard(Network::Main, &[1u8; 43]));
}

#[test]
fn output_note_addresses() {
    let t = OutputNote::Transparent { pkh: true, address: [0u8; 20] };
    assert!(t.to_address(&Network::Main).starts_with("t1"));
    let sh = OutputNote::Transparent { pkh: false, address: [0u8; 20] };
    assert!(sh.to_address(&Network::Main).starts_with("t3"));
    let s = OutputNote::Sapling { address: [0u8; 43], memo: vec![] };
    assert_eq!(s.to_address(&Network::Main), "zs1qqqqqqqqqqqqqqqqqqqqqqqqqqqqqqqqqqqqqqqqqqqqqqqqqqqqqqqqqqqqqqqqqqqqqpq6d8g");
    let o = OutputNote::Orchard { address: [0u8; 43], memo: vec![] };
    assert_eq!(o.to_address(&Network::Main), ua_of_orchard(Network::Main, &[0u8; 43]));
}
