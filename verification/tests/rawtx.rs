use zcash_warp::account::AccountInfo;
use zcash_warp::address::{filter_receivers, RecipientAddress, TransparentAddress};
use zcash_warp::chain::Network;
use zcash_warp::pay::UTXO;
use zcash_warp::rawtx::{analyze_raw_transaction, transaction_spends, transparent_tx, txin_coin, TxError};
use zcash_warp::txdetails::{OutPoint, TxOut2};

/// A version 5 transaction with one transparent input spending output 3 of
/// `prev`, one transparent output paying `value` to the key hash `pkh`,
/// and no shielded part.
fn raw_tx(prev: [u8; 32], pkh: [u8; 20], value: u64) -> Vec<u8> {
    let mut b = vec![];
    b.extend_from_slice(&0x8000_0005u32.to_le_bytes());
    b.extend_from_slice(&0x26A7_270Au32.to_le_bytes());
    b.extend_from_slice(&0xC2D6_D0B4u32.to_le_bytes());
    b.extend_from_slice(&0u32.to_le_bytes());
    b.extend_from_slice(&0u32.to_le_bytes());
    b.push(1);
    b.extend_from_slice(&prev);
    b.extend_from_slice(&3u32.to_le_bytes());
    b.push(0);
    b.extend_from_slice(&0xFFFF_FFFFu32.to_le_bytes());
    b.push(1);
    b.extend_from_slice(&value.to_le_bytes());
    b.push(25);
    b.extend_from_slice(&[0x76, 0xa9, 0x14]);
    b.extend_from_slice(&pkh);
    b.extend_from_slice(&[0x88, 0xac]);
    b.push(0);
    b.push(0);
    b.push(0);
    b
}

fn account() -> AccountInfo {
    AccountInfo {
        account: 1,
        position: 0,
        name: "main".to_string(),
        seed: None,
        aindex: 0,
        dindex: 0,
        birth: 0,
        saved: false,
        transparent: None,
        sapling: None,
        orchard: None,
    }
}

fn utxo(txid: [u8; 32], vout: u32, address: &str, value: u64) -> UTXO {
    UTXO { is_new: false, id: 9, account: 1, external: 0, addr_index: 0, height: 1, timestamp: 0, txid, vout, address: address.to_string(), value }
}

#[test]
fn spends_of_a_transparent_transaction() {
    let raw = raw_tx([1u8; 32], [7u8; 20], 40_000);
    let (ins, snf, onf) = transaction_spends(&Network::Main, 3_000_000, &raw).unwrap();
    assert_eq!(ins.len(), 1);
    assert_eq!((ins[0].txid, ins[0].vout), ([1u8; 32], 3));
    assert!(snf.is_empty() && onf.is_empty());
    assert!(transaction_spends(&Network::Main, 3_000_000, &raw[..20].to_vec()).is_none());
}

#[test]
fn transaction_matched_against_the_account() {
    let mine = filter_receivers(Network::Main, &RecipientAddress::Transparent(TransparentAddress::PublicKeyHash([7u8; 20])), 1);
    let raw = raw_tx([1u8; 32], [7u8; 20], 40_000);
    let utxos = vec![utxo([1u8; 32], 3, "t1spent", 50_000), utxo([1u8; 32], 4, "t1other", 1)];
    let coins = vec![TxOut2 { address: Some("t1spent".to_string()), value: 50_000, vout: 3 }];
    let d = analyze_raw_transaction(&Network::Main, &account(), 3_000_000, 77, &raw, &utxos, &vec![mine.clone()], &vec![], &vec![], &coins)
        .unwrap();
    assert_eq!((d.height, d.timestamp), (3_000_000, 77));
    assert_eq!(d.tins.len(), 1);
    assert_eq!(d.tins[0].note.as_ref().map(|n| n.value), Some(50_000));
    assert_eq!(d.tins[0].coin.address.as_deref(), Some("t1spent"));
    assert_eq!(d.touts.len(), 1);
    assert_eq!(d.touts[0].coin.address.as_deref(), Some(mine.as_str()));
    assert_eq!(d.touts[0].note.as_ref().map(|n| n.value), Some(40_000));
    assert_eq!(d.value, 40_000 - 50_000);
    assert!(d.sins.is_empty() && d.souts.is_empty() && d.oins.is_empty() && d.oouts.is_empty());
    let (ins, _, _) = transaction_spends(&Network::Main, 3_000_000, &raw).unwrap();
    assert_eq!(ins[0].vout, 3);
    let _: OutPoint = ins[0];
}

#[test]
fn foreign_transaction_is_worth_nothing() {
    let raw = raw_tx([2u8; 32], [8u8; 20], 40_000);
    let d = analyze_raw_transaction(&Network::Main, &account(), 3_000_000, 0, &raw, &vec![], &vec![], &vec![], &vec![], &vec![]).unwrap();
    assert_eq!(d.value, 0);
    assert!(d.tins[0].note.is_none() && d.touts[0].note.is_none());
    assert_eq!(d.tins[0].coin.value, 0);
}

#[test]
fn garbage_is_no_transaction() {
    let r = analyze_raw_transaction(&Network::Main, &account(), 3_000_000, 0, &vec![1, 2, 3], &vec![], &vec![], &vec![], &vec![], &vec![]);
    assert_eq!(r.unwrap_err(), TxError::InvalidTransaction);
}

#[test]
fn transparent_transaction_of_an_address() {
    let raw = raw_tx([1u8; 32], [7u8; 20], 40_000);
    let mine = TransparentAddress::PublicKeyHash([7u8; 20]);
    let t = transparent_tx(&Network::Main, 4, &mine, 3_000_000, &raw).unwrap();
    assert_eq!((t.account, t.height, t.timestamp), (4, 3_000_000, 0));
    assert_eq!(t.vins.len(), 1);
    assert_eq!((t.vins[0].txid, t.vins[0].vout), ([1u8; 32], 3));
    assert_eq!(t.vouts.len(), 1);
    assert_eq!((t.vouts[0].value, t.vouts[0].vout), (40_000, 0));
    assert!(matches!(t.vouts[0].address, Some(TransparentAddress::PublicKeyHash(h)) if h == [7u8; 20]));
    // another address gets the inputs but no output
    let other = transparent_tx(&Network::Main, 4, &TransparentAddress::PublicKeyHash([8u8; 20]), 3_000_000, &raw).unwrap();
    assert!(other.vouts.is_empty());
    assert_eq!(other.txid, t.txid);
    assert!(transparent_tx(&Network::Main, 4, &mine, 3_000_000, &raw[..20].to_vec()).is_none());
}

#[test]
fn coin_spent_by_an_input() {
    let raw = raw_tx([1u8; 32], [7u8; 20], 40_000);
    let c = txin_coin(&Network::Main, &raw, 0).unwrap();
    let expected = filter_receivers(Network::Main, &RecipientAddress::Transparent(TransparentAddress::PublicKeyHash([7u8; 20])), 1);
    assert_eq!(c.address.as_deref(), Some(expected.as_str()));
    assert_eq!((c.value, c.vout), (40_000, 0));
    assert!(matches!(txin_coin(&Network::Main, &raw, 1), Err(TxError::InvalidTransaction)));
    assert!(matches!(txin_coin(&Network::Main, &raw[..30].to_vec(), 0), Err(TxError::InvalidTransaction)));
}
