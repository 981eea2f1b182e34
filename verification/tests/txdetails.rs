use zcash_warp::chain::Network;
use zcash_warp::contacts::serialize_contacts;
use zcash_warp::memo::{memo_encode, MemoError};
use zcash_warp::txdetails::{
    get_tx_primary_address_memo, get_txs, tx_messages, transparent_inputs, transparent_outputs, ExtendedReceivedTx, ReceivedTx, spend_info, Addresses, CompressedMemo, FullPlainNote, OutPoint, PlainNote, ShieldedInput,
    ShieldedOutput, TransactionDetails, TransparentInput, TransparentNote, TransparentOutput, TxOut2,
};

fn tin(address: Option<&str>, mine: Option<u64>) -> TransparentInput {
    TransparentInput {
        out_point: OutPoint { txid: [1u8; 32], vout: 0 },
        coin: TxOut2 { address: address.map(|a| a.to_string()), value: 1_000, vout: 0 },
        note: mine.map(|v| TransparentNote { id: 1, address: "t1me".to_string(), value: v }),
    }
}

fn tout(address: &str, mine: Option<u64>) -> TransparentOutput {
    TransparentOutput {
        coin: TxOut2 { address: Some(address.to_string()), value: 500, vout: 1 },
        note: mine.map(|v| TransparentNote { id: 2, address: address.to_string(), value: v }),
    }
}

fn plain(value: u64) -> PlainNote {
    PlainNote { id: 0, address: [2u8; 43], value, rcm: [4u8; 32], rho: None }
}

fn sout(value: u64, memo: Vec<u8>, incoming: bool) -> ShieldedOutput {
    ShieldedOutput { cmx: [5u8; 32], note: Some(FullPlainNote { note: plain(value), memo: CompressedMemo(memo), incoming }) }
}

fn details(tins: Vec<TransparentInput>, touts: Vec<TransparentOutput>, sins: Vec<ShieldedInput>, souts: Vec<ShieldedOutput>) -> TransactionDetails {
    TransactionDetails::from_parts(10, 20, [9u8; 32], tins, touts, sins, souts, vec![], vec![])
}

#[test]
fn value_is_received_less_spent() {
    let d = details(
        vec![tin(Some("t1me"), Some(70_000)), tin(Some("t1other"), None)],
        vec![tout("t1x", None), tout("t1me", Some(5_000))],
        vec![ShieldedInput { nf: [0u8; 32], note: Some(plain(30_000)) }],
        vec![sout(12_000, vec![0xF6], true), ShieldedOutput { cmx: [0u8; 32], note: None }],
    );
    assert_eq!(d.value, (5_000 + 12_000) - (70_000 + 30_000));
    assert_eq!(d.height, 10);
    assert_eq!(d.timestamp, 20);
}

fn addrs() -> Addresses {
    Addresses { transparent: Some("t1me".to_string()), sapling: Some("zs1me".to_string()), orchard: None }
}

#[test]
fn primary_address_incoming_is_last_input() {
    let d = details(vec![tin(Some("t1a"), None), tin(Some("t1b"), None)], vec![], vec![], vec![]);
    let (a, m) = get_tx_primary_address_memo(100, &addrs(), &d, &vec![], &vec![]).unwrap();
    assert_eq!(a.as_deref(), Some("t1b"));
    assert_eq!(m, None);
}

#[test]
fn primary_address_outgoing_skips_own() {
    let d = details(vec![], vec![tout("t1dest", None), tout("t1me", Some(1))], vec![], vec![
        sout(1, b"first memo".to_vec(), false),
        sout(1, b"second".to_vec(), false),
    ]);
    let sa = vec!["zs1me".to_string(), "zs1me".to_string()];
    let (a, m) = get_tx_primary_address_memo(-100, &addrs(), &d, &sa, &vec![]).unwrap();
    assert_eq!(a.as_deref(), Some("t1dest"));
    assert_eq!(m.as_deref(), Some("first memo"));
}

#[test]
fn primary_address_falls_back_to_own() {
    let d = details(vec![], vec![tout("t1me", Some(1))], vec![], vec![]);
    let (a, _) = get_tx_primary_address_memo(-1, &addrs(), &d, &vec![], &vec![]).unwrap();
    assert_eq!(a.as_deref(), Some("t1me"));
}

#[test]
fn primary_memo_error() {
    let d = details(vec![], vec![], vec![], vec![sout(1, vec![0xC3, 0x28], true)]);
    let r = get_tx_primary_address_memo(1, &addrs(), &d, &vec!["zs1x".to_string()], &vec![]);
    assert_eq!(r.unwrap_err(), MemoError::InvalidUtf8);
}

#[test]
fn spend_info_authenticates() {
    let d = details(vec![tin(Some("t1other"), None), tin(None, None)], vec![], vec![], vec![]);
    assert_eq!(spend_info(&Some("t1me".to_string()), &d), (Some("t1other".to_string()), false));
    let d = details(vec![tin(Some("t1me"), None)], vec![], vec![], vec![]);
    assert_eq!(spend_info(&Some("t1me".to_string()), &d), (Some("t1me".to_string()), true));
    assert_eq!(spend_info(&None, &d), (None, false));
    let d = details(vec![], vec![], vec![ShieldedInput { nf: [0u8; 32], note: Some(plain(1)) }], vec![]);
    assert_eq!(spend_info(&None, &d), (None, true));
}

#[test]
fn contacts_from_transaction_memos() {
    let data: Vec<u8> = (0..700u32).map(|i| (i % 256) as u8).collect();
    let memos = serialize_contacts(&data);
    let souts: Vec<ShieldedOutput> = memos.iter().map(|m| sout(10_000, memo_encode(m), true)).collect();
    let d = details(vec![], vec![], vec![], souts);
    assert_eq!(zcash_warp::txdetails::decode_contacts(&d).unwrap(), Some(data));
    let d = details(vec![], vec![], vec![], vec![sout(1, b"hello".to_vec(), true)]);
    assert_eq!(zcash_warp::txdetails::decode_contacts(&d).unwrap(), None);
}

#[test]
fn memo_display() {
    assert_eq!(CompressedMemo(b"hello".to_vec()).to_string(), "hello");
    assert_eq!(CompressedMemo(vec![0xF6]).to_string(), "");
    assert_eq!(CompressedMemo(vec![0xF5, 1]).to_string(), "(Future data)");
    let mut arb = vec![0xFFu8, 0xAB, 0x01];
    arb.resize(512, 0);
    let s = CompressedMemo(arb).to_string();
    assert_eq!(s.len(), 1022);
    assert!(s.starts_with("ab01"));
}

#[test]
fn extended_info_of_transaction() {
    let d = details(vec![tin(Some("t1a"), None)], vec![tout("t1b", None)], vec![], vec![sout(7, b"memo".to_vec(), true)]);
    let info = d.to_transaction_info_ext(&Network::Main);
    assert_eq!(info.height, 10);
    assert_eq!(info.txid, Some(vec![9u8; 32]));
    let tins = info.tins.unwrap();
    assert_eq!(tins[0].address.as_deref(), Some("t1a"));
    assert_eq!(tins[0].value, 1_000);
    let souts = info.souts.unwrap();
    assert_eq!(souts[0].value, 7);
    assert!(souts[0].incoming);
    assert_eq!(souts[0].memo.as_deref(), Some("memo"));
    assert_eq!(souts[0].rho, Some(vec![]));
    assert!(souts[0].address.as_ref().unwrap().starts_with("zs1"));
    assert!(info.oouts.unwrap().is_empty());
}

#[test]
fn sapling_address_text_of_zero_bytes() {
    let d = details(vec![], vec![], vec![], vec![ShieldedOutput {
        cmx: [0u8; 32],
        note: Some(FullPlainNote { note: PlainNote { id: 0, address: [0u8; 43], value: 1, rcm: [0u8; 32], rho: None }, memo: CompressedMemo(vec![0xF6]), incoming: false }),
    }]);
    let info = d.to_transaction_info_ext(&Network::Main);
    assert_eq!(
        info.souts.unwrap()[0].address.as_deref(),
        Some("zs1qqqqqqqqqqqqqqqqqqqqqqqqqqqqqqqqqqqqqqqqqqqqqqqqqqqqqqqqqqqqqqqqqqqqqpq6d8g")
    );
}

fn utxo(id: u32, txid: u8, vout: u32, value: u64) -> zcash_warp::pay::UTXO {
    zcash_warp::pay::UTXO {
        is_new: false,
        id,
        account: 1,
        external: 0,
        addr_index: 0,
        height: 1,
        timestamp: 0,
        txid: [txid; 32],
        vout,
        address: format!("t1own{id}"),
        value,
    }
}

#[test]
fn inputs_matched_with_own_outputs() {
    let prevouts = vec![OutPoint { txid: [1u8; 32], vout: 1 }, OutPoint { txid: [2u8; 32], vout: 0 }];
    let utxos = vec![utxo(10, 1, 0, 5), utxo(11, 1, 1, 7), utxo(12, 1, 1, 9)];
    let tins = transparent_inputs(&prevouts, &utxos);
    assert_eq!(tins.len(), 2);
    let n = tins[0].note.as_ref().unwrap();
    assert_eq!((n.id, n.address.as_str(), n.value), (0, "t1own11", 7));
    assert!(tins[1].note.is_none());
    assert_eq!(tins[1].out_point.vout, 0);
    assert!(tins[0].coin.address.is_none());
}

#[test]
fn outputs_matched_with_own_addresses() {
    let outs = vec![(Some("t1other".to_string()), 100), (Some("t1mine".to_string()), 200), (None, 300)];
    let touts = transparent_outputs(&outs, &vec!["t1mine".to_string()]);
    assert!(touts[0].note.is_none());
    assert_eq!(touts[1].note.as_ref().unwrap().value, 200);
    assert_eq!(touts[1].coin.vout, 1);
    assert!(touts[2].note.is_none() && touts[2].coin.address.is_none());
}

#[test]
fn history_with_confirmations() {
    let txs = vec![ExtendedReceivedTx {
        rtx: ReceivedTx { id: 4, account: 1, height: 95, txid: [8u8; 32], timestamp: 50, value: -10, ivtx: 0 },
        address: Some("t1x".to_string()),
        contact: None,
        memo: Some("hi".to_string()),
    }];
    let infos = get_txs(&txs, 100);
    assert_eq!(infos[0].confirmations, 6);
    assert_eq!(infos[0].amount, -10);
    assert_eq!(infos[0].contact.as_deref(), Some(""));
    assert_eq!(infos[0].memo.as_deref(), Some("hi"));
    assert_eq!(infos[0].txid, Some(vec![8u8; 32]));
}

#[test]
fn messages_of_text_memos() {
    let d = TransactionDetails::from_parts(
        10, 20, [9u8; 32], vec![], vec![], vec![],
        vec![
            sout(1, b"hello".to_vec(), true),
            sout(2, vec![0xF6], true),
            ShieldedOutput { cmx: [0u8; 32], note: None },
            sout(3, "\u{1F6E1}MSG\nBob\nLunch\nAt noon".as_bytes().to_vec(), false),
        ],
        vec![],
        vec![],
    );
    let ms = tx_messages(&Network::Main, &"u1me".to_string(), &Some("t1sender".to_string()), 7, 11, &d).unwrap();
    assert_eq!(ms.len(), 2);
    let m = &ms[0];
    assert_eq!((m.account, m.id_tx, m.nout, m.height, m.timestamp, m.incoming, m.read), (7, 11, 0, 10, 20, true, false));
    assert_eq!(m.txid.as_deref(), Some(&[9u8; 32][..]));
    let u = m.memo.as_ref().unwrap();
    assert_eq!(u.body, "hello");
    assert_eq!(u.sender, "");
    assert!(u.recipient.starts_with("zs1"));
    let m = &ms[1];
    assert_eq!((m.nout, m.incoming), (3, false));
    let u = m.memo.as_ref().unwrap();
    assert_eq!((u.sender.as_str(), u.subject.as_str(), u.body.as_str()), ("Bob", "Lunch", "At noon"));
}

#[test]
fn messages_need_valid_memos() {
    let d = TransactionDetails::from_parts(10, 20, [9u8; 32], vec![], vec![], vec![], vec![sout(1, vec![0xC3, 0x28], true)], vec![], vec![]);
    assert_eq!(tx_messages(&Network::Main, &"u1me".to_string(), &None, 7, 11, &d).unwrap_err(), MemoError::InvalidUtf8);
}
