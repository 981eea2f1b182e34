use zcash_warp::account::{AccountInfo, OrchardAccountInfo, SaplingAccountInfo, TransparentAccountInfo};
use zcash_warp::address::TransparentAddress;
use zcash_warp::data::{RecipientT, UAReceiversT};
use zcash_warp::pay::{make_payment, BuildError, Error, ExtendedRecipient, PaymentBuilder, UnsignedTransaction, TxInput, UTXO};
use zcash_warp::types::PoolMask;
use zcash_warp::witness::AuthPath;

fn utxo(id: u32, value: u64) -> UTXO {
    UTXO {
        is_new: false,
        id,
        account: 1,
        external: 0,
        addr_index: 0,
        height: 100,
        timestamp: 0,
        txid: [id as u8; 32],
        vout: 0,
        address: "t1me".to_string(),
        value,
    }
}

fn t_recipient(address: &str, amount: u64) -> ExtendedRecipient {
    let r = RecipientT { address: Some(address.to_string()), amount, pools: 7, memo: None, memo_bytes: None };
    let decoded = UAReceiversT { tex: false, transparent: Some(address.to_string()), sapling: None, orchard: None };
    ExtendedRecipient::with_receivers(r, decoded)
}

fn own_addresses() -> UAReceiversT {
    UAReceiversT { tex: false, transparent: Some("t1me".to_string()), sapling: Some("zs1me".to_string()), orchard: None }
}

fn builder(outputs: Vec<ExtendedRecipient>, utxos: Vec<UTXO>) -> PaymentBuilder {
    let mut pb = PaymentBuilder::new(1_000, 1, "main".to_string(), own_addresses(), outputs, PoolMask(7));
    let inputs: Vec<TxInput> = utxos.iter().map(TxInput::from_utxo).collect();
    pb.add_account_funds(7, inputs, vec![], vec![]).unwrap();
    pb
}

fn pay(pb: PaymentBuilder, sender_pay_fees: bool) -> Result<UnsignedTransaction, Error> {
    assert!(pb.is_ready());
    make_payment(pb, sender_pay_fees, None, [[0u8; 32]; 2], [AuthPath([[0u8; 32]; 32]), AuthPath([[0u8; 32]; 32])])
}

fn totals(u: &UnsignedTransaction) -> (u64, u64) {
    (u.tx_notes.iter().map(|n| n.amount).sum(), u.tx_outputs.iter().map(|o| o.amount).sum())
}

#[test]
fn transparent_payment_with_change() {
    let pb = builder(vec![t_recipient("t1dest", 50_000)], vec![utxo(1, 100_000)]);
    let u = pay(pb, true).unwrap();
    let fee = u.fees.fee();
    assert_eq!(fee, 10_000);
    let (ins, outs) = totals(&u);
    assert_eq!(ins, outs + fee);
    assert_eq!(u.tx_outputs.len(), 2);
    assert_eq!(u.tx_outputs[0].address_string, "t1dest");
    assert_eq!(u.tx_outputs[0].amount, 50_000);
    assert!(u.tx_outputs[1].is_change);
    assert_eq!(u.tx_outputs[1].amount, 40_000);
    assert_eq!(u.tx_outputs[1].address_string, "t1me");
}

#[test]
fn recipient_pays_fee() {
    let pb = builder(vec![t_recipient("t1dest", 50_000)], vec![utxo(1, 100_000)]);
    let u = pay(pb, false).unwrap();
    let (ins, outs) = totals(&u);
    assert_eq!(ins, outs + u.fees.fee());
    assert_eq!(u.tx_outputs[0].amount, 40_000);
    assert_eq!(u.tx_outputs[1].amount, 50_000);
}

#[test]
fn not_enough_funds() {
    let pb = builder(vec![t_recipient("t1dest", 95_000)], vec![utxo(1, 100_000)]);
    assert_eq!(pay(pb, true).unwrap_err(), Error::NotEnoughFunds(5_000));
}

#[test]
fn no_recipient() {
    let pb = builder(vec![], vec![utxo(1, 100_000)]);
    assert_eq!(pay(pb, true).unwrap_err(), Error::NoRecipient);
}

#[test]
fn several_inputs_are_spent() {
    let pb = builder(vec![t_recipient("t1dest", 150_000)], vec![utxo(1, 100_000), utxo(2, 100_000), utxo(3, 100_000)]);
    let u = pay(pb, true).unwrap();
    let (ins, outs) = totals(&u);
    assert_eq!(ins, outs + u.fees.fee());
    assert_eq!(u.tx_notes.len(), 2);
}

#[test]
fn summary_of_plan() {
    let pb = builder(vec![t_recipient("t1dest", 50_000)], vec![utxo(1, 100_000)]);
    let u = pay(pb, true).unwrap();
    let mut s = u.to_summary(vec![1, 2, 3]);
    assert_eq!(s.fee, 10_000);
    assert_eq!(s.transparent_ins, 100_000);
    assert_eq!(s.sapling_net, 0);
    assert_eq!(s.orchard_net, 0);
    assert_eq!(s.privacy_level, 0);
    assert_eq!(s.recipients.as_ref().unwrap().len(), 2);
    assert_eq!(s.detach(), vec![1, 2, 3]);
    assert!(s.data.is_none());
}

#[test]
fn not_ready_builder() {
    let mut pb = builder(vec![t_recipient("t1dest", 50_000)], vec![utxo(1, 100_000)]);
    pb.fee = 1;
    assert!(!pb.is_ready());
}

#[test]
fn tex_recipient_excludes_shielded_funds() {
    let r = RecipientT { address: Some("tex1x".to_string()), amount: 1_000, pools: 7, memo: None, memo_bytes: None };
    let decoded = UAReceiversT { tex: true, transparent: Some("t1hash".to_string()), sapling: None, orchard: None };
    let out = ExtendedRecipient::with_receivers(r, decoded);
    let mut pb = PaymentBuilder::new(1_000, 1, "main".to_string(), own_addresses(), vec![out], PoolMask(7));
    assert!(pb.has_tex());
    let t: Vec<TxInput> = vec![TxInput::from_utxo(&utxo(1, 50_000))];
    let s: Vec<TxInput> = vec![TxInput::from_utxo(&utxo(2, 60_000))];
    pb.add_account_funds(7, t, s, vec![]).unwrap();
    assert_eq!(pb.account_pools.0, 7);
    assert_eq!(pb.inputs[0].len(), 1);
    assert_eq!(pb.inputs[1].len(), 0);
}

#[test]
fn dust_change_is_not_built() {
    // 100_000 in, 89_950 out, fee 10_000: the change of 50 is dust.
    let pb = builder(vec![t_recipient("t1dest", 89_950)], vec![utxo(1, 100_000)]);
    let u = pay(pb, true).unwrap();
    assert_eq!(u.tx_outputs.len(), 2);
    assert_eq!(u.tx_outputs[1].amount, 50);
    assert_eq!(u.built_outputs(), vec![0]);
    assert!(!u.has_orchard());

    let pb = builder(vec![t_recipient("t1dest", 50_000)], vec![utxo(1, 100_000)]);
    let u = pay(pb, true).unwrap();
    assert_eq!(u.built_outputs(), vec![0, 1]);
    assert!(!u.has_orchard());
}

fn signer(sapling_sk: bool, orchard: Option<bool>) -> AccountInfo {
    AccountInfo {
        account: 1,
        position: 0,
        name: "main".to_string(),
        seed: None,
        aindex: 0,
        dindex: 0,
        birth: 0,
        saved: false,
        transparent: None,
        sapling: Some(SaplingAccountInfo { sk: if sapling_sk { Some(vec![1u8; 169]) } else { None }, vk: vec![2u8; 128], addr: [0u8; 43] }),
        orchard: orchard.map(|sk| OrchardAccountInfo { sk: if sk { Some(vec![3u8; 32]) } else { None }, vk: vec![4u8; 96], addr: [0u8; 43] }),
    }
}

#[test]
fn keys_needed_for_signing() {
    let pb = builder(vec![t_recipient("t1dest", 50_000)], vec![utxo(1, 100_000)]);
    let u = pay(pb, true).unwrap();
    let known = vec!["t1me".to_string()];
    assert_eq!(u.check_keys(&signer(true, None), &known), Ok(()));
    assert_eq!(u.check_keys(&signer(false, None), &known), Err(BuildError::NoSecretKeys));
    assert_eq!(u.check_keys(&signer(true, None), &vec!["t1other".to_string()]), Err(BuildError::NoTransparentKey(0)));
    // no Orchard bundle, so no Orchard key is needed
    assert_eq!(u.check_keys(&signer(true, Some(false)), &known), Ok(()));
}

#[test]
fn many_candidate_notes_are_planned() {
    let utxos: Vec<UTXO> = (1..=300u32).map(|i| utxo(i, 100_000)).collect();
    let pb = builder(vec![t_recipient("t1dest", 150_000)], utxos);
    let u = pay(pb, true).unwrap();
    let (ins, outs) = totals(&u);
    assert_eq!(u.tx_notes.len(), 2);
    assert_eq!(ins, outs + u.fees.fee());
    assert_eq!(u.tx_outputs[0].amount, 150_000);
}

fn transparent_part() -> TransparentAccountInfo {
    TransparentAccountInfo {
        index: 0,
        xsk: None,
        sk: Some([5u8; 32]),
        vk: None,
        addr: TransparentAddress::PublicKeyHash([1u8; 20]),
        change_index: None,
    }
}

#[test]
fn signing_plan_takes_keys_from_the_store() {
    let pb = builder(vec![t_recipient("t1dest", 50_000)], vec![utxo(1, 100_000)]);
    let u = pay(pb, true).unwrap();
    let mut store = vec![("t1me".to_string(), [7u8; 32])];
    let plan = u.build(&signer(true, None), &mut store, &vec![("t1me".to_string(), [9u8; 32])]).unwrap();
    // the account has no transparent part: its keys do not enter the store
    assert_eq!(store.len(), 1);
    assert_eq!(plan.input_keys, vec![Some([7u8; 32])]);
    assert_eq!(plan.outputs, vec![0, 1]);
    assert!(!plan.orchard);
}

#[test]
fn signing_plan_enters_the_account_keys() {
    let pb = builder(vec![t_recipient("t1dest", 50_000)], vec![utxo(1, 100_000)]);
    let u = pay(pb, true).unwrap();
    let mut ai = signer(true, None);
    ai.transparent = Some(transparent_part());
    let mut store = vec![("t1me".to_string(), [7u8; 32])];
    let plan = u.build(&ai, &mut store, &vec![("t1me".to_string(), [9u8; 32])]).unwrap();
    assert_eq!(store, vec![("t1me".to_string(), [7u8; 32]), ("t1me".to_string(), [9u8; 32])]);
    // the key entered last is the one used
    assert_eq!(plan.input_keys, vec![Some([9u8; 32])]);
}

#[test]
fn signing_plan_errors() {
    let pb = builder(vec![t_recipient("t1dest", 50_000)], vec![utxo(1, 100_000)]);
    let u = pay(pb, true).unwrap();
    let mut ai = signer(false, None);
    ai.transparent = Some(transparent_part());
    let mut store = vec![];
    assert_eq!(u.build(&ai, &mut store, &vec![("t1me".to_string(), [9u8; 32])]).err(), Some(BuildError::NoSecretKeys));
    assert!(store.is_empty());
    assert_eq!(u.build(&signer(true, None), &mut store, &vec![]).err(), Some(BuildError::NoTransparentKey(0)));
}

#[test]
fn signing_plan_of_another_account() {
    let pb = builder(vec![t_recipient("t1dest", 50_000)], vec![utxo(1, 100_000)]);
    let u = pay(pb, true).unwrap();
    let mut ai = signer(true, None);
    ai.account = 2;
    ai.transparent = Some(transparent_part());
    let mut store = vec![("t1me".to_string(), [7u8; 32])];
    assert_eq!(u.build(&ai, &mut store, &vec![("t1me".to_string(), [9u8; 32])]).err(), Some(BuildError::InvalidAccount));
    assert_eq!(store.len(), 1);
}
