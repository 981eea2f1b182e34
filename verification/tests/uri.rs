use zcash_warp::address::{filter_receivers, RecipientAddress, TransparentAddress, UnifiedReceivers};
use zcash_warp::chain::Network;
use zcash_warp::data::{PaymentRequestT, RecipientT, UserMemoT};
use zcash_warp::keys::detect_key;
use zcash_warp::uri::{is_valid_address_or_uri, make_payment_uri, parse_payment_uri, UriError};

const PHRASE: &str = "abandon abandon abandon abandon abandon abandon abandon abandon abandon abandon abandon about";

fn addresses() -> (String, String, String) {
    let k = detect_key(&Network::Main, PHRASE, 0).unwrap();
    let t = k.taddr.unwrap();
    let s = k.to_sapling().unwrap().addr;
    let o = k.to_orchard().unwrap().addr;
    let ua = RecipientAddress::Unified(UnifiedReceivers { transparent: Some(t), sapling: Some(s), orchard: Some(o) });
    (
        filter_receivers(Network::Main, &RecipientAddress::Transparent(t), 1),
        filter_receivers(Network::Main, &RecipientAddress::Sapling(s), 2),
        filter_receivers(Network::Main, &ua, 7),
    )
}

fn text_memo(body: &str) -> UserMemoT {
    UserMemoT { reply_to: false, sender: String::new(), recipient: String::new(), subject: String::new(), body: body.to_string() }
}

fn request(recipients: Vec<RecipientT>) -> PaymentRequestT {
    PaymentRequestT { recipients: Some(recipients), src_pools: 7, sender_pay_fees: true, use_change: true, height: 0, expiration: 0 }
}

fn recipient(address: &str, amount: u64, pools: u8, memo: Option<UserMemoT>) -> RecipientT {
    RecipientT { address: Some(address.to_string()), amount, pools, memo, memo_bytes: None }
}

#[test]
fn transparent_payment_uri() {
    let (t, _, _) = addresses();
    let uri = make_payment_uri(&Network::Main, &request(vec![recipient(&t, 100_000, 7, Some(text_memo("dropped")))])).unwrap();
    // a transparent address takes no memo
    assert_eq!(uri, format!("zcash:{}?amount=0.001", t));
    let req = parse_payment_uri(&Network::Main, &uri, 10, 60).unwrap();
    let rs = req.recipients.unwrap();
    assert_eq!(rs.len(), 1);
    assert_eq!(rs[0].address.as_deref(), Some(t.as_str()));
    assert_eq!(rs[0].amount, 100_000);
    assert_eq!(rs[0].pools, 7);
    assert!(rs[0].memo.is_none() && rs[0].memo_bytes.is_none());
    assert_eq!((req.src_pools, req.sender_pay_fees, req.use_change, req.height, req.expiration), (7, true, true, 10, 60));
}

#[test]
fn shielded_payments_keep_their_memo() {
    let (_, s, ua) = addresses();
    let rs = vec![recipient(&s, 1, 7, Some(text_memo("hello"))), recipient(&ua, 2 * 100_000_000, 6, None)];
    let uri = make_payment_uri(&Network::Main, &request(rs)).unwrap();
    let back = parse_payment_uri(&Network::Main, &uri, 0, 0).unwrap().recipients.unwrap();
    assert_eq!(back.len(), 2);
    assert_eq!(back[0].address.as_deref(), Some(s.as_str()));
    assert_eq!(back[0].amount, 1);
    assert_eq!(back[0].memo.as_ref().map(|m| m.body.as_str()), Some("hello"));
    // the unified address is cut down to its Sapling and Orchard receivers
    let shielded = back[1].address.clone().unwrap();
    assert_ne!(shielded, ua);
    assert!(shielded.starts_with("u1"));
    assert_eq!(back[1].amount, 200_000_000);
}

#[test]
fn payment_uri_errors() {
    let (t, s, _) = addresses();
    let too_much = request(vec![recipient(&t, 21_000_000 * 100_000_000 + 1, 7, None)]);
    assert_eq!(make_payment_uri(&Network::Main, &too_much).unwrap_err(), UriError::InvalidAmount);
    let bad = request(vec![recipient("zs1nothing", 1, 7, None)]);
    assert_eq!(make_payment_uri(&Network::Main, &bad).unwrap_err(), UriError::InvalidAddress);
    let no_pool = request(vec![recipient(&s, 1, 1, None)]);
    assert_eq!(make_payment_uri(&Network::Main, &no_pool).unwrap_err(), UriError::NoReceiver);
    // the first failing recipient decides
    let both = request(vec![recipient(&s, 1, 1, None), recipient("zs1nothing", 1, 7, None)]);
    assert_eq!(make_payment_uri(&Network::Main, &both).unwrap_err(), UriError::NoReceiver);
    assert_eq!(parse_payment_uri(&Network::Main, "zcash:?amount=x", 0, 0).unwrap_err(), UriError::InvalidRequest);
}

#[test]
fn addresses_and_uris_are_told_apart() {
    let (t, s, ua) = addresses();
    assert_eq!(is_valid_address_or_uri(&Network::Main, &t), 1);
    assert_eq!(is_valid_address_or_uri(&Network::Main, &s), 1);
    assert_eq!(is_valid_address_or_uri(&Network::Main, &ua), 1);
    let uri = make_payment_uri(&Network::Main, &request(vec![recipient(&t, 5, 7, None)])).unwrap();
    assert_eq!(is_valid_address_or_uri(&Network::Main, &uri), 2);
    assert_eq!(is_valid_address_or_uri(&Network::Main, "hello"), 0);
    let script = filter_receivers(Network::Main, &RecipientAddress::Transparent(TransparentAddress::ScriptHash([3u8; 20])), 1);
    assert_eq!(is_valid_address_or_uri(&Network::Main, &script), 1);
}
