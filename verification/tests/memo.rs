use zcash_warp::data::{PaymentRequestT, RecipientT, UserMemoT};
use zcash_warp::memo::{memo_encode, parse_memo_text, prepare_payment_request, MemoError, MemoKind};

fn message(reply_to: bool, sender: &str, subject: &str, body: &str) -> UserMemoT {
    UserMemoT {
        reply_to,
        sender: sender.to_string(),
        recipient: "zs1recipient".to_string(),
        subject: subject.to_string(),
        body: body.to_string(),
    }
}

#[test]
fn encode_empty_memo() {
    assert_eq!(memo_encode(&MemoKind::Empty), vec![0xF6]);
}

#[test]
fn encode_text_memo() {
    assert_eq!(memo_encode(&MemoKind::Text("hi".to_string())), b"hi".to_vec());
}

#[test]
fn encode_arbitrary_memo_drops_trailing_zeros() {
    let mut data = vec![0u8; 511];
    data[0] = 7;
    assert_eq!(memo_encode(&MemoKind::Arbitrary(data)), vec![0xFF, 7]);
}

#[test]
fn message_to_memo_text() {
    let m = message(false, "zs1me", "Hello", "How are you?");
    match m.to_memo() {
        Ok(MemoKind::Text(t)) => assert_eq!(t, "\u{1F6E1}MSG\n\nHello\nHow are you?"),
        other => panic!("unexpected {:?}", other),
    }
    let m = message(true, "zs1me", "Hello", "Body");
    match m.to_memo() {
        Ok(MemoKind::Text(t)) => assert_eq!(t, "\u{1F6E1}MSG\nzs1me\nHello\nBody"),
        other => panic!("unexpected {:?}", other),
    }
    let m = message(false, "zs1me", "", "Just a body");
    match m.to_memo() {
        Ok(MemoKind::Text(t)) => assert_eq!(t, "Just a body"),
        other => panic!("unexpected {:?}", other),
    }
}

#[test]
fn message_to_memo_empty_and_too_long() {
    let m = message(false, "", "", "");
    assert!(matches!(m.to_memo(), Ok(MemoKind::Empty)));
    let long = "x".repeat(600);
    let m = message(false, "", "", &long);
    assert_eq!(m.to_memo().unwrap_err(), MemoError::TooLong(600));
}

#[test]
fn from_text_reads_message() {
    let m = UserMemoT::from_text(Some("zs1sender"), "zs1rcpt", "\u{1F6E1}MSG\nzs1from\nSubject\nLine 1\nLine 2");
    assert_eq!(m.sender, "zs1from");
    assert_eq!(m.subject, "Subject");
    assert_eq!(m.body, "Line 1\nLine 2");
    assert_eq!(m.recipient, "zs1rcpt");
    assert!(!m.reply_to);
}

#[test]
fn from_text_uses_given_sender_when_line_empty() {
    let m = UserMemoT::from_text(Some("zs1sender"), "zs1rcpt", "\u{1F6E1}MSG\n\nSubject\nBody");
    assert_eq!(m.sender, "zs1sender");
    let m = UserMemoT::from_text(None, "zs1rcpt", "\u{1F6E1}MSG\n\nSubject\nBody");
    assert_eq!(m.sender, "");
}

#[test]
fn from_text_plain_text_is_body() {
    let m = UserMemoT::from_text(Some("zs1sender"), "zs1rcpt", "hello\nworld");
    assert_eq!(m.sender, "");
    assert_eq!(m.subject, "");
    assert_eq!(m.body, "hello\nworld");
}

#[test]
fn message_round_trip() {
    let m = message(true, "zs1me", "Greetings", "multi\nline\nbody");
    let text = match m.to_memo() {
        Ok(MemoKind::Text(t)) => t,
        other => panic!("unexpected {:?}", other),
    };
    let back = UserMemoT::from_text(None, "zs1recipient", &text);
    assert_eq!(back.sender, "zs1me");
    assert_eq!(back.subject, "Greetings");
    assert_eq!(back.body, "multi\nline\nbody");
}

#[test]
fn parse_memo_text_fills_message() {
    let txid = [3u8; 32];
    let msg = parse_memo_text(1, 2, &txid, 4, 100, 200, true, Some("zs1s".to_string()), "zs1r".to_string(), "\u{1F6E1}MSG\n\nSub\nBody");
    assert_eq!(msg.id_msg, 0);
    assert_eq!(msg.account, 1);
    assert_eq!(msg.id_tx, 2);
    assert_eq!(msg.txid, Some(vec![3u8; 32]));
    assert_eq!(msg.nout, 4);
    assert_eq!(msg.height, 100);
    assert_eq!(msg.timestamp, 200);
    assert!(msg.incoming);
    assert!(!msg.read);
    assert!(msg.contact.is_none());
    let m = msg.memo.unwrap();
    assert_eq!(m.sender, "zs1s");
    assert_eq!(m.subject, "Sub");
    assert_eq!(m.body, "Body");
}

fn recipient(memo: Option<UserMemoT>, memo_bytes: Option<Vec<u8>>) -> RecipientT {
    RecipientT { address: Some("zs1x".to_string()), amount: 10, pools: 7, memo, memo_bytes }
}

#[test]
fn normalize_memo_message_first() {
    let r = recipient(Some(message(false, "", "S", "B")), Some(vec![0xF6])).normalize_memo().unwrap();
    assert_eq!(r.memo_bytes, Some("\u{1F6E1}MSG\n\nS\nB".as_bytes().to_vec()));
    assert!(r.memo.is_none());
    assert_eq!(r.amount, 10);
}

#[test]
fn normalize_memo_bytes_and_empty() {
    let r = recipient(None, Some(b"abc".to_vec())).normalize_memo().unwrap();
    assert_eq!(r.memo_bytes, Some(b"abc".to_vec()));
    let r = recipient(None, None).normalize_memo().unwrap();
    assert_eq!(r.memo_bytes, Some(vec![0xF6]));
}

#[test]
fn normalize_memo_errors() {
    let r = recipient(None, Some(vec![0xC3, 0x28])).normalize_memo();
    assert_eq!(r.unwrap_err(), MemoError::InvalidUtf8);
    let r = recipient(None, Some(vec![1u8; 513])).normalize_memo();
    assert_eq!(r.unwrap_err(), MemoError::TooLong(513));
}

#[test]
fn payment_request_normalized() {
    let req = PaymentRequestT {
        recipients: Some(vec![recipient(None, Some(b"x".to_vec())), recipient(Some(message(false, "", "", "b")), None)]),
        src_pools: 6,
        sender_pay_fees: false,
        use_change: true,
        height: 1_000,
        expiration: 1_100,
    };
    let p = prepare_payment_request(&req, 990).unwrap();
    assert_eq!(p.height, 990);
    assert_eq!(p.expiration, 1_100);
    assert_eq!(p.src_pools, 6);
    let rs = p.recipients.unwrap();
    assert_eq!(rs[0].memo_bytes, Some(b"x".to_vec()));
    assert_eq!(rs[1].memo_bytes, Some(b"b".to_vec()));
    let bad = PaymentRequestT { recipients: Some(vec![recipient(None, Some(vec![0xC3, 0x28]))]), ..req };
    assert_eq!(prepare_payment_request(&bad, 990).unwrap_err(), MemoError::InvalidUtf8);
}

#[test]
fn text_memo_round_trip() {
    for text in ["a", "héllo wörld", "🛡 shield", "line\nbreak"] {
        let bytes = memo_encode(&MemoKind::Text(text.to_string()));
        let r = RecipientT { address: None, amount: 0, pools: 0, memo: None, memo_bytes: Some(bytes.clone()) }.normalize_memo().unwrap();
        assert_eq!(r.memo_bytes, Some(bytes));
    }
}
