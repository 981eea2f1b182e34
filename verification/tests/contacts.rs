use zcash_warp::contacts::{
    contact_recipients, contacts_payment_request, serialize_contacts, ChunkError, ChunkedContactV1, ChunkedMemoDecoder,
    CONTACT_COOKIE, MIN_AMOUNT,
};
use zcash_warp::memo::{memo_encode, MemoError, MemoKind};

fn sample(len: usize) -> Vec<u8> {
    (0..len).map(|i| (i * 7 % 251) as u8).collect()
}

fn boxes(memos: &[MemoKind]) -> Vec<Vec<u8>> {
    memos
        .iter()
        .map(|m| match m {
            MemoKind::Arbitrary(b) => b.clone(),
            other => panic!("not arbitrary: {:?}", other),
        })
        .collect()
}

#[test]
fn serialize_frames_chunks() {
    let data = sample(1_200);
    let memos = serialize_contacts(&data);
    assert_eq!(memos.len(), 3);
    let b = boxes(&memos);
    for (k, bx) in b.iter().enumerate() {
        assert_eq!(bx.len(), 511);
        assert_eq!(&bx[0..4], &CONTACT_COOKIE.to_be_bytes());
        assert_eq!(bx[4], k as u8);
    }
    assert_eq!(u16::from_be_bytes([b[0][5], b[0][6]]), 500);
    assert_eq!(u16::from_be_bytes([b[2][5], b[2][6]]), 200);
    assert_eq!(&b[2][7..207], &data[1000..1200]);
    assert!(b[2][207..].iter().all(|x| *x == 0));
}

#[test]
fn serialize_empty_list() {
    assert!(serialize_contacts(&Vec::new()).is_empty());
}

#[test]
fn contacts_round_trip() {
    let data = sample(1_234);
    let memos = serialize_contacts(&data);
    let mut decoder: ChunkedMemoDecoder<ChunkedContactV1> = ChunkedMemoDecoder::new(memos.len());
    for m in memos.iter() {
        let bytes = memo_encode(m);
        decoder.add_memo(&bytes).unwrap();
    }
    assert_eq!(decoder.finalize(), Some(data));
}

#[test]
fn contacts_round_trip_any_order() {
    let data = sample(2_100);
    let memos = serialize_contacts(&data);
    let mut decoder: ChunkedMemoDecoder<ChunkedContactV1> = ChunkedMemoDecoder::new(memos.len());
    for m in memos.iter().rev() {
        decoder.add_memo(&memo_encode(m)).unwrap();
    }
    assert_eq!(decoder.finalize(), Some(data));
}

#[test]
fn decoder_without_chunks_gives_nothing() {
    let mut decoder: ChunkedMemoDecoder<ChunkedContactV1> = ChunkedMemoDecoder::new(2);
    decoder.add_memo(b"just a text memo").unwrap();
    decoder.add_memo(&[0xF6]).unwrap();
    let mut other = vec![0xFFu8, 1, 2, 3, 4];
    other.resize(20, 0);
    decoder.add_memo(&other).unwrap();
    assert_eq!(decoder.finalize(), None);
}

#[test]
fn decoder_rejects_overflowing_chunk() {
    let mut memo = vec![0xFFu8];
    memo.extend_from_slice(&CONTACT_COOKIE.to_be_bytes());
    memo.push(0);
    memo.extend_from_slice(&505u16.to_be_bytes());
    memo.push(1);
    let mut decoder: ChunkedMemoDecoder<ChunkedContactV1> = ChunkedMemoDecoder::new(1);
    assert!(matches!(decoder.add_memo(&memo), Err(ChunkError::BufferOverflow)));
    assert_eq!(decoder.finalize(), None);
}

#[test]
fn decoder_rejects_bad_memo() {
    let mut decoder: ChunkedMemoDecoder<ChunkedContactV1> = ChunkedMemoDecoder::new(1);
    assert!(matches!(decoder.add_memo(&[0xC3, 0x28]), Err(ChunkError::Memo(MemoError::InvalidUtf8))));
}

#[test]
fn payment_request_for_contacts() {
    let data = sample(600);
    let req = contacts_payment_request(&"u1self".to_string(), &data, 7, 1_000);
    assert_eq!(req.src_pools, 7);
    assert!(req.sender_pay_fees);
    assert!(req.use_change);
    assert_eq!(req.height, 1_000);
    assert_eq!(req.expiration, 1_050);
    let rs = req.recipients.unwrap();
    assert_eq!(rs.len(), 2);
    let memos = serialize_contacts(&data);
    for (r, m) in rs.iter().zip(memos.iter()) {
        assert_eq!(r.address.as_deref(), Some("u1self"));
        assert_eq!(r.amount, MIN_AMOUNT);
        assert_eq!(r.pools, 7);
        assert_eq!(r.memo_bytes.as_ref().unwrap(), &memo_encode(m));
    }
}

#[test]
fn recipients_for_memos() {
    let memos = vec![MemoKind::Empty, MemoKind::Text("x".to_string())];
    let rs = contact_recipients(&"zs1a".to_string(), &memos);
    assert_eq!(rs.len(), 2);
    assert_eq!(rs[0].memo_bytes, Some(vec![0xF6]));
    assert_eq!(rs[1].memo_bytes, Some(b"x".to_vec()));
}
