//! Contacts shared through memos: the serialized contact list is cut into
//! chunks, each framed in the arbitrary-data memo of a small payment to the
//! account itself, and put back together from the memos it receives.
use vstd::prelude::*;
use std::marker::PhantomData;

use crate::data::{PaymentRequestT, RecipientT};
use crate::memo::{memo_bytes, memo_encode, memo_from_bytes, memo_of_bytes, memo_fits, MemoError, MemoKind, MemoView};

verus! {

/// A contact as it travels in memos.
#[derive(Clone, Debug)]
pub struct ContactV1 {
    pub id: u32,
    pub name: String,
    pub address: String,
}

/// Marks the memos that carry chunks of a contact list.
pub const CONTACT_COOKIE: u32 = 0x434E5440;

/// Bytes of serialized contacts in one memo.
pub const CHUNK_SIZE: usize = 500;

/// Size of the arbitrary data of a memo.
pub const BOX_SIZE: usize = 511;

/// Bytes before the data of a chunk: cookie, chunk index, data length.
pub const HEADER_SIZE: usize = 7;

/// Amount of each payment that carries a chunk.
pub const MIN_AMOUNT: u64 = 10_000;

/// Why a memo could not be read as a chunk.
#[derive(Clone, Copy, Debug)]
pub enum ChunkError {
    /// The memo bytes are no memo.
    Memo(MemoError),
    /// The chunk claims more data than its memo holds.
    BufferOverflow,
}

/// Number of chunks of a serialized list of `len` bytes.
pub open spec fn num_chunks(len: nat) -> nat {
    if len == 0 {
        0
    } else {
        ((len - 1) as nat / 500 + 1) as nat
    }
}

/// The `k`-th chunk of the serialized list.
pub open spec fn chunk_of(b: Seq<u8>, k: int) -> Seq<u8> {
    let end = if 500 * k + 500 <= b.len() { 500 * k + 500 } else { b.len() as int };
    b.subrange(500 * k, end)
}

/// The arbitrary data of the memo that carries chunk `k`: the cookie and
/// the chunk index (modulo 256) and the data length, big-endian, then the
/// data, padded with zeros.
pub open spec fn contact_box(b: Seq<u8>, k: int) -> Seq<u8> {
    let c = chunk_of(b, k);
    seq![0x43u8, 0x4Eu8, 0x54u8, 0x40u8, (k % 256) as u8, (c.len() / 256) as u8, (c.len() % 256) as u8]
        + c + Seq::new((504 - c.len()) as nat, |i: int| 0u8)
}

/// A big-endian `u32` from four bytes.
pub open spec fn be_u32(b: Seq<u8>) -> int {
    b[0] * 0x1000000 + b[1] * 0x10000 + b[2] * 0x100 + b[3]
}

/// A big-endian `u16` from two bytes.
pub open spec fn be_u16(b0: u8, b1: u8) -> int {
    b0 * 0x100 + b1
}

/// What the arbitrary data of a memo holds: nothing for another cookie,
/// else the chunk index and data, or an overflow when the length exceeds the
/// bytes left.
pub open spec fn decode_box_spec(cookie: u32, b: Seq<u8>) -> Result<Option<(u8, Seq<u8>)>, ChunkError> {
    if be_u32(b) != cookie {
        Ok(None)
    } else {
        let len = be_u16(b[5], b[6]);
        if len > b.len() - 7 {
            Err(ChunkError::BufferOverflow)
        } else {
            Ok(Some((b[4], b.subrange(7, 7 + len))))
        }
    }
}

/// The state of a decoder after it reads a memo: an arbitrary-data memo
/// with the right cookie puts its data at its chunk's index; any other memo
/// leaves it as it is.
pub open spec fn add_memo_spec(cookie: u32, st: (bool, Seq<Seq<u8>>), memo: Seq<u8>) -> Result<(bool, Seq<Seq<u8>>), ChunkError> {
    match memo_of_bytes(memo) {
        Err(e) => Err(ChunkError::Memo(e)),
        Ok(MemoView::Arbitrary(b)) => match decode_box_spec(cookie, b) {
            Err(e) => Err(e),
            Ok(None) => Ok(st),
            Ok(Some((n, d))) => Ok((true, st.1.update(n as int, d))),
        },
        Ok(_) => Ok(st),
    }
}

/// The state after reading the memos in turn, or the first error.
pub open spec fn add_all(cookie: u32, st: (bool, Seq<Seq<u8>>), memos: Seq<Seq<u8>>) -> Result<(bool, Seq<Seq<u8>>), ChunkError>
    decreases memos.len(),
{
    if memos.len() == 0 {
        Ok(st)
    } else {
        match add_all(cookie, st, memos.drop_last()) {
            Ok(s) => add_memo_spec(cookie, s, memos.last()),
            Err(e) => Err(e),
        }
    }
}

/// Whether reading the memo would put a chunk at an index that the decoder
/// does not have.
pub open spec fn chunk_index_fits(cookie: u32, st: (bool, Seq<Seq<u8>>), memo: Seq<u8>) -> bool {
    match memo_of_bytes(memo) {
        Ok(MemoView::Arbitrary(b)) => match decode_box_spec(cookie, b) {
            Ok(Some((n, d))) => n < st.1.len(),
            _ => true,
        },
        _ => true,
    }
}

/// The chunks put together.
pub open spec fn concat_all(s: Seq<Seq<u8>>) -> Seq<u8>
    decreases s.len(),
{
    if s.len() == 0 {
        Seq::empty()
    } else {
        concat_all(s.drop_last()) + s.last()
    }
}

/// What a decoder gives back: nothing before it read a chunk, else its
/// chunks put together.
pub open spec fn finalize_spec(st: (bool, Seq<Seq<u8>>)) -> Option<Seq<u8>> {
    if st.0 {
        Some(concat_all(st.1))
    } else {
        None
    }
}

/// The state of a decoder made for `n` chunks.
pub open spec fn initial_state(n: nat) -> (bool, Seq<Seq<u8>>) {
    (false, Seq::new(n, |i: int| Seq::<u8>::empty()))
}

/// Cuts the serialized contact list `cs_bin` into chunks of 500 bytes and
/// frames each in the arbitrary data of a memo.
pub fn serialize_contacts(cs_bin: &Vec<u8>) -> (r: Vec<MemoKind>)
    ensures
        r@.len() == num_chunks(cs_bin@.len()),
        forall|k: int| 0 <= k < r@.len() ==> (#[trigger] r@[k])@ == MemoView::Arbitrary(contact_box(cs_bin@, k)),
{
    let len = cs_bin.len();
    let mut memos: Vec<MemoKind> = Vec::new();
    let mut start: usize = 0;
    let mut k: usize = 0;
    while start < len
        invariant
            len == cs_bin@.len(),
            start <= len,
            start < len ==> start == 500 * k,
            start < len ==> k < num_chunks(len as nat),
            start >= len ==> k == num_chunks(len as nat),
            memos@.len() == k,
            forall|j: int| 0 <= j < k ==> (#[trigger] memos@[j])@ == MemoView::Arbitrary(contact_box(cs_bin@, j)),
        decreases len - start,
    {
        let end = if len - start >= CHUNK_SIZE { start + CHUNK_SIZE } else { len };
        let c_len = end - start;
        let mut bytes: Vec<u8> = Vec::new();
        bytes.push(0x43u8);
        bytes.push(0x4Eu8);
        bytes.push(0x54u8);
        bytes.push(0x40u8);
        bytes.push((k % 256) as u8);
        bytes.push((c_len / 256) as u8);
        bytes.push((c_len % 256) as u8);
        let ghost head = bytes@;
        let mut i: usize = start;
        while i < end
            invariant
                start <= i <= end,
                end <= cs_bin@.len(),
                head.len() == 7,
                bytes@ == head + cs_bin@.subrange(start as int, i as int),
            decreases end - i,
        {
            bytes.push(cs_bin[i]);
            proof {
                assert(cs_bin@.subrange(start as int, i + 1) =~= cs_bin@.subrange(start as int, i as int).push(cs_bin@[i as int]));
            }
            i = i + 1;
        }
        let ghost filled = bytes@;
        while bytes.len() < BOX_SIZE
            invariant
                filled.len() == 7 + c_len,
                filled.len() <= bytes@.len() <= 511,
                bytes@ == filled + Seq::new((bytes@.len() - filled.len()) as nat, |i: int| 0u8),
            decreases 511 - bytes@.len(),
        {
            let ghost before = bytes@;
            bytes.push(0u8);
            proof {
                assert(bytes@ =~= filled + Seq::new((bytes@.len() - filled.len()) as nat, |i: int| 0u8));
            }
        }
        proof {
            assert(chunk_of(cs_bin@, k as int) =~= cs_bin@.subrange(start as int, end as int));
            assert(bytes@ =~= contact_box(cs_bin@, k as int));
            if end < len {
                assert(k + 1 < num_chunks(len as nat)) by (nonlinear_arith)
                    requires
                        end == 500 * k + 500,
                        end < len,
                ;
            } else {
                assert(k + 1 == num_chunks(len as nat)) by (nonlinear_arith)
                    requires
                        500 * k < len,
                        len <= 500 * k + 500,
                ;
            }
        }
        memos.push(MemoKind::Arbitrary(bytes));
        start = end;
        k = k + 1;
    }
    proof {
        if len == 0 {
            assert(k == 0);
        }
    }
    memos
}

/// The payments that carry the memos to `address`: 10,000 zatoshis each,
/// any pool, the memo given as its encoded bytes.
pub fn contact_recipients(address: &String, memos: &Vec<MemoKind>) -> (r: Vec<RecipientT>)
    requires
        forall|k: int| 0 <= k < memos@.len() ==> memo_fits(#[trigger] memos@[k]@),
    ensures
        r@.len() == memos@.len(),
        forall|k: int| 0 <= k < r@.len() ==> {
            let t = #[trigger] r@[k];
            &&& t.address == Some(*address)
            &&& t.amount == MIN_AMOUNT
            &&& t.pools == 7
            &&& t.memo is None
            &&& t.memo_bytes matches Some(b) && b@ == memo_bytes(memos@[k]@)
        },
{
    let mut r: Vec<RecipientT> = Vec::new();
    let mut k: usize = 0;
    while k < memos.len()
        invariant
            k <= memos@.len(),
            r@.len() == k,
            forall|k: int| 0 <= k < memos@.len() ==> memo_fits(#[trigger] memos@[k]@),
            forall|j: int| 0 <= j < k ==> {
                let t = #[trigger] r@[j];
                &&& t.address == Some(*address)
                &&& t.amount == MIN_AMOUNT
                &&& t.pools == 7
                &&& t.memo is None
                &&& t.memo_bytes matches Some(b) && b@ == memo_bytes(memos@[j]@)
            },
        decreases memos@.len() - k,
    {
        let bytes = memo_encode(&memos[k]);
        r.push(RecipientT {
            address: Some(address.clone()),
            amount: MIN_AMOUNT,
            pools: 7,
            memo: None,
            memo_bytes: Some(bytes),
        });
        k = k + 1;
    }
    r
}

/// The payment request that saves the serialized contacts `cs_bin` on chain:
/// one payment to the account's own `address` per chunk, the sender paying
/// the fees, expiring 50 blocks after `height`.
pub fn contacts_payment_request(address: &String, cs_bin: &Vec<u8>, src_pools: u8, height: u32) -> (r: PaymentRequestT)
    requires
        height + 50 <= u32::MAX,
    ensures
        r.recipients matches Some(v) && v@.len() == num_chunks(cs_bin@.len()) && forall|k: int| 0 <= k < v@.len() ==> {
            let t = #[trigger] v@[k];
            &&& t.address == Some(*address)
            &&& t.amount == MIN_AMOUNT
            &&& t.pools == 7
            &&& t.memo is None
            &&& t.memo_bytes matches Some(b) && b@ == memo_bytes(MemoView::Arbitrary(contact_box(cs_bin@, k)))
        },
        r.src_pools == src_pools,
        r.sender_pay_fees,
        r.use_change,
        r.height == height,
        r.expiration == height + 50,
{
    let memos = serialize_contacts(cs_bin);
    proof {
        assert forall|k: int| 0 <= k < memos@.len() implies memo_fits(#[trigger] memos@[k]@) by {
            lemma_contact_box_len(cs_bin@, k);
        }
    }
    let recipients = contact_recipients(address, &memos);
    PaymentRequestT {
        recipients: Some(recipients),
        src_pools,
        sender_pay_fees: true,
        use_change: true,
        height,
        expiration: height + crate::EXPIRATION_HEIGHT_DELTA,
    }
}

/// A chunk holds at most 500 bytes and its memo data 511.
pub proof fn lemma_contact_box_len(b: Seq<u8>, k: int)
    requires
        0 <= k < num_chunks(b.len()),
    ensures
        chunk_of(b, k).len() <= 500,
        contact_box(b, k).len() == 511,
{
    assert(500 * k < b.len()) by (nonlinear_arith)
        requires
            0 <= k,
            k < (b.len() - 1) / 500 + 1,
            b.len() > 0,
    ;
}

/// A kind of data that travels in chunked memos.
pub trait ChunkedMemoData {
    /// The cookie that marks its memos.
    spec fn spec_cookie() -> u32;

    fn cookie() -> (r: u32)
        ensures
            r == Self::spec_cookie(),
    ;
}

/// Contact lists.
pub struct ChunkedContactV1;

impl ChunkedMemoData for ChunkedContactV1 {
    open spec fn spec_cookie() -> u32 {
        CONTACT_COOKIE
    }

    fn cookie() -> (r: u32) {
        CONTACT_COOKIE
    }
}

/// Puts chunked data back together from the memos that carry it.
pub struct ChunkedMemoDecoder<T: ChunkedMemoData> {
    has_data: bool,
    chunks: Vec<Vec<u8>>,
    _phantom: PhantomData<T>,
}

impl<T: ChunkedMemoData> View for ChunkedMemoDecoder<T> {
    type V = (bool, Seq<Seq<u8>>);

    closed spec fn view(&self) -> (bool, Seq<Seq<u8>>) {
        (self.has_data, self.chunks@.map_values(|c: Vec<u8>| c@))
    }
}

impl<T: ChunkedMemoData> ChunkedMemoDecoder<T> {
    /// A decoder for `n` chunks, none read yet.
    pub fn new(n: usize) -> (r: Self)
        ensures
            r@ == initial_state(n as nat),
    {
        let mut chunks: Vec<Vec<u8>> = Vec::new();
        let mut i: usize = 0;
        while i < n
            invariant
                i <= n,
                chunks@.len() == i,
                forall|j: int| 0 <= j < i ==> (#[trigger] chunks@[j])@ == Seq::<u8>::empty(),
            decreases n - i,
        {
            chunks.push(Vec::new());
            i = i + 1;
        }
        proof {
            assert(chunks@.map_values(|c: Vec<u8>| c@) =~= Seq::new(n as nat, |j: int| Seq::<u8>::empty()));
        }
        let r = ChunkedMemoDecoder { has_data: false, chunks, _phantom: PhantomData };
        proof {
            assert(r@.1 =~= initial_state(n as nat).1);
        }
        r
    }

    /// Reads a memo given by its bytes; an arbitrary-data memo that carries
    /// a chunk of this kind of data fills that chunk.
    pub fn add_memo(&mut self, memo: &[u8]) -> (r: Result<(), ChunkError>)
        requires
            chunk_index_fits(T::spec_cookie(), old(self)@, memo@),
        ensures
            match r {
                Ok(()) => add_memo_spec(T::spec_cookie(), old(self)@, memo@) == Ok::<(bool, Seq<Seq<u8>>), ChunkError>(final(self)@),
                Err(e) => {
                    &&& add_memo_spec(T::spec_cookie(), old(self)@, memo@) == Err::<(bool, Seq<Seq<u8>>), ChunkError>(e)
                    &&& final(self)@ == old(self)@
                },
            },
    {
        let m = match memo_from_bytes(memo) {
            Ok(m) => m,
            Err(e) => {
                return Err(ChunkError::Memo(e));
            },
        };
        if let MemoKind::Arbitrary(bytes) = m {
            proof {
                crate::memo::lemma_decoded_memo_fits(memo@);
            }
            match Self::decode_box(&bytes) {
                Err(e) => {
                    return Err(e);
                },
                Ok(None) => {},
                Ok(Some((n, data))) => {
                    self.has_data = true;
                    let ghost old_chunks = self.chunks@;
                    self.chunks.set(n as usize, data);
                    proof {
                        assert(self@.1 =~= old(self)@.1.update(n as int, data@));
                    }
                },
            }
        }
        Ok(())
    }

    /// The chunks put together, or nothing when no chunk was read.
    pub fn finalize(&self) -> (r: Option<Vec<u8>>)
        ensures
            match r {
                Some(v) => finalize_spec(self@) == Some(v@),
                None => finalize_spec(self@) is None,
            },
    {
        if !self.has_data {
            return None;
        }
        let mut data: Vec<u8> = Vec::new();
        let ghost cs = self.chunks@.map_values(|c: Vec<u8>| c@);
        let mut i: usize = 0;
        while i < self.chunks.len()
            invariant
                i <= self.chunks@.len(),
                cs == self.chunks@.map_values(|c: Vec<u8>| c@),
                data@ == concat_all(cs.take(i as int)),
            decreases self.chunks@.len() - i,
        {
            let c = &self.chunks[i];
            let ghost before = data@;
            let mut j: usize = 0;
            while j < c.len()
                invariant
                    j <= c@.len(),
                    data@ == before + c@.take(j as int),
                decreases c@.len() - j,
            {
                data.push(c[j]);
                proof {
                    assert(c@.take(j + 1) =~= c@.take(j as int).push(c@[j as int]));
                }
                j = j + 1;
            }
            proof {
                assert(c@.take(c@.len() as int) =~= c@);
                assert(cs.take(i + 1).drop_last() =~= cs.take(i as int));
                assert(cs.take(i + 1).last() == c@);
            }
            i = i + 1;
        }
        proof {
            assert(cs.take(self.chunks@.len() as int) =~= cs);
        }
        Some(data)
    }

    /// Reads the frame of a chunk from the arbitrary data of a memo.
    fn decode_box(bb: &Vec<u8>) -> (r: Result<Option<(u8, Vec<u8>)>, ChunkError>)
        requires
            bb@.len() == 511,
        ensures
            match r {
                Ok(Some((n, d))) => decode_box_spec(T::spec_cookie(), bb@) == Ok::<Option<(u8, Seq<u8>)>, ChunkError>(Some((n, d@))),
                Ok(None) => decode_box_spec(T::spec_cookie(), bb@) == Ok::<Option<(u8, Seq<u8>)>, ChunkError>(None),
                Err(e) => decode_box_spec(T::spec_cookie(), bb@) == Err::<Option<(u8, Seq<u8>)>, ChunkError>(e),
            },
    {
        let magic: u64 = (bb[0] as u64) * 0x1000000 + (bb[1] as u64) * 0x10000 + (bb[2] as u64) * 0x100 + (bb[3] as u64);
        if magic != T::cookie() as u64 {
            return Ok(None);
        }
        let n = bb[4];
        let len: usize = (bb[5] as usize) * 0x100 + (bb[6] as usize);
        if len > bb.len() - 7 {
            return Err(ChunkError::BufferOverflow);
        }
        let mut data: Vec<u8> = Vec::new();
        let end = 7 + len;
        let mut i: usize = 7;
        while i < end
            invariant
                end == 7 + len,
                7 <= i <= end,
                end <= bb@.len(),
                data@ == bb@.subrange(7, i as int),
            decreases end - i,
        {
            data.push(bb[i]);
            proof {
                assert(bb@.subrange(7, i + 1) =~= bb@.subrange(7, i as int).push(bb@[i as int]));
            }
            i = i + 1;
        }
        Ok(Some((n, data)))
    }
}


/// Trimming the trailing zeros and padding back to the same length gives
/// the bytes back.
pub proof fn lemma_trim_restore(x: Seq<u8>)
    ensures
        crate::memo::trim_zeros(x).len() <= x.len(),
        crate::memo::trim_zeros(x) + Seq::new((x.len() - crate::memo::trim_zeros(x).len()) as nat, |i: int| 0u8) == x,
    decreases x.len(),
{
    let t = crate::memo::trim_zeros(x);
    if x.len() == 0 {
        assert(t + Seq::new(0, |i: int| 0u8) =~= x);
    } else if x.last() == 0 {
        lemma_trim_restore(x.drop_last());
        let z = Seq::new((x.len() - t.len()) as nat, |i: int| 0u8);
        let z1 = Seq::new((x.drop_last().len() - t.len()) as nat, |i: int| 0u8);
        assert(t + z =~= (t + z1).push(0u8));
        assert(x =~= x.drop_last().push(0u8));
    } else {
        assert(t + Seq::new(0, |i: int| 0u8) =~= x);
    }
}

/// An arbitrary-data memo of 511 bytes reads back from its encoding.
pub proof fn lemma_arbitrary_round_trip(d: Seq<u8>)
    requires
        d.len() == 511,
    ensures
        memo_of_bytes(memo_bytes(MemoView::Arbitrary(d))) == Ok::<MemoView, MemoError>(MemoView::Arbitrary(d)),
{
    let x = seq![0xFFu8] + d;
    let t = crate::memo::trim_zeros(x);
    lemma_trim_restore(x);
    assert(crate::memo::memo_field(MemoView::Arbitrary(d)) == x);
    assert(crate::memo::pad_memo(t) =~= x);
    if t.len() == 0 {
        assert(x[0] == (t + Seq::new((x.len() - t.len()) as nat, |i: int| 0u8))[0]);
    }
    assert(x.subrange(1, 512) =~= d);
}

/// The memo of chunk `k` reads back as that chunk, at index `k`.
pub proof fn lemma_decode_contact_box(b: Seq<u8>, k: int)
    requires
        0 <= k < num_chunks(b.len()),
        k < 256,
    ensures
        decode_box_spec(CONTACT_COOKIE, contact_box(b, k)) == Ok::<Option<(u8, Seq<u8>)>, ChunkError>(Some((k as u8, chunk_of(b, k)))),
{
    lemma_contact_box_len(b, k);
    let c = chunk_of(b, k);
    let x = contact_box(b, k);
    assert(be_u32(x) == 0x434E5440);
    assert(be_u16(x[5], x[6]) == c.len());
    assert(x.subrange(7, 7 + c.len() as int) =~= c);
}

/// The chunks before `k` put together are the start of the list.
pub proof fn lemma_concat_chunks(b: Seq<u8>, k: int)
    requires
        0 <= k <= num_chunks(b.len()),
    ensures
        concat_all(Seq::new(k as nat, |j: int| chunk_of(b, j))) == b.subrange(0, if 500 * k <= b.len() { 500 * k } else { b.len() as int }),
    decreases k,
{
    let s = Seq::new(k as nat, |j: int| chunk_of(b, j));
    if k == 0 {
        assert(b.subrange(0, 0) =~= Seq::<u8>::empty());
    } else {
        lemma_concat_chunks(b, k - 1);
        lemma_contact_box_len(b, k - 1);
        assert(s.drop_last() =~= Seq::new((k - 1) as nat, |j: int| chunk_of(b, j)));
        assert(500 * (k - 1) < b.len()) by (nonlinear_arith)
            requires
                1 <= k,
                k <= (b.len() - 1) / 500 + 1,
                b.len() > 0,
        ;
        let end = if 500 * k <= b.len() { 500 * k } else { b.len() as int };
        assert(b.subrange(0, 500 * (k - 1)) + b.subrange(500 * (k - 1), end) =~= b.subrange(0, end));
    }
}

/// The state of a decoder made for `n` chunks after it read the memos of
/// the first `k` chunks.
pub proof fn lemma_add_first_chunks(b: Seq<u8>, k: int)
    requires
        0 < b.len() <= 256 * 500,
        0 <= k <= num_chunks(b.len()),
    ensures
        add_all(
            CONTACT_COOKIE,
            initial_state(num_chunks(b.len())),
            Seq::new(num_chunks(b.len()), |j: int| memo_bytes(MemoView::Arbitrary(contact_box(b, j)))).take(k),
        ) == Ok::<(bool, Seq<Seq<u8>>), ChunkError>((
            k > 0,
            Seq::new(num_chunks(b.len()), |j: int| if j < k { chunk_of(b, j) } else { Seq::<u8>::empty() }),
        )),
    decreases k,
{
    let n = num_chunks(b.len());
    let memos = Seq::new(n, |j: int| memo_bytes(MemoView::Arbitrary(contact_box(b, j))));
    assert(n <= 256) by (nonlinear_arith)
        requires
            n == (b.len() - 1) / 500 + 1,
            b.len() <= 256 * 500,
            b.len() > 0,
    ;
    if k == 0 {
        assert(memos.take(0) =~= Seq::<Seq<u8>>::empty());
        assert(initial_state(n).1 =~= Seq::new(n, |j: int| if j < 0 { chunk_of(b, j) } else { Seq::<u8>::empty() }));
    } else {
        lemma_add_first_chunks(b, k - 1);
        assert(memos.take(k).drop_last() =~= memos.take(k - 1));
        assert(memos.take(k).last() == memo_bytes(MemoView::Arbitrary(contact_box(b, k - 1))));
        lemma_contact_box_len(b, k - 1);
        lemma_arbitrary_round_trip(contact_box(b, k - 1));
        lemma_decode_contact_box(b, k - 1);
        let before = Seq::new(n, |j: int| if j < k - 1 { chunk_of(b, j) } else { Seq::<u8>::empty() });
        let after = Seq::new(n, |j: int| if j < k { chunk_of(b, j) } else { Seq::<u8>::empty() });
        assert(((k - 1) as u8) as int == k - 1);
        assert(before.update(k - 1, chunk_of(b, k - 1)) =~= after);
    }
}

/// Memos made from a serialized contact list, read in order by a decoder
/// made for as many chunks, give the list back (for lists of up to 256
/// chunks, the most that the one-byte chunk index tells apart).
pub proof fn lemma_contacts_round_trip(b: Seq<u8>)
    requires
        0 < b.len() <= 256 * 500,
    ensures
        add_all(
            CONTACT_COOKIE,
            initial_state(num_chunks(b.len())),
            Seq::new(num_chunks(b.len()), |j: int| memo_bytes(MemoView::Arbitrary(contact_box(b, j)))),
        ) matches Ok(st) && finalize_spec(st) == Some(b),
{
    let n = num_chunks(b.len());
    let memos = Seq::new(n, |j: int| memo_bytes(MemoView::Arbitrary(contact_box(b, j))));
    lemma_add_first_chunks(b, n as int);
    assert(memos.take(n as int) =~= memos);
    lemma_concat_chunks(b, n as int);
    assert(Seq::new(n, |j: int| if j < n { chunk_of(b, j) } else { Seq::<u8>::empty() }) =~= Seq::new(n, |j: int| chunk_of(b, j)));
    assert(500 * n >= b.len()) by (nonlinear_arith)
        requires
            n == (b.len() - 1) / 500 + 1,
            b.len() > 0,
    ;
    assert(b.subrange(0, b.len() as int) =~= b);
}


/// Whether `m` is the memo of chunk `j` of the contact list `b`.
pub open spec fn is_chunk_memo(b: Seq<u8>, m: Seq<u8>, j: int) -> bool {
    0 <= j < num_chunks(b.len()) && m == memo_bytes(MemoView::Arbitrary(contact_box(b, j)))
}

/// Whether a memo is one the contact decoder passes over: a valid memo
/// that is not arbitrary data behind the contact cookie.
pub open spec fn other_memo(m: Seq<u8>) -> bool {
    memo_of_bytes(m) matches Ok(v) && (v matches MemoView::Arbitrary(d) ==> be_u32(d) != CONTACT_COOKIE)
}

/// Whether the memo of chunk `j` of `b` is among `ms`.
pub open spec fn chunk_read(b: Seq<u8>, ms: Seq<Seq<u8>>, j: int) -> bool {
    exists|i: int| 0 <= i < ms.len() && is_chunk_memo(b, #[trigger] ms[i], j)
}

/// The chunks of a decoder made for `d` chunks once the memos `ms` are
/// read: the chunks of `b` whose memo is among them, nothing for the
/// others.
pub open spec fn seen_chunks(b: Seq<u8>, ms: Seq<Seq<u8>>, d: nat) -> Seq<Seq<u8>> {
    Seq::new(d, |j: int|
        if exists|i: int| 0 <= i < ms.len() && is_chunk_memo(b, #[trigger] ms[i], j) { chunk_of(b, j) } else { Seq::<u8>::empty() })
}

/// The memo of chunk `j` reads back as its arbitrary data, which the
/// decoder takes as chunk `j`.
pub proof fn lemma_chunk_memo_reads(b: Seq<u8>, j: int)
    requires
        0 < b.len() <= 256 * 500,
        0 <= j < num_chunks(b.len()),
    ensures
        memo_of_bytes(memo_bytes(MemoView::Arbitrary(contact_box(b, j)))) == Ok::<MemoView, MemoError>(MemoView::Arbitrary(contact_box(b, j))),
        decode_box_spec(CONTACT_COOKIE, contact_box(b, j)) == Ok::<Option<(u8, Seq<u8>)>, ChunkError>(Some((j as u8, chunk_of(b, j)))),
        (j as u8) as int == j,
        !other_memo(memo_bytes(MemoView::Arbitrary(contact_box(b, j)))),
{
    let n = num_chunks(b.len());
    assert(n <= 256) by (nonlinear_arith)
        requires
            n == (b.len() - 1) / 500 + 1,
            b.len() <= 256 * 500,
            b.len() > 0,
    ;
    lemma_contact_box_len(b, j);
    lemma_arbitrary_round_trip(contact_box(b, j));
    lemma_decode_contact_box(b, j);
}

/// A memo is the memo of one chunk at most.
pub proof fn lemma_chunk_memo_unique(b: Seq<u8>, m: Seq<u8>, j: int, k: int)
    requires
        0 < b.len() <= 256 * 500,
        is_chunk_memo(b, m, j),
        is_chunk_memo(b, m, k),
    ensures
        j == k,
{
    lemma_chunk_memo_reads(b, j);
    lemma_chunk_memo_reads(b, k);
    assert(contact_box(b, j) == contact_box(b, k));
    assert(contact_box(b, j)[4] == contact_box(b, k)[4]);
}

/// Reading chunk memos of `b` and memos the decoder passes over, in any
/// order and with repeats, collects the chunks whose memo was read.
#[verifier::rlimit(40)]
pub proof fn lemma_chunks_any_order(b: Seq<u8>, ms: Seq<Seq<u8>>, d: nat)
    requires
        0 < b.len() <= 256 * 500,
        num_chunks(b.len()) <= d,
        forall|i: int| 0 <= i < ms.len() ==> other_memo(#[trigger] ms[i]) || exists|j: int| is_chunk_memo(b, ms[i], j),
    ensures
        add_all(CONTACT_COOKIE, initial_state(d), ms) == Ok::<(bool, Seq<Seq<u8>>), ChunkError>((
            exists|i: int| 0 <= i < ms.len() && !other_memo(#[trigger] ms[i]),
            seen_chunks(b, ms, d),
        )),
    decreases ms.len(),
{
    let n = num_chunks(b.len());
    assert(n <= 256) by (nonlinear_arith)
        requires
            n == (b.len() - 1) / 500 + 1,
            b.len() <= 256 * 500,
            b.len() > 0,
    ;
    if ms.len() == 0 {
        assert(initial_state(d).1 =~= seen_chunks(b, ms, d));
    } else {
        let prev = ms.drop_last();
        assert forall|i: int| 0 <= i < prev.len() implies other_memo(#[trigger] prev[i]) || exists|j: int| is_chunk_memo(b, prev[i], j) by {
            assert(prev[i] == ms[i]);
        }
        lemma_chunks_any_order(b, prev, d);
        let m = ms.last();
        assert(m == ms[ms.len() - 1]);
        if other_memo(m) {
            assert(add_memo_spec(CONTACT_COOKIE, (exists|i: int| 0 <= i < prev.len() && !other_memo(#[trigger] prev[i]), seen_chunks(b, prev, d)), m)
                == Ok::<(bool, Seq<Seq<u8>>), ChunkError>((exists|i: int| 0 <= i < prev.len() && !other_memo(#[trigger] prev[i]), seen_chunks(b, prev, d))));
            assert forall|j: int| 0 <= j < d implies #[trigger] seen_chunks(b, prev, d)[j] == seen_chunks(b, ms, d)[j] by {
                if exists|i: int| 0 <= i < ms.len() && is_chunk_memo(b, #[trigger] ms[i], j) {
                    let i = choose|i: int| 0 <= i < ms.len() && is_chunk_memo(b, #[trigger] ms[i], j);
                    if i == ms.len() - 1 {
                        lemma_chunk_memo_reads(b, j);
                        assert(false);
                    }
                    assert(prev[i] == ms[i]);
                }
                if exists|i: int| 0 <= i < prev.len() && is_chunk_memo(b, #[trigger] prev[i], j) {
                    let i = choose|i: int| 0 <= i < prev.len() && is_chunk_memo(b, #[trigger] prev[i], j);
                    assert(prev[i] == ms[i]);
                }
            }
            assert(seen_chunks(b, prev, d) =~= seen_chunks(b, ms, d));
            assert((exists|i: int| 0 <= i < prev.len() && !other_memo(#[trigger] prev[i]))
                == (exists|i: int| 0 <= i < ms.len() && !other_memo(#[trigger] ms[i]))) by {
                if exists|i: int| 0 <= i < ms.len() && !other_memo(#[trigger] ms[i]) {
                    let i = choose|i: int| 0 <= i < ms.len() && !other_memo(#[trigger] ms[i]);
                    assert(prev[i] == ms[i]);
                }
                if exists|i: int| 0 <= i < prev.len() && !other_memo(#[trigger] prev[i]) {
                    let i = choose|i: int| 0 <= i < prev.len() && !other_memo(#[trigger] prev[i]);
                    assert(prev[i] == ms[i]);
                }
            }
        } else {
            let k = choose|j: int| is_chunk_memo(b, m, j);
            lemma_chunk_memo_reads(b, k);
            assert forall|j: int| 0 <= j < d implies #[trigger] seen_chunks(b, prev, d).update(k, chunk_of(b, k))[j] == seen_chunks(b, ms, d)[j] by {
                if j == k {
                    assert(is_chunk_memo(b, ms[ms.len() - 1], j));
                } else {
                    if exists|i: int| 0 <= i < ms.len() && is_chunk_memo(b, #[trigger] ms[i], j) {
                        let i = choose|i: int| 0 <= i < ms.len() && is_chunk_memo(b, #[trigger] ms[i], j);
                        if i == ms.len() - 1 {
                            lemma_chunk_memo_unique(b, m, j, k);
                        }
                        assert(prev[i] == ms[i]);
                    }
                    if exists|i: int| 0 <= i < prev.len() && is_chunk_memo(b, #[trigger] prev[i], j) {
                        let i = choose|i: int| 0 <= i < prev.len() && is_chunk_memo(b, #[trigger] prev[i], j);
                        assert(prev[i] == ms[i]);
                    }
                }
            }
            assert(seen_chunks(b, prev, d).update(k, chunk_of(b, k)) =~= seen_chunks(b, ms, d));
            assert(!other_memo(ms[ms.len() - 1]));
        }
    }
}

/// Chunks that are empty past the first `n` add nothing.
pub proof fn lemma_concat_empty_tail(s: Seq<Seq<u8>>, n: int)
    requires
        0 <= n <= s.len(),
        forall|j: int| n <= j < s.len() ==> (#[trigger] s[j]).len() == 0,
    ensures
        concat_all(s) == concat_all(s.take(n)),
    decreases s.len(),
{
    if s.len() > n {
        let p = s.drop_last();
        assert forall|j: int| n <= j < p.len() implies (#[trigger] p[j]).len() == 0 by {
            assert(p[j] == s[j]);
        }
        lemma_concat_empty_tail(p, n);
        assert(s.last().len() == 0);
        assert(concat_all(p) + s.last() =~= concat_all(p));
        assert(p.take(n) =~= s.take(n));
    } else {
        assert(s.take(n) =~= s);
    }
}

/// The contact list comes back from its chunk memos read in any order,
/// with repeats and among memos the decoder passes over, as long as every
/// chunk's memo is among them, by a decoder made for at least as many
/// chunks.
pub proof fn lemma_contacts_any_order(b: Seq<u8>, ms: Seq<Seq<u8>>, d: nat)
    requires
        0 < b.len() <= 256 * 500,
        num_chunks(b.len()) <= d,
        forall|i: int| 0 <= i < ms.len() ==> other_memo(#[trigger] ms[i]) || exists|j: int| is_chunk_memo(b, ms[i], j),
        forall|j: int| 0 <= j < num_chunks(b.len()) ==> #[trigger] chunk_read(b, ms, j),
    ensures
        add_all(CONTACT_COOKIE, initial_state(d), ms) matches Ok(st) && finalize_spec(st) == Some(b),
{
    let n = num_chunks(b.len());
    lemma_chunks_any_order(b, ms, d);
    let seen = seen_chunks(b, ms, d);
    assert forall|j: int| 0 <= j < n implies #[trigger] seen[j] == chunk_of(b, j) by {
        assert(chunk_read(b, ms, j));
    }
    assert forall|j: int| n <= j < seen.len() implies (#[trigger] seen[j]).len() == 0 by {
        if exists|i: int| 0 <= i < ms.len() && is_chunk_memo(b, #[trigger] ms[i], j) {
            let i = choose|i: int| 0 <= i < ms.len() && is_chunk_memo(b, #[trigger] ms[i], j);
            assert(false);
        }
    }
    lemma_concat_empty_tail(seen, n as int);
    assert(seen.take(n as int) =~= Seq::new(n, |j: int| chunk_of(b, j)));
    assert(chunk_read(b, ms, 0));
    let i0 = choose|i: int| 0 <= i < ms.len() && is_chunk_memo(b, #[trigger] ms[i], 0);
    lemma_chunk_memo_reads(b, 0);
    assert(!other_memo(ms[i0]));
    lemma_concat_chunks(b, n as int);
    assert(500 * n >= b.len()) by (nonlinear_arith)
        requires
            n == (b.len() - 1) / 500 + 1,
            b.len() > 0,
    ;
    assert(b.subrange(0, b.len() as int) =~= b);
}

} // verus!
