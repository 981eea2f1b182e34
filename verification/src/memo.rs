//! Memos (ZIP-302) and the messages that the wallet writes into them.
use vstd::prelude::*;
use vstd::utf8::*;

use crate::data::{PaymentRequestT, RecipientT, ShieldedMessageT, UserMemoT};
use zcash_protocol::memo::{Error as ZMemoError, Memo as ZMemo};

verus! {

/// A decoded memo.
#[derive(Clone, Debug)]
pub enum MemoKind {
    Empty,
    Text(String),
    Future(Vec<u8>),
    Arbitrary(Vec<u8>),
}

/// The contents of a memo.
pub enum MemoView {
    Empty,
    Text(Seq<char>),
    Future(Seq<u8>),
    Arbitrary(Seq<u8>),
}

impl View for MemoKind {
    type V = MemoView;

    open spec fn view(&self) -> MemoView {
        match self {
            MemoKind::Empty => MemoView::Empty,
            MemoKind::Text(s) => MemoView::Text(s@),
            MemoKind::Future(b) => MemoView::Future(b@),
            MemoKind::Arbitrary(b) => MemoView::Arbitrary(b@),
        }
    }
}

/// Why bytes or text are no memo.
#[derive(Clone, Copy, Debug, PartialEq, Eq, Structural)]
pub enum MemoError {
    InvalidUtf8,
    TooLong(usize),
}

/// Size of a memo field.
pub const MEMO_SIZE: usize = 512;

/// The bytes padded with zeros to a full memo field.
pub open spec fn pad_memo(b: Seq<u8>) -> Seq<u8> {
    b + Seq::new((512 - b.len()) as nat, |i: int| 0u8)
}

/// The bytes without their trailing zeros.
pub open spec fn trim_zeros(b: Seq<u8>) -> Seq<u8>
    decreases b.len(),
{
    if b.len() == 0 {
        b
    } else if b.last() == 0 {
        trim_zeros(b.drop_last())
    } else {
        b
    }
}

/// Whether all bytes after the first are zero.
pub open spec fn tail_is_zero(b: Seq<u8>) -> bool {
    forall|i: int| 1 <= i < b.len() ==> b[i] == 0
}

/// The memo that a memo field of at most 512 bytes holds (ZIP-302): 0xF6
/// followed by zeros is empty, 0xFF starts arbitrary data, a first byte up to
/// 0xF4 starts UTF-8 text (trailing zeros dropped), anything else is
/// reserved for future use.
pub open spec fn memo_of_bytes(b: Seq<u8>) -> Result<MemoView, MemoError> {
    if b.len() > 512 {
        Err(MemoError::TooLong(b.len() as usize))
    } else {
        let p = pad_memo(b);
        if p[0] == 0xF6 && tail_is_zero(p) {
            Ok(MemoView::Empty)
        } else if p[0] == 0xFF {
            Ok(MemoView::Arbitrary(p.subrange(1, 512)))
        } else if p[0] <= 0xF4 {
            let t = trim_zeros(p);
            if valid_utf8(t) {
                Ok(MemoView::Text(decode_utf8(t)))
            } else {
                Err(MemoError::InvalidUtf8)
            }
        } else {
            Ok(MemoView::Future(p))
        }
    }
}

/// The memo of a text: none for the empty text, the text itself when its
/// UTF-8 encoding fits in 512 bytes.
pub open spec fn memo_of_text(s: Seq<char>) -> Result<MemoView, MemoError> {
    if s.len() == 0 {
        Ok(MemoView::Empty)
    } else if encode_utf8(s).len() <= 512 {
        Ok(MemoView::Text(s))
    } else {
        Err(MemoError::TooLong(encode_utf8(s).len() as usize))
    }
}

/// The full 512-byte field that encodes a memo.
pub open spec fn memo_field(m: MemoView) -> Seq<u8> {
    match m {
        MemoView::Empty => pad_memo(seq![0xF6u8]),
        MemoView::Text(s) => pad_memo(encode_utf8(s)),
        MemoView::Future(b) => b,
        MemoView::Arbitrary(b) => seq![0xFFu8] + b,
    }
}

/// The encoding of a memo without its trailing zeros.
pub open spec fn memo_bytes(m: MemoView) -> Seq<u8> {
    trim_zeros(memo_field(m))
}

/// Whether a decoded memo can be encoded in one field.
pub open spec fn memo_fits(m: MemoView) -> bool {
    match m {
        MemoView::Empty => true,
        MemoView::Text(s) => encode_utf8(s).len() <= 512,
        MemoView::Future(b) => b.len() == 512,
        MemoView::Arbitrary(b) => b.len() == 511,
    }
}

/// Decodes the memo held by a memo field given without its padding.
///
/// Calls `zcash_protocol::memo::Memo::from_bytes`, which pads the bytes to
/// 512 and classifies them as `memo_of_bytes` states (ZIP-302); UTF-8
/// validity and decoding are those of `str::from_utf8`.
#[verifier::external_body]
pub(crate) fn memo_from_bytes(bytes: &[u8]) -> (r: Result<MemoKind, MemoError>)
    ensures
        match r {
            Ok(m) => memo_of_bytes(bytes@) == Ok::<MemoView, MemoError>(m@),
            Err(e) => memo_of_bytes(bytes@) == Err::<MemoView, MemoError>(e),
        },
{
    match ZMemo::from_bytes(bytes) {
        Ok(ZMemo::Empty) => Ok(MemoKind::Empty),
        Ok(ZMemo::Text(t)) => Ok(MemoKind::Text(String::from(t))),
        Ok(ZMemo::Future(b)) => Ok(MemoKind::Future(b.as_array().to_vec())),
        Ok(ZMemo::Arbitrary(a)) => Ok(MemoKind::Arbitrary(a.to_vec())),
        Err(ZMemoError::InvalidUtf8(_)) => Err(MemoError::InvalidUtf8),
        Err(ZMemoError::TooLong(n)) => Err(MemoError::TooLong(n)),
    }
}

/// Makes a text memo.
///
/// Calls `<zcash_protocol::memo::Memo as FromStr>::from_str`, which gives
/// the empty memo for the empty text, a text memo when the text's UTF-8
/// encoding has at most 512 bytes, and `TooLong` with that length otherwise.
#[verifier::external_body]
fn memo_from_text(text: &str) -> (r: Result<MemoKind, MemoError>)
    ensures
        match r {
            Ok(m) => memo_of_text(text@) == Ok::<MemoView, MemoError>(m@),
            Err(e) => memo_of_text(text@) == Err::<MemoView, MemoError>(e),
        },
{
    match <ZMemo as std::str::FromStr>::from_str(text) {
        Ok(ZMemo::Empty) => Ok(MemoKind::Empty),
        Ok(ZMemo::Text(t)) => Ok(MemoKind::Text(String::from(t))),
        Ok(ZMemo::Future(b)) => Ok(MemoKind::Future(b.as_array().to_vec())),
        Ok(ZMemo::Arbitrary(a)) => Ok(MemoKind::Arbitrary(a.to_vec())),
        Err(ZMemoError::InvalidUtf8(_)) => Err(MemoError::InvalidUtf8),
        Err(ZMemoError::TooLong(n)) => Err(MemoError::TooLong(n)),
    }
}


/// Padding with zeros does not change the trimmed bytes.
pub proof fn lemma_trim_pad(u: Seq<u8>, n: nat)
    ensures
        trim_zeros(u + Seq::new(n, |i: int| 0u8)) == trim_zeros(u),
    decreases n,
{
    let z = Seq::new(n, |i: int| 0u8);
    if n > 0 {
        let z1 = Seq::new((n - 1) as nat, |i: int| 0u8);
        assert((u + z).drop_last() =~= u + z1);
        lemma_trim_pad(u, (n - 1) as nat);
    } else {
        assert(u + z =~= u);
    }
}

/// Drops the trailing zeros of `v`.
fn drop_trailing_zeros(v: &mut Vec<u8>)
    ensures
        final(v)@ == trim_zeros(old(v)@),
{
    let mut n = v.len();
    proof {
        assert(v@.take(n as int) =~= v@);
    }
    while n > 0 && v[n - 1] == 0
        invariant
            n <= v.len(),
            v@ == old(v)@,
            trim_zeros(v@) == trim_zeros(v@.take(n as int)),
        decreases n,
    {
        proof {
            assert(v@.take(n as int).drop_last() =~= v@.take(n - 1));
        }
        n = n - 1;
    }
    proof {
        if n > 0 {
            assert(v@.take(n as int).last() != 0);
        }
    }
    v.truncate(n);
    proof {
        assert(v@ =~= old(v)@.take(n as int));
    }
}

/// Copies bytes into a new vector.
fn bytes_to_vec(b: &[u8]) -> (r: Vec<u8>)
    ensures
        r@ == b@,
{
    let mut r: Vec<u8> = Vec::new();
    let mut i: usize = 0;
    while i < b.len()
        invariant
            i <= b.len(),
            r@ == b@.take(i as int),
        decreases b.len() - i,
    {
        r.push(b[i]);
        proof {
            assert(b@.take(i + 1) =~= b@.take(i as int).push(b@[i as int]));
        }
        i = i + 1;
    }
    proof {
        assert(b@.take(b.len() as int) =~= b@);
    }
    r
}

/// The encoding of a memo, without trailing zeros (what the memo field
/// shows once its padding is dropped).
pub fn memo_encode(m: &MemoKind) -> (r: Vec<u8>)
    requires
        memo_fits(m@),
    ensures
        r@ == memo_bytes(m@),
{
    let mut v: Vec<u8> = match m {
        MemoKind::Empty => {
            let mut v: Vec<u8> = Vec::new();
            v.push(0xF6u8);
            v
        },
        MemoKind::Text(s) => bytes_to_vec(s.as_str().as_bytes()),
        MemoKind::Future(b) => bytes_to_vec(b.as_slice()),
        MemoKind::Arbitrary(b) => {
            let mut v: Vec<u8> = Vec::new();
            v.push(0xFFu8);
            let t = bytes_to_vec(b.as_slice());
            let mut i: usize = 0;
            while i < t.len()
                invariant
                    i <= t.len(),
                    t@ == b@,
                    v@ == seq![0xFFu8] + t@.take(i as int),
                decreases t.len() - i,
            {
                v.push(t[i]);
                proof {
                    assert(t@.take(i + 1) =~= t@.take(i as int).push(t@[i as int]));
                }
                i = i + 1;
            }
            proof {
                assert(t@.take(t.len() as int) =~= t@);
            }
            v
        },
    };
    proof {
        let u = v@;
        lemma_trim_pad(u, (512 - u.len()) as nat);
        match m@ {
            MemoView::Future(b) => {
                assert(pad_memo(b) =~= b);
            },
            MemoView::Arbitrary(b) => {
                assert(pad_memo(seq![0xFFu8] + b) =~= seq![0xFFu8] + b);
            },
            _ => {},
        }
        assert(trim_zeros(memo_field(m@)) == trim_zeros(u));
    }
    drop_trailing_zeros(&mut v);
    v
}

/// The first line of a message memo.
pub open spec fn message_header() -> Seq<char> {
    "\u{1F6E1}MSG"@
}

/// The text that a message memo carries: a header, the sender (only when a
/// reply is requested), the subject and the body on separate lines; or the
/// body alone when there is no subject and no reply is requested.
pub open spec fn memo_text(m: UserMemoT) -> Seq<char> {
    let sender = if m.reply_to { m.sender@ } else { Seq::<char>::empty() };
    if m.subject@.len() != 0 || m.reply_to {
        message_header() + seq!['\n'] + sender + seq!['\n'] + m.subject@ + seq!['\n'] + m.body@
    } else {
        m.body@
    }
}

impl UserMemoT {
    /// The memo that carries this message.
    pub fn to_memo(&self) -> (r: Result<MemoKind, MemoError>)
        ensures
            match r {
                Ok(k) => memo_of_text(memo_text(*self)) == Ok::<MemoView, MemoError>(k@),
                Err(e) => memo_of_text(memo_text(*self)) == Err::<MemoView, MemoError>(e),
            },
    {
        let text: String = if !self.subject.as_str().is_empty() || self.reply_to {
            let mut t = String::from_str("\u{1F6E1}MSG\n");
            proof {
                reveal_strlit("\u{1F6E1}MSG\n");
                reveal_strlit("\u{1F6E1}MSG");
                reveal_strlit("\n");
                assert("\u{1F6E1}MSG\n"@ =~= message_header() + seq!['\n']);
            }
            if self.reply_to {
                t.append(self.sender.as_str());
            }
            t.append("\n");
            t.append(self.subject.as_str());
            t.append("\n");
            t.append(self.body.as_str());
            proof {
                assert("\n"@ =~= seq!['\n']);
            }
            t
        } else {
            self.body.clone()
        };
        memo_from_text(text.as_str())
    }
}


/// The memo that a recipient asks for: its message when it has one, else its
/// raw memo bytes, else the empty memo; a message or bytes that are no memo
/// make it fail (the message is checked first).
pub open spec fn recipient_memo(r: RecipientT) -> Result<MemoView, MemoError> {
    let from_msg = match r.memo {
        Some(m) => Some(memo_of_text(memo_text(m))),
        None => None,
    };
    let from_bytes = match r.memo_bytes {
        Some(b) => Some(memo_of_bytes(b@)),
        None => None,
    };
    match (from_msg, from_bytes) {
        (Some(Err(e)), _) => Err(e),
        (_, Some(Err(e))) => Err(e),
        (Some(Ok(m)), _) => Ok(m),
        (_, Some(Ok(m))) => Ok(m),
        _ => Ok(MemoView::Empty),
    }
}

/// Decoded memos fit in a memo field.
pub proof fn lemma_decoded_memo_fits(b: Seq<u8>)
    ensures
        memo_of_bytes(b) matches Ok(m) ==> memo_fits(m),
{
    if b.len() <= 512 {
        let p = pad_memo(b);
        let t = trim_zeros(p);
        lemma_trim_len(p);
        if valid_utf8(t) {
            decode_utf8_encode_utf8(t);
        }
    }
}

/// Trimming never lengthens.
pub proof fn lemma_trim_len(b: Seq<u8>)
    ensures
        trim_zeros(b).len() <= b.len(),
    decreases b.len(),
{
    if b.len() > 0 && b.last() == 0 {
        lemma_trim_len(b.drop_last());
    }
}

/// A copy of an optional string.
fn copy_opt_string(s: &Option<String>) -> (r: Option<String>)
    ensures
        r == *s,
{
    match s {
        Some(t) => Some(t.clone()),
        None => None,
    }
}

impl RecipientT {
    /// The same recipient with its memo given as encoded bytes only.
    pub fn normalize_memo(&self) -> (r: Result<RecipientT, MemoError>)
        ensures
            match r {
                Ok(n) => {
                    &&& recipient_memo(*self) matches Ok(m)
                    &&& n.memo_bytes matches Some(b) && b@ == memo_bytes(m)
                    &&& n.address == self.address
                    &&& n.amount == self.amount
                    &&& n.pools == self.pools
                    &&& n.memo is None
                },
                Err(e) => recipient_memo(*self) == Err::<MemoView, MemoError>(e),
            },
    {
        let from_msg = match &self.memo {
            Some(m) => Some(m.to_memo()),
            None => None,
        };
        let from_bytes = match &self.memo_bytes {
            Some(b) => Some(memo_from_bytes(b.as_slice())),
            None => None,
        };
        proof {
            if self.memo_bytes is Some {
                lemma_decoded_memo_fits(self.memo_bytes->0@);
            }
        }
        let memo = match from_msg {
            Some(Err(e)) => {
                return Err(e);
            },
            Some(Ok(m)) => Some(m),
            None => None,
        };
        let memo2 = match from_bytes {
            Some(Err(e)) => {
                return Err(e);
            },
            Some(Ok(m)) => Some(m),
            None => None,
        };
        let memo = match memo {
            Some(m) => m,
            None => match memo2 {
                Some(m) => m,
                None => MemoKind::Empty,
            },
        };
        let bytes = memo_encode(&memo);
        Ok(RecipientT {
            address: copy_opt_string(&self.address),
            amount: self.amount,
            pools: self.pools,
            memo: None,
            memo_bytes: Some(bytes),
        })
    }
}


/// Index of the first `c` in `s`, or -1.
pub open spec fn first_index_of(s: Seq<char>, c: char) -> int
    decreases s.len(),
{
    if s.len() == 0 {
        -1
    } else if s[0] == c {
        0
    } else {
        let k = first_index_of(s.drop_first(), c);
        if k < 0 {
            -1
        } else {
            k + 1
        }
    }
}

/// The pieces of `s` between the separators `sep`, at most `n` of them:
/// the last piece holds the rest of `s`.
pub open spec fn splitn_spec(s: Seq<char>, n: nat, sep: char) -> Seq<Seq<char>>
    decreases n,
{
    if n == 0 {
        Seq::empty()
    } else if n == 1 {
        seq![s]
    } else {
        let k = first_index_of(s, sep);
        if k < 0 {
            seq![s]
        } else {
            seq![s.take(k)] + splitn_spec(s.skip(k + 1), (n - 1) as nat, sep)
        }
    }
}

/// Splits `text` at its first three line breaks.
///
/// Calls `str::splitn` with 4 and `'\n'`, which yields the text between
/// separators, at most four pieces, the last one holding the rest of the
/// text; the pieces are copied into strings.
#[verifier::external_body]
fn split_lines(text: &str) -> (r: Vec<String>)
    ensures
        r@.len() == splitn_spec(text@, 4, '\n').len(),
        forall|i: int| 0 <= i < r@.len() ==> (#[trigger] r@[i])@ == splitn_spec(text@, 4, '\n')[i],
{
    text.splitn(4, '\n').map(|l| l.to_string()).collect()
}

/// The sender, subject and body that a memo text carries: a text of four
/// lines or more whose first line is the message header gives the sender
/// (the given one where the line is empty), the subject and the rest as
/// body; any other text is a body alone.
pub open spec fn message_of_text(sender: Option<Seq<char>>, text: Seq<char>) -> (Seq<char>, Seq<char>, Seq<char>) {
    let lines = splitn_spec(text, 4, '\n');
    if lines.len() == 4 && lines[0] == message_header() {
        let s = if lines[1].len() == 0 {
            match sender {
                Some(s) => s,
                None => Seq::<char>::empty(),
            }
        } else {
            lines[1]
        };
        (s, lines[2], lines[3])
    } else {
        (Seq::<char>::empty(), Seq::<char>::empty(), text)
    }
}

impl UserMemoT {
    /// Reads a message from the text of a memo received from `sender` by
    /// `recipient`.
    pub fn from_text(sender: Option<&str>, recipient: &str, text: &str) -> (r: UserMemoT)
        ensures
            (r.sender@, r.subject@, r.body@) == message_of_text(
                match sender {
                    Some(s) => Some(s@),
                    None => None,
                },
                text@,
            ),
            r.recipient@ == recipient@,
            !r.reply_to,
    {
        let lines = split_lines(text);
        let header = String::from_str("\u{1F6E1}MSG");
        proof {
            reveal_strlit("\u{1F6E1}MSG");
            assert(header@ =~= message_header());
        }
        if lines.len() == 4 && lines[0] == header {
            let s: String = if lines[1].as_str().is_empty() {
                match sender {
                    Some(s) => String::from_str(s),
                    None => String::new(),
                }
            } else {
                lines[1].clone()
            };
            UserMemoT {
                sender: s,
                recipient: String::from_str(recipient),
                subject: lines[2].clone(),
                body: lines[3].clone(),
                reply_to: false,
            }
        } else {
            UserMemoT {
                sender: String::new(),
                recipient: String::from_str(recipient),
                subject: String::new(),
                body: String::from_str(text),
                reply_to: false,
            }
        }
    }
}

/// Where `a` holds no `c`, the first `c` of `a`, `c`, `r` is the one after
/// `a`.
pub proof fn lemma_first_index_after(a: Seq<char>, c: char, r: Seq<char>)
    requires
        !a.contains(c),
    ensures
        first_index_of(a + seq![c] + r, c) == a.len(),
    decreases a.len(),
{
    let s = a + seq![c] + r;
    if a.len() > 0 {
        assert(a[0] != c) by {
            if a[0] == c {
                assert(a.contains(c));
            }
        }
        assert(!a.drop_first().contains(c)) by {
            if a.drop_first().contains(c) {
                let i = choose|i: int| 0 <= i < a.drop_first().len() && a.drop_first()[i] == c;
                assert(a[i + 1] == c);
            }
        }
        lemma_first_index_after(a.drop_first(), c, r);
        assert(s.drop_first() =~= a.drop_first() + seq![c] + r);
    }
}

/// Splitting after a first piece without separator.
pub proof fn lemma_splitn_step(a: Seq<char>, r: Seq<char>, n: nat)
    requires
        n >= 2,
        !a.contains('\n'),
    ensures
        splitn_spec(a + seq!['\n'] + r, n, '\n') == seq![a] + splitn_spec(r, (n - 1) as nat, '\n'),
{
    let s = a + seq!['\n'] + r;
    lemma_first_index_after(a, '\n', r);
    assert(s.take(a.len() as int) =~= a);
    assert(s.skip(a.len() as int + 1) =~= r);
}

/// A message written into a memo text reads back from it: the subject and
/// the body come back, and the sender too where a reply was asked for
/// (else the sender given to the reader), provided the sender and the
/// subject hold no line break and the message has a subject or asks for a
/// reply (else its text is the body alone).
pub proof fn lemma_message_round_trip(m: UserMemoT, sender: Option<Seq<char>>)
    requires
        m.subject@.len() != 0 || m.reply_to,
        !m.subject@.contains('\n'),
        m.reply_to ==> !m.sender@.contains('\n'),
    ensures
        message_of_text(sender, memo_text(m)) == (
            if m.reply_to && m.sender@.len() != 0 {
                m.sender@
            } else {
                match sender {
                    Some(s) => s,
                    None => Seq::<char>::empty(),
                }
            },
            m.subject@,
            m.body@,
        ),
{
    let h = message_header();
    reveal_strlit("\u{1F6E1}MSG");
    assert(!h.contains('\n')) by {
        if h.contains('\n') {
            let i = choose|i: int| 0 <= i < h.len() && h[i] == '\n';
            assert(h[i] != '\n');
        }
    }
    let snd = if m.reply_to { m.sender@ } else { Seq::<char>::empty() };
    assert(!snd.contains('\n')) by {
        if !m.reply_to && snd.contains('\n') {
            let i = choose|i: int| 0 <= i < snd.len() && snd[i] == '\n';
        }
    }
    let t = memo_text(m);
    let r3 = m.subject@ + seq!['\n'] + m.body@;
    let r2 = snd + seq!['\n'] + r3;
    assert(t =~= h + seq!['\n'] + r2);
    lemma_splitn_step(h, r2, 4);
    lemma_splitn_step(snd, r3, 3);
    assert(splitn_spec(m.body@, 1, '\n') == seq![m.body@]);
    lemma_splitn_step(m.subject@, m.body@, 2);
    assert(splitn_spec(t, 4, '\n') =~= seq![h, snd, m.subject@, m.body@]);
}


/// A copy of a transaction id.
fn hash_to_vec(h: &crate::witness::Hash) -> (r: Vec<u8>)
    ensures
        r@ == h@,
{
    let mut r: Vec<u8> = Vec::new();
    let mut i: usize = 0;
    while i < 32
        invariant
            i <= 32,
            r@ == h@.take(i as int),
        decreases 32 - i,
    {
        r.push(h[i]);
        proof {
            assert(h@.take(i + 1) =~= h@.take(i as int).push(h@[i as int]));
        }
        i = i + 1;
    }
    proof {
        assert(h@.take(32) =~= h@);
    }
    r
}

/// The message that the memo text `memo` of output `nout` of a
/// transaction carries, not yet read and not yet linked to a contact.
pub fn parse_memo_text(
    account: u32,
    id_tx: u32,
    txid: &crate::witness::Hash,
    nout: u32,
    height: u32,
    timestamp: u32,
    incoming: bool,
    sender: Option<String>,
    recipient: String,
    memo: &str,
) -> (r: ShieldedMessageT)
    ensures
        r.id_msg == 0,
        r.account == account,
        r.id_tx == id_tx,
        r.txid matches Some(t) && t@ == txid@,
        r.nout == nout,
        r.height == height,
        r.timestamp == timestamp,
        r.incoming == incoming,
        r.contact is None,
        !r.read,
        r.memo matches Some(m) && {
            &&& (m.sender@, m.subject@, m.body@) == message_of_text(crate::data::opt_str_view(sender), memo@)
            &&& m.recipient@ == recipient@
            &&& !m.reply_to
        },
{
    let m = match &sender {
        Some(s) => UserMemoT::from_text(Some(s.as_str()), recipient.as_str(), memo),
        None => UserMemoT::from_text(None, recipient.as_str(), memo),
    };
    ShieldedMessageT {
        id_msg: 0,
        account,
        id_tx,
        txid: Some(hash_to_vec(txid)),
        nout,
        height,
        timestamp,
        incoming,
        memo: Some(m),
        contact: None,
        read: false,
    }
}

/// Whether `n` is `r` with its memo given as encoded bytes only.
pub open spec fn normalized(r: RecipientT, n: RecipientT) -> bool {
    &&& recipient_memo(r) matches Ok(m)
    &&& n.memo_bytes matches Some(b) && b@ == memo_bytes(m)
    &&& n.address == r.address
    &&& n.amount == r.amount
    &&& n.pools == r.pools
    &&& n.memo is None
}

/// The payment request to plan at the checkpoint `cp_height`: every
/// recipient's memo given as encoded bytes; the first recipient whose memo
/// is no memo makes it fail.
pub fn prepare_payment_request(payment: &PaymentRequestT, cp_height: u32) -> (r: Result<PaymentRequestT, MemoError>)
    requires
        payment.recipients is Some,
    ensures
        ({
            let rs = payment.recipients->0@;
            match r {
                Ok(p) => {
                    &&& p.recipients matches Some(v) && v@.len() == rs.len()
                        && forall|i: int| 0 <= i < rs.len() ==> normalized(rs[i], #[trigger] v@[i])
                    &&& p.src_pools == payment.src_pools
                    &&& p.sender_pay_fees == payment.sender_pay_fees
                    &&& p.use_change == payment.use_change
                    &&& p.height == cp_height
                    &&& p.expiration == payment.expiration
                },
                Err(e) => exists|i: int| 0 <= i < rs.len() && recipient_memo(#[trigger] rs[i]) == Err::<MemoView, MemoError>(e)
                    && forall|j: int| 0 <= j < i ==> recipient_memo(#[trigger] rs[j]) is Ok,
            }
        }),
{
    let rs = match &payment.recipients {
        Some(v) => v,
        None => {
            return Err(MemoError::InvalidUtf8);
        },
    };
    let mut out: Vec<RecipientT> = Vec::new();
    let mut i: usize = 0;
    while i < rs.len()
        invariant
            i <= rs@.len(),
            payment.recipients is Some && payment.recipients->0@ == rs@,
            out@.len() == i,
            forall|k: int| 0 <= k < i ==> normalized(rs@[k], #[trigger] out@[k]),
        decreases rs@.len() - i,
    {
        match rs[i].normalize_memo() {
            Ok(n) => {
                out.push(n);
            },
            Err(e) => {
                proof {
                    assert forall|j: int| 0 <= j < i implies recipient_memo(#[trigger] rs@[j]) is Ok by {
                        assert(normalized(rs@[j], out@[j]));
                    }
                    assert(recipient_memo(rs@[i as int]) == Err::<MemoView, MemoError>(e));
                    assert(rs@ == payment.recipients->0@);
                    let ii = i as int;
                    assert(0 <= ii < rs@.len() && recipient_memo(rs@[ii]) == Err::<MemoView, MemoError>(e)
                        && forall|j: int| 0 <= j < ii ==> recipient_memo(#[trigger] rs@[j]) is Ok);
                }
                return Err(e);
            },
        }
        i = i + 1;
    }
    Ok(PaymentRequestT {
        recipients: Some(out),
        src_pools: payment.src_pools,
        sender_pay_fees: payment.sender_pay_fees,
        use_change: payment.use_change,
        height: cp_height,
        expiration: payment.expiration,
    })
}

/// The encoding of a text with one more char ends with that char's
/// encoding.
proof fn lemma_encode_push(a: Seq<char>, c: char)
    ensures
        encode_utf8(a.push(c)) == encode_utf8(a) + encode_scalar(c as u32),
    decreases a.len(),
{
    if a.len() == 0 {
        assert(a.push(c).drop_first() =~= Seq::<char>::empty());
        assert(a.push(c)[0] == c);
        assert(encode_utf8(Seq::<char>::empty()) =~= Seq::<u8>::empty());
        assert(encode_utf8(a.push(c)) =~= encode_scalar(c as u32));
    } else {
        lemma_encode_push(a.drop_first(), c);
        assert(a.push(c).drop_first() =~= a.drop_first().push(c));
        assert(encode_utf8(a.push(c)) =~= encode_utf8(a) + encode_scalar(c as u32));
    }
}

/// The first byte of a char's encoding is at most 0xF4, and its last byte
/// is 0 only for the char 0.
proof fn lemma_scalar_bytes(c: u32)
    requires
        is_scalar(c),
    ensures
        encode_scalar(c).len() >= 1,
        encode_scalar(c)[0] <= 0xF4,
        c != 0 ==> encode_scalar(c).last() != 0,
{
    if has_width_1_encoding(c) {
        assert(c <= 0x7F ==> (c & 0x7F) as u8 <= 0x7F && (c != 0 ==> (c & 0x7F) as u8 != 0)) by (bit_vector);
    } else if has_width_2_encoding(c) {
        assert(0xC0 | ((c >> 6) & 0x1F) as u8 <= 0xDF && 0x80 | (c & 0x3F) as u8 != 0) by (bit_vector);
    } else if has_width_3_encoding(c) {
        assert(0xE0 | ((c >> 12) & 0x0F) as u8 <= 0xEF && 0x80 | (c & 0x3F) as u8 != 0) by (bit_vector);
    } else {
        assert(c <= 0x10FFFF ==> 0xF0 | ((c >> 18) & 0x7) as u8 <= 0xF4 && 0x80 | (c & 0x3F) as u8 != 0) by (bit_vector);
    }
}

/// A non-empty text memo that fits in a memo field and does not end with
/// the char 0 reads back from its encoding as the same text.
pub proof fn lemma_text_memo_round_trip(s: Seq<char>)
    requires
        s.len() > 0,
        encode_utf8(s).len() <= 512,
        s.last() as u32 != 0,
    ensures
        memo_of_bytes(memo_bytes(MemoView::Text(s))) == Ok::<MemoView, MemoError>(MemoView::Text(s)),
{
    let e = encode_utf8(s);
    vstd::utf8::char_is_scalar(s[0]);
    vstd::utf8::char_is_scalar(s.last());
    lemma_scalar_bytes(s[0] as u32);
    lemma_scalar_bytes(s.last() as u32);
    assert(e == encode_scalar(s[0] as u32) + encode_utf8(s.drop_first()));
    assert(e[0] == encode_scalar(s[0] as u32)[0]);
    lemma_encode_push(s.drop_last(), s.last());
    assert(s.drop_last().push(s.last()) =~= s);
    assert(e.last() == encode_scalar(s.last() as u32).last());
    assert(trim_zeros(e) == e);
    lemma_trim_pad(e, (512 - e.len()) as nat);
    assert(memo_bytes(MemoView::Text(s)) == e);
    let p = pad_memo(e);
    assert(p[0] == e[0]);
    lemma_trim_pad(e, (512 - e.len()) as nat);
    vstd::utf8::encode_utf8_valid_utf8(s);
    vstd::utf8::encode_utf8_decode_utf8(s);
}


/// A message memo reads back as the message: where `to_memo` gives the
/// text `t` of a message with a subject (no line break in its sender and
/// subject), `from_text` with no known sender gives back its sender (where
/// it asks for a reply), subject and body.
pub proof fn lemma_memo_round_trip(m: UserMemoT, t: Seq<char>)
    requires
        m.subject@.len() != 0,
        !m.subject@.contains('\n'),
        !m.sender@.contains('\n'),
        memo_of_text(memo_text(m)) == Ok::<MemoView, MemoError>(MemoView::Text(t)),
    ensures
        message_of_text(None, t) == (if m.reply_to { m.sender@ } else { Seq::<char>::empty() }, m.subject@, m.body@),
{
    assert(memo_text(m).len() != 0);
    assert(t == memo_text(m));
    lemma_message_round_trip(m, None);
}

} // verus!
