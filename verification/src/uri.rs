//! Payment URIs (ZIP-321): a payment request written as a URI, and read
//! back.
use vstd::prelude::*;

use zcash_address::ZcashAddress;
use zcash_protocol::memo::MemoBytes;
use zcash_protocol::value::Zatoshis;
use zip321::{Payment, TransactionRequest};

use crate::address::{
    address_with, decode_address, decoded_address, filter_address, filtered, has_receiver_in,
};
use crate::chain::Network;
use crate::data::{opt_str_view, PaymentRequestT, RecipientT, UserMemoT};
use crate::memo::{memo_bytes, memo_from_bytes, memo_of_bytes, recipient_memo, MemoError, MemoKind, MemoView};
use crate::pay::MAX_MONEY;

verus! {

/// The ZIP-321 URI that requests the payments `payments` (address text,
/// amount, memo bytes where one goes with the payment), if they make a
/// valid request.
pub uninterp spec fn zip321_uri(payments: Seq<(Seq<char>, u64, Option<Seq<u8>>)>) -> Option<Seq<char>>;

/// The payments (address text, amount where one is given, memo bytes
/// without their zero padding where one is given) that the ZIP-321 URI
/// `uri` requests, in the order of their indexes, if it is one.
pub uninterp spec fn zip321_payments(uri: Seq<char>) -> Option<Seq<(Seq<char>, Option<u64>, Option<Seq<u8>>)>>;

/// The mathematical view of payments.
pub open spec fn payments_view(p: Seq<(String, u64, Option<Vec<u8>>)>) -> Seq<(Seq<char>, u64, Option<Seq<u8>>)> {
    p.map_values(|x: (String, u64, Option<Vec<u8>>)| (x.0@, x.1, crate::keys::key_view(x.2)))
}

/// The mathematical view of parsed payments.
pub open spec fn parsed_view(p: Option<Vec<(String, Option<u64>, Option<Vec<u8>>)>>) -> Option<Seq<(Seq<char>, Option<u64>, Option<Seq<u8>>)>> {
    match p {
        Some(v) => Some(v@.map_values(|x: (String, Option<u64>, Option<Vec<u8>>)| (x.0@, x.1, crate::keys::key_view(x.2)))),
        None => None,
    }
}

/// Writes a payment request as a URI.
///
/// Makes each payment with `zip321::Payment::new` from the address parsed
/// by `ZcashAddress::try_from_encoded`, the amount as `Zatoshis` and the
/// memo as `MemoBytes`, then calls `TransactionRequest::new` and `to_uri`.
/// The crate's source of `TransactionRequest::new` parses the URI of a
/// request of one payment or more back with `TransactionRequest::from_uri`
/// and fails where that fails, so such a URI can be read back.
#[verifier::external_body]
fn request_uri(payments: &Vec<(String, u64, Option<Vec<u8>>)>) -> (r: Option<String>)
    ensures
        opt_str_view(r) == zip321_uri(payments_view(payments@)),
        payments@.len() > 0 ==> (r matches Some(u) ==> zip321_payments(u@) is Some),
{
    let ps = payments.iter().map(|(a, v, m)| {
        let memo = match m {
            Some(m) => Some(MemoBytes::from_bytes(m).ok()?),
            None => None,
        };
        let a = ZcashAddress::try_from_encoded(a).ok()?;
        Payment::new(a, Some(Zatoshis::from_u64(*v).ok()?), memo, None, None, vec![]).ok()
    }).collect::<Option<Vec<_>>>()?;
    Some(TransactionRequest::new(ps).ok()?.to_uri())
}

/// Reads the payments of a URI.
///
/// Calls `TransactionRequest::from_uri`; its payments, in the order of
/// their indexes, come out as the text of their address, their amount and
/// their memo bytes without the zero padding (`MemoBytes::as_slice`).
#[verifier::external_body]
fn parse_request(uri: &str) -> (r: Option<Vec<(String, Option<u64>, Option<Vec<u8>>)>>)
    ensures
        parsed_view(r) == zip321_payments(uri@),
{
    let req = TransactionRequest::from_uri(uri).ok()?;
    Some(req.payments().values().map(|p| {
        (p.recipient_address().encode(), p.amount().map(u64::from), p.memo().map(|m| m.as_slice().to_vec()))
    }).collect())
}

/// Why a payment request has no URI, or a text is no payment URI.
#[derive(Clone, Copy, Debug, PartialEq, Eq, Structural)]
pub enum UriError {
    /// A recipient's memo is no valid memo.
    InvalidMemo(MemoError),
    /// A recipient's address does not decode.
    InvalidAddress,
    /// A recipient's address has no receiver in the pools it accepts.
    NoReceiver,
    /// An amount is over the total supply.
    InvalidAmount,
    /// The payments make no valid request, or the text is no payment URI.
    InvalidRequest,
}

/// The payment that a recipient becomes in a URI: its address with the
/// receivers of the pools it accepts, its amount, and its memo where that
/// address has a shielded receiver to take it.
pub open spec fn uri_payment(network: Network, r: RecipientT) -> Result<(Seq<char>, u64, Option<Seq<u8>>), UriError> {
    match recipient_memo(r) {
        Err(e) => Err(UriError::InvalidMemo(e)),
        Ok(m) => match decoded_address(network == Network::Main, r.address->0@) {
            None => Err(UriError::InvalidAddress),
            Some(a) => if !has_receiver_in(a, r.pools) {
                Err(UriError::NoReceiver)
            } else if r.amount > MAX_MONEY {
                Err(UriError::InvalidAmount)
            } else if memo_bytes(m).len() > 512 {
                Err(UriError::InvalidMemo(MemoError::TooLong(memo_bytes(m).len() as usize)))
            } else {
                let (t, s, o) = filtered(a, r.pools);
                Ok((address_with(network, t, s, o), r.amount, if s is Some || o is Some { Some(memo_bytes(m)) } else { None }))
            },
        },
    }
}

/// The payments of the recipients `rs`, or the first of their errors.
pub open spec fn uri_payments(network: Network, rs: Seq<RecipientT>) -> Result<Seq<(Seq<char>, u64, Option<Seq<u8>>)>, UriError>
    decreases rs.len(),
{
    if rs.len() == 0 {
        Ok(Seq::empty())
    } else {
        match uri_payments(network, rs.drop_last()) {
            Err(e) => Err(e),
            Ok(ps) => match uri_payment(network, rs.last()) {
                Err(e) => Err(e),
                Ok(p) => Ok(ps.push(p)),
            },
        }
    }
}

/// The URI of a payment request, or why it has none.
pub open spec fn payment_uri_spec(network: Network, rs: Seq<RecipientT>) -> Result<Seq<char>, UriError> {
    match uri_payments(network, rs) {
        Err(e) => Err(e),
        Ok(ps) => match zip321_uri(ps) {
            Some(u) => Ok(u),
            None => Err(UriError::InvalidRequest),
        },
    }
}

/// A recipient's payment in a URI keeps its amount, and carries its memo
/// exactly when the recipient's address, cut down to the pools the
/// recipient accepts, keeps a Sapling or an Orchard receiver to take it.
pub proof fn lemma_uri_payment_memo(network: Network, r: RecipientT)
    ensures
        uri_payment(network, r) matches Ok((addr, amount, memo)) ==> {
            let a = decoded_address(network == Network::Main, r.address->0@)->0;
            let rc = crate::address::receivers_of(a);
            &&& amount == r.amount
            &&& (memo is Some <==> ((r.pools & 2 != 0 && rc.1 is Some) || (r.pools & 4 != 0 && rc.2 is Some)))
            &&& (memo matches Some(b) ==> recipient_memo(r) matches Ok(m) && b == memo_bytes(m))
        },
{
}

/// Whether every recipient has an address.
pub open spec fn all_addressed(rs: Seq<RecipientT>) -> bool {
    forall|i: int| 0 <= i < rs.len() ==> (#[trigger] rs[i]).address is Some
}

/// The payment of one recipient in a URI (see `uri_payment`).
fn recipient_payment(network: Network, r: &RecipientT) -> (p: Result<(String, u64, Option<Vec<u8>>), UriError>)
    requires
        r.address is Some,
    ensures
        match p {
            Ok(x) => uri_payment(network, *r) == Ok::<(Seq<char>, u64, Option<Seq<u8>>), UriError>((x.0@, x.1, crate::keys::key_view(x.2))),
            Err(e) => uri_payment(network, *r) == Err::<(Seq<char>, u64, Option<Seq<u8>>), UriError>(e),
        },
{
    let n = match r.normalize_memo() {
        Ok(n) => n,
        Err(e) => {
            return Err(UriError::InvalidMemo(e));
        },
    };
    let text = match &r.address {
        Some(a) => a,
        None => {
            return Err(UriError::InvalidAddress);
        },
    };
    let address = match filter_address(network, text.as_str(), r.pools) {
        Ok(a) => a,
        Err(crate::address::AddressError::NoReceiver) => {
            return Err(UriError::NoReceiver);
        },
        Err(_) => {
            return Err(UriError::InvalidAddress);
        },
    };
    if r.amount > MAX_MONEY {
        return Err(UriError::InvalidAmount);
    }
    let bytes = match n.memo_bytes {
        Some(b) => b,
        None => Vec::new(),
    };
    if bytes.len() > 512 {
        return Err(UriError::InvalidMemo(MemoError::TooLong(bytes.len())));
    }
    let (t, s, o, _) = match crate::address::split_address(network, text.as_str()) {
        Ok(x) => x,
        Err(_) => {
            return Err(UriError::InvalidAddress);
        },
    };
    let shielded = (r.pools & 2 != 0 && s.is_some()) || (r.pools & 4 != 0 && o.is_some());
    Ok((address, r.amount, if shielded { Some(bytes) } else { None }))
}

/// Writes a payment request as a ZIP-321 URI: each recipient's address is
/// cut down to the pools it accepts and carries its memo where that address
/// can take one.
pub fn make_payment_uri(network: &Network, payment: &PaymentRequestT) -> (r: Result<String, UriError>)
    requires
        payment.recipients is Some,
        all_addressed(payment.recipients->0@),
    ensures
        match r {
            Ok(u) => payment_uri_spec(*network, payment.recipients->0@) == Ok::<Seq<char>, UriError>(u@),
            Err(e) => payment_uri_spec(*network, payment.recipients->0@) == Err::<Seq<char>, UriError>(e),
        },
        payment.recipients->0@.len() > 0 ==> (r matches Ok(u) ==> zip321_payments(u@) is Some),
{
    let rs = match &payment.recipients {
        Some(rs) => rs,
        None => {
            return Err(UriError::InvalidRequest);
        },
    };
    let mut ps: Vec<(String, u64, Option<Vec<u8>>)> = Vec::new();
    let mut i: usize = 0;
    proof {
        assert(rs@.take(0) =~= Seq::<RecipientT>::empty());
        assert(payments_view(ps@) =~= Seq::empty());
    }
    while i < rs.len()
        invariant
            i <= rs@.len(),
            ps@.len() == i,
            payment.recipients is Some && payment.recipients->0@ == rs@,
            all_addressed(rs@),
            uri_payments(*network, rs@.take(i as int)) == Ok::<Seq<(Seq<char>, u64, Option<Seq<u8>>)>, UriError>(payments_view(ps@)),
        decreases rs@.len() - i,
    {
        let ghost before = rs@.take(i as int);
        let ghost after = rs@.take(i + 1);
        proof {
            assert(after.drop_last() =~= before);
            assert(after.last() == rs@[i as int]);
            assert(rs@[i as int].address is Some);
        }
        match recipient_payment(*network, &rs[i]) {
            Ok(p) => {
                let ghost ps0 = ps@;
                ps.push(p);
                proof {
                    assert(payments_view(ps@) =~= payments_view(ps0).push((p.0@, p.1, crate::keys::key_view(p.2))));
                    assert(uri_payments(*network, after) == Ok::<Seq<(Seq<char>, u64, Option<Seq<u8>>)>, UriError>(
                        payments_view(ps0).push((p.0@, p.1, crate::keys::key_view(p.2)))));
                }
            },
            Err(e) => {
                proof {
                    assert(uri_payments(*network, after) == Err::<Seq<(Seq<char>, u64, Option<Seq<u8>>)>, UriError>(e));
                    lemma_first_error_stays(*network, rs@, (i + 1) as int, e);
                    assert(payment.recipients->0@ == rs@);
                    assert(payment_uri_spec(*network, rs@) == Err::<Seq<char>, UriError>(e));
                }
                return Err(e);
            },
        }
        i = i + 1;
    }
    proof {
        assert(rs@.take(rs@.len() as int) =~= rs@);
    }
    match request_uri(&ps) {
        Some(u) => Ok(u),
        None => Err(UriError::InvalidRequest),
    }
}

/// An error among the first `k` recipients is the error of all of them.
proof fn lemma_first_error_stays(network: Network, rs: Seq<RecipientT>, k: int, e: UriError)
    requires
        0 <= k <= rs.len(),
        uri_payments(network, rs.take(k)) == Err::<Seq<(Seq<char>, u64, Option<Seq<u8>>)>, UriError>(e),
    ensures
        uri_payments(network, rs) == Err::<Seq<(Seq<char>, u64, Option<Seq<u8>>)>, UriError>(e),
    decreases rs.len() - k,
{
    if k < rs.len() {
        assert(rs.take(k + 1).drop_last() =~= rs.take(k));
        lemma_first_error_stays(network, rs, k + 1, e);
    } else {
        assert(rs.take(k) =~= rs);
    }
}

/// The text of a memo where it is a text memo.
pub open spec fn memo_text_of(memo: Option<Seq<u8>>) -> Option<Seq<char>> {
    match memo {
        Some(b) => match memo_of_bytes(b) {
            Ok(MemoView::Text(t)) => Some(t),
            _ => None,
        },
        None => None,
    }
}

/// Whether `r` is the recipient of a payment read from a URI: its address,
/// its amount (0 where none is given), any pool, its memo bytes and, for a
/// text memo, a message whose body is the text.
pub open spec fn uri_recipient(p: (Seq<char>, Option<u64>, Option<Seq<u8>>), r: RecipientT) -> bool {
    &&& r.address matches Some(a) && a@ == p.0
    &&& r.amount == match p.1 {
        Some(v) => v,
        None => 0,
    }
    &&& r.pools == 7
    &&& crate::keys::key_view(r.memo_bytes) == p.2
    &&& match memo_text_of(p.2) {
        Some(t) => r.memo matches Some(m) && m.body@ == t && m.sender@.len() == 0 && m.recipient@.len() == 0
            && m.subject@.len() == 0 && !m.reply_to,
        None => r.memo is None,
    }
}

/// The recipient of a payment read from a URI.
fn recipient_of(p: (String, Option<u64>, Option<Vec<u8>>)) -> (r: RecipientT)
    ensures
        uri_recipient((p.0@, p.1, crate::keys::key_view(p.2)), r),
{
    let (address, amount, memo_bytes) = p;
    let memo = match &memo_bytes {
        Some(b) => match memo_from_bytes(b.as_slice()) {
            Ok(MemoKind::Text(t)) => Some(UserMemoT {
                reply_to: false,
                sender: String::new(),
                recipient: String::new(),
                subject: String::new(),
                body: t,
            }),
            _ => None,
        },
        None => None,
    };
    RecipientT {
        address: Some(address),
        amount: match amount {
            Some(v) => v,
            None => 0,
        },
        pools: 7,
        memo,
        memo_bytes,
    }
}

/// Reads a ZIP-321 payment URI into a payment request that any pool may
/// fund, the sender paying the fees, with change, for the given height and
/// expiration height.
pub fn parse_payment_uri(network: &Network, uri: &str, height: u32, expiration: u32) -> (r: Result<PaymentRequestT, UriError>)
    ensures
        match zip321_payments(uri@) {
            Some(ps) => r matches Ok(req) && {
                &&& req.recipients matches Some(rs) && rs@.len() == ps.len()
                    && forall|i: int| 0 <= i < ps.len() ==> uri_recipient(ps[i], #[trigger] rs@[i])
                &&& req.src_pools == 7
                &&& req.sender_pay_fees
                &&& req.use_change
                &&& req.height == height
                &&& req.expiration == expiration
            },
            None => r == Err::<PaymentRequestT, UriError>(UriError::InvalidRequest),
        },
{
    let ps = match parse_request(uri) {
        Some(ps) => ps,
        None => {
            return Err(UriError::InvalidRequest);
        },
    };
    let mut rs: Vec<RecipientT> = Vec::new();
    let mut i: usize = 0;
    while i < ps.len()
        invariant
            i <= ps@.len(),
            rs@.len() == i,
            parsed_view(Some(ps)) == zip321_payments(uri@),
            forall|k: int| 0 <= k < i ==> uri_recipient(
                (ps@[k].0@, ps@[k].1, crate::keys::key_view(ps@[k].2)),
                #[trigger] rs@[k],
            ),
        decreases ps@.len() - i,
    {
        let p = (ps[i].0.clone(), ps[i].1, ps[i].2.clone());
        rs.push(recipient_of(p));
        i = i + 1;
    }
    Ok(PaymentRequestT {
        recipients: Some(rs),
        src_pools: 7,
        sender_pay_fees: true,
        use_change: true,
        height,
        expiration,
    })
}

/// What a text is to the wallet: 1 for an address of the chain, 2 for a
/// payment URI, 0 for neither.
pub open spec fn address_or_uri_kind(network: Network, s: Seq<char>) -> u8 {
    if decoded_address(network == Network::Main, s) is Some {
        1
    } else if zip321_payments(s) is Some {
        2
    } else {
        0
    }
}

/// Tells an address of the chain (1) from a payment URI (2) and from
/// anything else (0).
pub fn is_valid_address_or_uri(network: &Network, s: &str) -> (r: u8)
    ensures
        r == address_or_uri_kind(*network, s@),
{
    if decode_address(*network, s).is_ok() {
        1
    } else if parse_payment_uri(network, s, 0, 0).is_ok() {
        2
    } else {
        0
    }
}

} // verus!
