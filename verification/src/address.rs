//! Decoded addresses: their receivers, the address with the receivers of
//! some pools, the address of a single receiver, and TEX addresses.
use vstd::prelude::*;

use bech32::{Bech32m, Hrp};
use orchard::Address as OrchardAddress;
use sapling_crypto::PaymentAddress;
use zcash_keys::address::Address as ZAddress;
use zcash_protocol::consensus::MainNetwork;
use zcash_transparent::address::TransparentAddress as ZTransparentAddress;

use crate::chain::{regtest, Network};
use crate::data::UAReceiversT;
use crate::encoding::{
    encode_p2pkh, encode_p2sh, encode_sapling, encode_unified, orchard_address_text, p2pkh_address_text, p2sh_address_text,
    receiver_item, sapling_address_text, ua_of_orchard, unified_address_text, Receiver,
};
use crate::types::{mask_to_pool, is_single_pool, PoolMask};

verus! {

/// A transparent receiver: a public key hash or a script hash.
#[derive(Clone, Copy, Debug)]
pub enum TransparentAddress {
    PublicKeyHash([u8; 20]),
    ScriptHash([u8; 20]),
}

/// The receivers of a unified address.
#[derive(Clone, Copy, Debug)]
pub struct UnifiedReceivers {
    pub transparent: Option<TransparentAddress>,
    pub sapling: Option<[u8; 43]>,
    pub orchard: Option<[u8; 43]>,
}

/// A decoded address.
#[derive(Clone, Copy, Debug)]
pub enum RecipientAddress {
    Transparent(TransparentAddress),
    Sapling([u8; 43]),
    Unified(UnifiedReceivers),
    /// A transparent public key hash that may only receive from
    /// transparent inputs (ZIP-320).
    Tex([u8; 20]),
}

/// Why an address cannot be handled as asked.
#[derive(Clone, Copy, Debug, PartialEq, Eq, Structural)]
pub enum AddressError {
    /// The address does not decode.
    InvalidAddress,
    /// The pools asked for are not a single one.
    NotSinglePool,
    /// The transparent address pays to a script, not to a key.
    NotPublicKeyHash,
    /// The text is not a TEX address.
    NotTex,
    /// No receiver is left.
    NoReceiver,
}

/// The receivers of an address, and whether it is a TEX address.
pub open spec fn receivers_of(a: RecipientAddress) -> (Option<TransparentAddress>, Option<[u8; 43]>, Option<[u8; 43]>, bool) {
    match a {
        RecipientAddress::Unified(u) => (u.transparent, u.sapling, u.orchard, false),
        RecipientAddress::Sapling(s) => (None, Some(s), None, false),
        RecipientAddress::Transparent(t) => (Some(t), None, None, false),
        RecipientAddress::Tex(pkh) => (Some(TransparentAddress::PublicKeyHash(pkh)), None, None, true),
    }
}

/// The receivers of an address, and whether it is a TEX address.
pub fn address_receivers(address: &RecipientAddress) -> (r: (Option<TransparentAddress>, Option<[u8; 43]>, Option<[u8; 43]>, bool))
    ensures
        r == receivers_of(*address),
{
    match address {
        RecipientAddress::Unified(u) => (u.transparent, u.sapling, u.orchard, false),
        RecipientAddress::Sapling(s) => (None, Some(*s), None, false),
        RecipientAddress::Transparent(t) => (Some(*t), None, None, false),
        RecipientAddress::Tex(pkh) => (Some(TransparentAddress::PublicKeyHash(*pkh)), None, None, true),
    }
}

/// The text of the transparent address of the key hash `h` on the chain.
pub open spec fn pkh_text(network: Network, h: [u8; 20]) -> Seq<char> {
    p2pkh_address_text(network == Network::Main, h@)
}

/// The text of the transparent address of the script hash `h` on the chain.
pub open spec fn sh_text(network: Network, h: [u8; 20]) -> Seq<char> {
    crate::encoding::p2sh_address_text(network == Network::Main, h@)
}

/// The text of the Sapling address with the bytes `s` on the chain.
pub open spec fn sapling_text(network: Network, s: [u8; 43]) -> Seq<char> {
    crate::encoding::sapling_address_text(network == Network::Main, s@)
}

/// The text of the unified address whose only receiver is the Orchard
/// receiver `o`, on the chain.
pub open spec fn orchard_text(network: Network, o: [u8; 43]) -> Seq<char> {
    crate::encoding::orchard_address_text(network == Network::Main, o@)
}

/// The address that the text `text` decodes to on the main chain (or on
/// the local test chain), if it is one.
pub uninterp spec fn decoded_address(mainnet: bool, text: Seq<char>) -> Option<RecipientAddress>;

/// Decodes an address.
///
/// Calls `zcash_keys::address::Address::decode` with the chain's
/// parameters, which parses the text as a transparent, Sapling, unified or
/// TEX address of that chain and gives `None` for anything else (a
/// shielded receiver that is not a valid point among them); the receivers
/// are then copied out as bytes. What comes back depends on the chain and
/// the text alone. The source of `zcash_address` shows that the text that
/// `ZcashAddress::encode` gives for a key hash on the chain parses back to
/// that key hash, and likewise for a script hash (a transparent address
/// of the test prefixes is accepted for the local test chain too). The
/// text it gives for the bytes of a Sapling address, or for a unified
/// address (revision 0) whose only receiver is an Orchard one, parses,
/// where it parses at all (the bytes are a valid receiver), back to those
/// bytes: `PaymentAddress::from_bytes` and
/// `orchard::Address::from_raw_address_bytes` accept only canonical
/// encodings, which `to_bytes` and `to_raw_address_bytes` give back.
#[verifier::external_body]
fn parse_address(network: Network, text: &str) -> (r: Option<RecipientAddress>)
    ensures
        r == decoded_address(network == Network::Main, text@),
        forall|h: [u8; 20]| #![trigger pkh_text(network, h)]
            text@ == pkh_text(network, h) ==> r == Some(RecipientAddress::Transparent(TransparentAddress::PublicKeyHash(h))),
        forall|h: [u8; 20]| #![trigger sh_text(network, h)]
            text@ == sh_text(network, h) ==> r == Some(RecipientAddress::Transparent(TransparentAddress::ScriptHash(h))),
        forall|s: [u8; 43]| #![trigger sapling_text(network, s)]
            text@ == sapling_text(network, s) && r is Some ==> r == Some(RecipientAddress::Sapling(s)),
        forall|o: [u8; 43]| #![trigger orchard_text(network, o)]
            text@ == orchard_text(network, o) && r is Some ==> r == Some(RecipientAddress::Unified(
                UnifiedReceivers { transparent: None, sapling: None, orchard: Some(o) })),
{
    let t = |t: &ZTransparentAddress| match *t {
        ZTransparentAddress::PublicKeyHash(h) => TransparentAddress::PublicKeyHash(h),
        ZTransparentAddress::ScriptHash(h) => TransparentAddress::ScriptHash(h),
    };
    let decoded = match network {
        Network::Main => ZAddress::decode(&MainNetwork, text),
        Network::Regtest => ZAddress::decode(&regtest(), text),
    };
    Some(match decoded? {
        ZAddress::Sapling(s) => RecipientAddress::Sapling(s.to_bytes()),
        ZAddress::Transparent(x) => RecipientAddress::Transparent(t(&x)),
        ZAddress::Unified(u) => RecipientAddress::Unified(UnifiedReceivers { transparent: u.transparent().map(t),
            sapling: u.sapling().map(PaymentAddress::to_bytes), orchard: u.orchard().map(OrchardAddress::to_raw_address_bytes) }),
        ZAddress::Tex(h) => RecipientAddress::Tex(h),
    })
}

/// Decodes an address of the chain.
pub fn decode_recipient(network: Network, address: &str) -> (r: Result<RecipientAddress, AddressError>)
    ensures
        r == match decoded_address(network == Network::Main, address@) {
            Some(a) => Ok::<RecipientAddress, AddressError>(a),
            None => Err(AddressError::InvalidAddress),
        },
{
    match parse_address(network, address) {
        Some(a) => Ok(a),
        None => Err(AddressError::InvalidAddress),
    }
}

/// The receivers of the address `address`, and whether it is a TEX
/// address.
pub fn split_address(network: Network, address: &str) -> (r: Result<(Option<TransparentAddress>, Option<[u8; 43]>, Option<[u8; 43]>, bool), AddressError>)
    ensures
        r == match decoded_address(network == Network::Main, address@) {
            Some(a) => Ok(receivers_of(a)),
            None => Err(AddressError::InvalidAddress),
        },
{
    match parse_address(network, address) {
        Some(a) => Ok(address_receivers(&a)),
        None => Err(AddressError::InvalidAddress),
    }
}

/// The text of a transparent address.
pub open spec fn transparent_text(network: Network, t: TransparentAddress) -> Seq<char> {
    match t {
        TransparentAddress::PublicKeyHash(h) => p2pkh_address_text(network == Network::Main, h@),
        TransparentAddress::ScriptHash(h) => p2sh_address_text(network == Network::Main, h@),
    }
}

/// Encodes a transparent address.
pub fn encode_transparent(network: Network, t: &TransparentAddress) -> (r: String)
    ensures
        r@ == transparent_text(network, *t),
{
    match t {
        TransparentAddress::PublicKeyHash(h) => encode_p2pkh(network, h),
        TransparentAddress::ScriptHash(h) => encode_p2sh(network, h),
    }
}

/// Whether `r` holds the receivers of `address`, each in text of its own.
pub open spec fn receivers_text_of(network: Network, address: RecipientAddress, r: UAReceiversT) -> bool {
    let (t, s, o, tex) = receivers_of(address);
    &&& r.tex == tex
    &&& crate::data::opt_str_view(r.transparent) == match t {
        Some(x) => Some(transparent_text(network, x)),
        None => None,
    }
    &&& crate::data::opt_str_view(r.sapling) == match s {
        Some(x) => Some(sapling_address_text(network == Network::Main, x@)),
        None => None,
    }
    &&& crate::data::opt_str_view(r.orchard) == match o {
        Some(x) => Some(orchard_address_text(network == Network::Main, x@)),
        None => None,
    }
}

/// The receivers of an address, each in text of its own (an Orchard
/// receiver as a unified address).
pub fn receivers_text(network: Network, address: &RecipientAddress) -> (r: UAReceiversT)
    ensures
        receivers_text_of(network, *address, r),
{
    let (t, s, o, tex) = address_receivers(address);
    UAReceiversT {
        tex,
        transparent: match &t {
            Some(x) => Some(encode_transparent(network, x)),
            None => None,
        },
        sapling: match &s {
            Some(x) => Some(encode_sapling(network, x)),
            None => None,
        },
        orchard: match &o {
            Some(x) => Some(ua_of_orchard(network, x)),
            None => None,
        },
    }
}

/// The receivers of the address `address`, each in text of its own (an
/// Orchard receiver as a unified address).
pub fn decode_address(network: Network, address: &str) -> (r: Result<UAReceiversT, AddressError>)
    ensures
        match decoded_address(network == Network::Main, address@) {
            Some(a) => r matches Ok(u) && receivers_text_of(network, a, u),
            None => r == Err::<UAReceiversT, AddressError>(AddressError::InvalidAddress),
        },
{
    match parse_address(network, address) {
        Some(a) => Ok(receivers_text(network, &a)),
        None => Err(AddressError::InvalidAddress),
    }
}

/// A transparent receiver of a unified address.
pub open spec fn transparent_receiver(t: TransparentAddress) -> Receiver {
    match t {
        TransparentAddress::PublicKeyHash(h) => Receiver::P2pkh(h),
        TransparentAddress::ScriptHash(h) => Receiver::P2sh(h),
    }
}

/// The receivers of a unified address, Orchard first, as type codes and
/// bytes.
pub open spec fn ua_items(t: Option<TransparentAddress>, s: Option<[u8; 43]>, o: Option<[u8; 43]>) -> Seq<(u32, Seq<u8>)> {
    (if o is Some { seq![(3u32, o->0@)] } else { Seq::empty() }) + (if s is Some { seq![(2u32, s->0@)] } else {
        Seq::empty()
    }) + (if t is Some { seq![receiver_item(transparent_receiver(t->0))] } else { Seq::empty() })
}

/// The address with the given receivers: a plain address for a single
/// transparent or Sapling receiver, else a unified address.
pub open spec fn address_with(network: Network, t: Option<TransparentAddress>, s: Option<[u8; 43]>, o: Option<[u8; 43]>) -> Seq<char> {
    if s is None && o is None {
        transparent_text(network, t->0)
    } else if t is None && o is None {
        sapling_address_text(network == Network::Main, s->0@)
    } else {
        unified_address_text(network == Network::Main, ua_items(t, s, o))
    }
}

/// The receivers of an address in the pools of `pool_mask`.
pub open spec fn filtered(a: RecipientAddress, pool_mask: u8) -> (Option<TransparentAddress>, Option<[u8; 43]>, Option<[u8; 43]>) {
    let (t, s, o, _) = receivers_of(a);
    (
        if pool_mask & 1 != 0 { t } else { None },
        if pool_mask & 2 != 0 { s } else { None },
        if pool_mask & 4 != 0 { o } else { None },
    )
}

/// Encodes the address with the given receivers, of which there is one
/// at least.
pub(crate) fn address_from_receivers(network: Network, t: Option<TransparentAddress>, s: Option<[u8; 43]>, o: Option<[u8; 43]>) -> (r: String)
    requires
        t is Some || s is Some || o is Some,
    ensures
        r@ == address_with(network, t, s, o),
{
    if s.is_none() && o.is_none() {
        return match &t {
            Some(x) => encode_transparent(network, x),
            None => String::new(),
        };
    }
    if t.is_none() && o.is_none() {
        return match &s {
            Some(x) => encode_sapling(network, x),
            None => String::new(),
        };
    }
    let mut items: Vec<Receiver> = Vec::new();
    if let Some(a) = &o {
        items.push(Receiver::Orchard(*a));
    }
    if let Some(a) = &s {
        items.push(Receiver::Sapling(*a));
    }
    if let Some(x) = &t {
        match x {
            TransparentAddress::PublicKeyHash(h) => items.push(Receiver::P2pkh(*h)),
            TransparentAddress::ScriptHash(h) => items.push(Receiver::P2sh(*h)),
        }
    }
    proof {
        assert(items@.map_values(|i: Receiver| receiver_item(i)) =~= ua_items(t, s, o));
        assert(crate::encoding::distinct_types(items@));
        assert(!crate::encoding::is_transparent_receiver(items@[0]));
    }
    match encode_unified(network, &items) {
        Some(x) => x,
        None => {
            proof {
                assert(false);
            }
            String::new()
        },
    }
}

/// The address with the receivers of `address` in the pools of
/// `pool_mask`; some receiver must be left.
pub fn filter_receivers(network: Network, address: &RecipientAddress, pool_mask: u8) -> (r: String)
    requires
        ({
            let (t, s, o) = filtered(*address, pool_mask);
            t is Some || s is Some || o is Some
        }),
    ensures
        ({
            let (t, s, o) = filtered(*address, pool_mask);
            r@ == address_with(network, t, s, o)
        }),
{
    let (t, s, o, _) = address_receivers(address);
    let t = if pool_mask & 1 != 0 { t } else { None };
    let s = if pool_mask & 2 != 0 { s } else { None };
    let o = if pool_mask & 4 != 0 { o } else { None };
    address_from_receivers(network, t, s, o)
}

/// Whether some receiver of `a` is in the pools of `pool_mask`.
pub open spec fn has_receiver_in(a: RecipientAddress, pool_mask: u8) -> bool {
    let (t, s, o) = filtered(a, pool_mask);
    t is Some || s is Some || o is Some
}

/// The address with the receivers of the address `address` in the pools
/// of `pool_mask`. Where none is left there is no address to give.
pub fn filter_address(network: Network, address: &str, pool_mask: u8) -> (r: Result<String, AddressError>)
    ensures
        match decoded_address(network == Network::Main, address@) {
            Some(a) => if has_receiver_in(a, pool_mask) {
                r matches Ok(x) && x@ == ({
                    let (t, s, o) = filtered(a, pool_mask);
                    address_with(network, t, s, o)
                })
            } else {
                r == Err::<String, AddressError>(AddressError::NoReceiver)
            },
            None => r == Err::<String, AddressError>(AddressError::InvalidAddress),
        },
{
    let a = match parse_address(network, address) {
        Some(a) => a,
        None => {
            return Err(AddressError::InvalidAddress);
        },
    };
    let (t, s, o, _) = address_receivers(&a);
    if !((pool_mask & 1 != 0 && t.is_some()) || (pool_mask & 2 != 0 && s.is_some()) || (pool_mask & 4 != 0 && o.is_some())) {
        return Err(AddressError::NoReceiver);
    }
    Ok(filter_receivers(network, &a, pool_mask))
}

/// The address of the single receiver of `address` (given as `text` and
/// decoded as `address`) in the pool of `pools`: a transparent or TEX
/// address for the transparent pool and a Sapling address for Sapling are
/// themselves; a unified address gives its receiver of the pool; anything
/// else has none.
pub open spec fn single_receiver_spec(network: Network, text: Seq<char>, address: RecipientAddress, pool: u8) -> Option<Seq<char>> {
    match address {
        RecipientAddress::Tex(_) => if pool == 0 { Some(text) } else { None },
        RecipientAddress::Transparent(_) => if pool == 0 { Some(text) } else { None },
        RecipientAddress::Sapling(_) => if pool == 1 { Some(text) } else { None },
        RecipientAddress::Unified(u) => if pool == 0 {
            match u.transparent {
                Some(t) => Some(transparent_text(network, t)),
                None => None,
            }
        } else if pool == 1 {
            match u.sapling {
                Some(s) => Some(sapling_address_text(network == Network::Main, s@)),
                None => None,
            }
        } else {
            match u.orchard {
                Some(o) => Some(orchard_address_text(network == Network::Main, o@)),
                None => None,
            }
        },
    }
}

/// The address of the receiver of the address `text` in the single pool
/// of `pools`.
pub fn single_receiver_address(network: Network, text: &str, pools: PoolMask) -> (r: Result<Option<String>, AddressError>)
    ensures
        !is_single_pool(pools.0) ==> r == Err::<Option<String>, AddressError>(AddressError::NotSinglePool),
        is_single_pool(pools.0) && mask_to_pool(pools.0) is None ==> r == Err::<Option<String>, AddressError>(AddressError::NoReceiver),
        is_single_pool(pools.0) && mask_to_pool(pools.0) is Some
            && decoded_address(network == Network::Main, text@) is None
            ==> r == Err::<Option<String>, AddressError>(AddressError::InvalidAddress),
        match r {
            Ok(a) => is_single_pool(pools.0) && (mask_to_pool(pools.0) matches Some(p)
                && decoded_address(network == Network::Main, text@) matches Some(address)
                && crate::data::opt_str_view(a) == single_receiver_spec(network, text@, address, p)),
            Err(_) => !is_single_pool(pools.0) || mask_to_pool(pools.0) is None
                || decoded_address(network == Network::Main, text@) is None,
        },
{
    if !pools.single_pool() {
        return Err(AddressError::NotSinglePool);
    }
    let pool = match pools.to_pool() {
        Some(p) => p,
        None => {
            return Err(AddressError::NoReceiver);
        },
    };
    let address = match parse_address(network, text) {
        Some(a) => a,
        None => {
            return Err(AddressError::InvalidAddress);
        },
    };
    let r = match &address {
        RecipientAddress::Tex(_) => if pool == 0 { Some(String::from_str(text)) } else { None },
        RecipientAddress::Transparent(_) => if pool == 0 { Some(String::from_str(text)) } else { None },
        RecipientAddress::Sapling(_) => if pool == 1 { Some(String::from_str(text)) } else { None },
        RecipientAddress::Unified(u) => {
            if pool == 0 {
                match &u.transparent {
                    Some(t) => Some(encode_transparent(network, t)),
                    None => None,
                }
            } else if pool == 1 {
                match &u.sapling {
                    Some(s) => Some(encode_sapling(network, s)),
                    None => None,
                }
            } else {
                match &u.orchard {
                    Some(o) => Some(ua_of_orchard(network, o)),
                    None => None,
                }
            }
        },
    };
    Ok(r)
}

/// The receivers of an address, transparent, Sapling and Orchard.
pub fn decompose_recipient(a: &RecipientAddress) -> (r: (Option<TransparentAddress>, Option<[u8; 43]>, Option<[u8; 43]>))
    ensures
        r == (receivers_of(*a).0, receivers_of(*a).1, receivers_of(*a).2),
{
    let (t, s, o, _) = address_receivers(a);
    (t, s, o)
}

/// Whether two addresses have a receiver in common.
pub open spec fn shares_receiver(a: RecipientAddress, b: RecipientAddress) -> bool {
    let (t1, s1, o1, _) = receivers_of(a);
    let (t2, s2, o2, _) = receivers_of(b);
    ||| (t1 is Some && t1 == t2)
    ||| (s1 is Some && s1 == s2)
    ||| (o1 is Some && o1 == o2)
}

/// Whether two transparent receivers are equal.
pub(crate) fn same_transparent(a: &TransparentAddress, b: &TransparentAddress) -> (r: bool)
    ensures
        r == (*a == *b),
{
    match (a, b) {
        (TransparentAddress::PublicKeyHash(x), TransparentAddress::PublicKeyHash(y)) => crate::encoding::same_bytes(x, y),
        (TransparentAddress::ScriptHash(x), TransparentAddress::ScriptHash(y)) => crate::encoding::same_bytes(x, y),
        _ => false,
    }
}

/// Whether `lhs` and `rhs` have at least one receiver in common.
pub fn recipient_contains(lhs: &RecipientAddress, rhs: &RecipientAddress) -> (r: bool)
    ensures
        r == shares_receiver(*lhs, *rhs),
{
    let (t1, s1, o1) = decompose_recipient(lhs);
    let (t2, s2, o2) = decompose_recipient(rhs);
    let t = match (&t1, &t2) {
        (Some(a), Some(b)) => same_transparent(a, b),
        _ => false,
    };
    let s = match (&s1, &s2) {
        (Some(a), Some(b)) => crate::encoding::same_bytes(a, b),
        _ => false,
    };
    let o = match (&o1, &o2) {
        (Some(a), Some(b)) => crate::encoding::same_bytes(a, b),
        _ => false,
    };
    t || s || o
}

/// Having a receiver in common goes both ways.
pub proof fn lemma_shares_receiver_symmetric(a: RecipientAddress, b: RecipientAddress)
    ensures
        shares_receiver(a, b) == shares_receiver(b, a),
{
}

/// An address with a receiver has one in common with itself.
pub proof fn lemma_shares_receiver_reflexive(a: RecipientAddress)
    requires
        ({
            let (t, s, o, _) = receivers_of(a);
            t is Some || s is Some || o is Some
        }),
    ensures
        shares_receiver(a, a),
{
}

/// The index of the last contact whose address shares a receiver with
/// `a`, or -1.
pub open spec fn last_matching_contact(contacts: Seq<(Option<String>, RecipientAddress)>, a: RecipientAddress) -> int
    decreases contacts.len(),
{
    if contacts.len() == 0 {
        -1
    } else if shares_receiver(contacts.last().1, a) {
        contacts.len() - 1
    } else {
        last_matching_contact(contacts.drop_last(), a)
    }
}

/// What a spending is shown as: the name of the last contact with a
/// receiver in common with its address, else its address.
pub open spec fn spending_label(network: Network, contacts: Seq<(Option<String>, RecipientAddress)>, address: Option<String>) -> Option<String> {
    let decoded = match address {
        Some(a) => decoded_address(network == Network::Main, a@),
        None => None,
    };
    match (address, decoded) {
        (Some(_), Some(ra)) => {
            let k = last_matching_contact(contacts, ra);
            if k < 0 {
                address
            } else {
                contacts[k].0
            }
        },
        _ => address,
    }
}

/// A copy of an optional string.
fn copy_opt(s: &Option<String>) -> (r: Option<String>)
    ensures
        r == *s,
{
    match s {
        Some(t) => Some(t.clone()),
        None => None,
    }
}

/// The spendings of an account (amount and address in text), each shown
/// under the name of a contact that shares a receiver with its address when
/// there is one.
pub fn name_spendings(network: Network, rows: &Vec<(u64, Option<String>)>, contacts: &Vec<(Option<String>, RecipientAddress)>) -> (r: Vec<crate::data::SpendingT>)
    ensures
        r@.len() == rows@.len(),
        forall|i: int| 0 <= i < r@.len() ==> {
            let t = #[trigger] r@[i];
            &&& t.amount == rows@[i].0
            &&& t.recipient == spending_label(network, contacts@, rows@[i].1)
        },
{
    let mut r: Vec<crate::data::SpendingT> = Vec::new();
    let mut i: usize = 0;
    while i < rows.len()
        invariant
            i <= rows@.len(),
            r@.len() == i,
            forall|k: int| 0 <= k < i ==> {
                let t = #[trigger] r@[k];
                &&& t.amount == rows@[k].0
                &&& t.recipient == spending_label(network, contacts@, rows@[k].1)
            },
        decreases rows@.len() - i,
    {
        let (value, address) = &rows[i];
        let mut label = copy_opt(address);
        let decoded = match address {
            Some(a) => parse_address(network, a.as_str()),
            None => None,
        };
        if address.is_some() {
            if let Some(ra) = &decoded {
                let mut j: usize = 0;
                while j < contacts.len()
                    invariant
                        j <= contacts@.len(),
                        address.is_some(),
                        label == (if last_matching_contact(contacts@.take(j as int), *ra) < 0 {
                            *address
                        } else {
                            contacts@[last_matching_contact(contacts@.take(j as int), *ra)].0
                        }),
                        last_matching_contact(contacts@.take(j as int), *ra) < j,
                    decreases contacts@.len() - j,
                {
                    proof {
                        assert(contacts@.take(j + 1).drop_last() =~= contacts@.take(j as int));
                        assert(contacts@.take(j + 1).last() == contacts@[j as int]);
                    }
                    if recipient_contains(&contacts[j].1, ra) {
                        label = copy_opt(&contacts[j].0);
                    }
                    j = j + 1;
                }
                proof {
                    assert(contacts@.take(contacts@.len() as int) =~= contacts@);
                }
            }
        }
        r.push(crate::data::SpendingT { recipient: label, amount: *value });
        i = i + 1;
    }
    r
}

// ---------------------------------------------------------------------
// TEX addresses
// ---------------------------------------------------------------------

/// The human-readable part of TEX addresses.
pub const TEX_HRP: &'static str = "tex";

/// Whether a human-readable part is not empty, in the printable ASCII
/// range, in lower case, and at most 83 characters long.
pub open spec fn hrp_ok(hrp: Seq<char>) -> bool {
    &&& 1 <= hrp.len() <= 83
    &&& forall|i: int| 0 <= i < hrp.len() ==> 33 <= (#[trigger] hrp[i]) as u32 <= 126 && !('A' <= hrp[i] <= 'Z')
}

/// The Bech32m text of `data` behind the human-readable part `hrp`.
pub uninterp spec fn bech32m_text(hrp: Seq<char>, data: Seq<u8>) -> Seq<char>;

/// What a Bech32 or Bech32m text decodes to: the bytes of its
/// human-readable part (as written) and its data, when the text is valid.
pub uninterp spec fn bech32_decoded(s: Seq<char>) -> Option<(Seq<u8>, Seq<u8>)>;

/// The bytes of an ASCII text.
pub open spec fn ascii_bytes(h: Seq<char>) -> Seq<u8> {
    Seq::new(h.len(), |i: int| h[i] as u8)
}

/// Whether data fits in a Bech32m text behind the part `hrp`: the part,
/// the separator, the data in 5-bit groups and the 6 checksum characters
/// make at most 1023 characters.
pub open spec fn bech32m_fits(hrp: Seq<char>, data: Seq<u8>) -> bool {
    hrp.len() + 7 + (8 * data.len() + 4) / 5 <= 1023
}

/// Encodes data in Bech32m.
///
/// Calls `bech32::encode::<Bech32m>` with `Hrp::parse_unchecked(hrp)`;
/// the crate's source (`encoded_length`) shows that the encoding fails
/// only when the text would exceed the 1023 characters of the Bech32m code
/// length (the part, the separator, the data in 5-bit groups and the 6
/// checksum characters), and that a printable ASCII part of at most 83
/// characters is kept as it is.
#[verifier::external_body]
fn bech32m_encode(hrp: &str, data: &[u8]) -> (r: Option<String>)
    requires
        hrp_ok(hrp@),
    ensures
        r is Some <==> bech32m_fits(hrp@, data@),
        r matches Some(x) ==> x@ == bech32m_text(hrp@, data@),
{
    bech32::encode::<Bech32m>(Hrp::parse_unchecked(hrp), data).ok()
}

/// Decodes a Bech32 or Bech32m text.
///
/// Calls `bech32::decode`; the result depends on the text alone, and the
/// crate's source shows that a text made by `encode` with a non-empty
/// lowercase part (`Hrp::parse` refuses an empty one) and at most 1023
/// characters decodes back to that part and that data.
#[verifier::external_body]
pub(crate) fn bech32_decode(s: &str) -> (r: Option<(Vec<u8>, Vec<u8>)>)
    ensures
        pair_view(r) == bech32_decoded(s@),
        forall|hrp: Seq<char>, data: Seq<u8>| #![trigger bech32m_text(hrp, data)]
            hrp_ok(hrp) && bech32m_fits(hrp, data) && s@ == bech32m_text(hrp, data)
                ==> pair_view(r) == Some((ascii_bytes(hrp), data)),
{
    bech32::decode(s).ok().map(|(h, d)| (h.as_bytes().to_vec(), d))
}

/// The view of an optional pair of byte vectors.
pub open spec fn pair_view(p: Option<(Vec<u8>, Vec<u8>)>) -> Option<(Seq<u8>, Seq<u8>)> {
    match p {
        Some((a, b)) => Some((a@, b@)),
        None => None,
    }
}

/// Whether the human-readable part is `tex`, in any case.
pub open spec fn is_tex_hrp(h: Seq<u8>) -> bool {
    h.len() == 3 && (h[0] == 0x74 || h[0] == 0x54) && (h[1] == 0x65 || h[1] == 0x45) && (h[2] == 0x78 || h[2] == 0x58)
}

/// The text of the TEX address of a public key hash.
pub open spec fn tex_text(pkh: Seq<u8>) -> Seq<char> {
    bech32m_text("tex"@, pkh)
}

/// The transparent address that `text` decodes to on the chain, if it is
/// one.
pub open spec fn decoded_transparent(network: Network, text: Seq<char>) -> Option<TransparentAddress> {
    match decoded_address(network == Network::Main, text) {
        Some(RecipientAddress::Transparent(t)) => Some(t),
        _ => None,
    }
}

/// The result of converting `text` to or from a TEX address.
pub open spec fn convert_tex_spec(network: Network, text: Seq<char>, to_tex: bool) -> Result<Seq<char>, AddressError> {
    if to_tex {
        match decoded_transparent(network, text) {
            None => Err(AddressError::InvalidAddress),
            Some(TransparentAddress::ScriptHash(_)) => Err(AddressError::NotPublicKeyHash),
            Some(TransparentAddress::PublicKeyHash(h)) => Ok(tex_text(h@)),
        }
    } else {
        match bech32_decoded(text) {
            None => Err(AddressError::InvalidAddress),
            Some((h, d)) => if !is_tex_hrp(h) || d.len() != 20 {
                Err(AddressError::NotTex)
            } else {
                Ok(p2pkh_address_text(network == Network::Main, d))
            },
        }
    }
}

/// Converts a transparent address paying to a key into its TEX address, or
/// a TEX address back. A TEX address made from a key hash converts back to
/// the transparent address of that hash.
pub fn convert_tex_address(network: Network, address: &str, to_tex: bool) -> (r: Result<String, AddressError>)
    ensures
        match r {
            Ok(s) => convert_tex_spec(network, address@, to_tex) == Ok::<Seq<char>, AddressError>(s@),
            Err(e) => convert_tex_spec(network, address@, to_tex) == Err::<Seq<char>, AddressError>(e),
        },
        !to_tex ==> forall|pkh: Seq<u8>| #![trigger tex_text(pkh)]
            pkh.len() == 20 && address@ == tex_text(pkh) ==> (r matches Ok(s) && s@ == p2pkh_address_text(network == Network::Main, pkh)),
        to_tex ==> forall|h: [u8; 20]| #![trigger pkh_text(network, h)]
            address@ == pkh_text(network, h) ==> (r matches Ok(s) && s@ == tex_text(h@)),
{
    proof {
        reveal_strlit("tex");
        assert(hrp_ok("tex"@));
    }
    if to_tex {
        let transparent = match parse_address(network, address) {
            Some(RecipientAddress::Transparent(t)) => Some(t),
            _ => None,
        };
        match transparent {
            None => Err(AddressError::InvalidAddress),
            Some(TransparentAddress::ScriptHash(_)) => Err(AddressError::NotPublicKeyHash),
            Some(TransparentAddress::PublicKeyHash(h)) => {
                match bech32m_encode(TEX_HRP, h.as_slice()) {
                    Some(s) => Ok(s),
                    None => {
                        proof {
                            assert(false);
                        }
                        Err(AddressError::InvalidAddress)
                    },
                }
            },
        }
    } else {
        let decoded = bech32_decode(address);
        proof {
            assert forall|pkh: Seq<u8>| #![trigger tex_text(pkh)] pkh.len() == 20 && address@ == tex_text(pkh) implies
                pair_view(decoded) == Some((ascii_bytes("tex"@), pkh)) by {
                assert(bech32m_fits("tex"@, pkh));
            }
            assert(is_tex_hrp(ascii_bytes("tex"@)));
        }
        match decoded {
            None => Err(AddressError::InvalidAddress),
            Some((h, d)) => {
                let is_tex = h.len() == 3 && (h[0] == 0x74 || h[0] == 0x54) && (h[1] == 0x65 || h[1] == 0x45)
                    && (h[2] == 0x78 || h[2] == 0x58);
                if !is_tex || d.len() != 20 {
                    return Err(AddressError::NotTex);
                }
                let mut pkh = [0u8; 20];
                let mut i: usize = 0;
                while i < 20
                    invariant
                        i <= 20,
                        d@.len() == 20,
                        forall|k: int| 0 <= k < i ==> pkh@[k] == d@[k],
                    decreases 20 - i,
                {
                    pkh[i] = d[i];
                    i = i + 1;
                }
                proof {
                    assert(pkh@ =~= d@);
                }
                Ok(encode_p2pkh(network, &pkh))
            },
        }
    }
}


/// How many of the three receivers of a unified address are there.
pub open spec fn receiver_count(u: UnifiedReceivers) -> int {
    (if u.transparent is Some { 1int } else { 0int }) + (if u.sapling is Some { 1int } else { 0int })
        + (if u.orchard is Some { 1int } else { 0int })
}

/// Whether an address pays to a single receiver that an output can hold:
/// any but a unified address with several receivers or with a transparent
/// one alone.
pub open spec fn has_single_output(a: RecipientAddress) -> bool {
    match a {
        RecipientAddress::Unified(u) => receiver_count(u) == 1 && (u.sapling is Some || u.orchard is Some),
        _ => true,
    }
}

/// Whether `n` is the output paying to the single receiver of `a` with the
/// memo `memo` (kept by shielded outputs only).
pub open spec fn single_output(a: RecipientAddress, memo: Seq<u8>, n: crate::encoding::OutputNote) -> bool {
    match a {
        RecipientAddress::Transparent(TransparentAddress::PublicKeyHash(h)) =>
            n matches crate::encoding::OutputNote::Transparent { pkh, address } && pkh && address == h,
        RecipientAddress::Transparent(TransparentAddress::ScriptHash(h)) =>
            n matches crate::encoding::OutputNote::Transparent { pkh, address } && !pkh && address == h,
        RecipientAddress::Tex(h) =>
            n matches crate::encoding::OutputNote::Transparent { pkh, address } && pkh && address == h,
        RecipientAddress::Sapling(s) =>
            n matches crate::encoding::OutputNote::Sapling { address, memo: m } && address == s && m@ == memo,
        RecipientAddress::Unified(u) => match u.orchard {
            Some(o) => n matches crate::encoding::OutputNote::Orchard { address, memo: m } && address == o && m@ == memo,
            None => u.sapling matches Some(s)
                && (n matches crate::encoding::OutputNote::Sapling { address, memo: m } && address == s && m@ == memo),
        },
    }
}

/// The address that an output pays to, decoded.
pub open spec fn note_recipient(n: crate::encoding::OutputNote) -> RecipientAddress {
    match n {
        crate::encoding::OutputNote::Transparent { pkh, address } => if pkh {
            RecipientAddress::Transparent(TransparentAddress::PublicKeyHash(address))
        } else {
            RecipientAddress::Transparent(TransparentAddress::ScriptHash(address))
        },
        crate::encoding::OutputNote::Sapling { address, .. } => RecipientAddress::Sapling(address),
        crate::encoding::OutputNote::Orchard { address, .. } => RecipientAddress::Unified(
            UnifiedReceivers { transparent: None, sapling: None, orchard: Some(address) }),
    }
}

impl crate::encoding::OutputNote {
    /// The output that pays to an address of a single receiver, with the
    /// memo `memo` where the receiver is shielded.
    pub fn from_address(network: &Network, address: &str, memo: Vec<u8>) -> (r: Result<crate::encoding::OutputNote, AddressError>)
        ensures
            forall|n: crate::encoding::OutputNote| #![trigger crate::encoding::output_note_address(n, *network)]
                address@ == crate::encoding::output_note_address(n, *network)
                && decoded_address(*network == Network::Main, address@) is Some
                ==> (r matches Ok(m) && crate::encoding::output_note_address(m, *network) == address@),
            match decoded_address(*network == Network::Main, address@) {
                None => r == Err::<crate::encoding::OutputNote, AddressError>(AddressError::InvalidAddress),
                Some(a) => if has_single_output(a) {
                    r matches Ok(n) && single_output(a, memo@, n)
                } else {
                    r == Err::<crate::encoding::OutputNote, AddressError>(AddressError::NotSinglePool)
                },
            },
    {
        let a = match parse_address(*network, address) {
            Some(a) => a,
            None => {
                return Err(AddressError::InvalidAddress);
            },
        };
        proof {
            assert forall|n: crate::encoding::OutputNote| #![trigger crate::encoding::output_note_address(n, *network)]
                address@ == crate::encoding::output_note_address(n, *network) implies a == note_recipient(n) by {
                match n {
                    crate::encoding::OutputNote::Transparent { pkh, address: h } => {
                        if pkh {
                            assert(address@ == pkh_text(*network, h));
                        } else {
                            assert(address@ == sh_text(*network, h));
                        }
                    },
                    crate::encoding::OutputNote::Sapling { address: sa, .. } => {
                        assert(address@ == sapling_text(*network, sa));
                    },
                    crate::encoding::OutputNote::Orchard { address: oa, .. } => {
                        assert(address@ == orchard_text(*network, oa));
                    },
                }
            }
        }
        match a {
            RecipientAddress::Transparent(TransparentAddress::PublicKeyHash(h)) =>
                Ok(crate::encoding::OutputNote::Transparent { pkh: true, address: h }),
            RecipientAddress::Transparent(TransparentAddress::ScriptHash(h)) =>
                Ok(crate::encoding::OutputNote::Transparent { pkh: false, address: h }),
            RecipientAddress::Tex(h) => Ok(crate::encoding::OutputNote::Transparent { pkh: true, address: h }),
            RecipientAddress::Sapling(s) => Ok(crate::encoding::OutputNote::Sapling { address: s, memo }),
            RecipientAddress::Unified(u) => {
                let count: u8 = (if u.transparent.is_some() { 1u8 } else { 0u8 }) + (if u.sapling.is_some() { 1u8 } else { 0u8 })
                    + (if u.orchard.is_some() { 1u8 } else { 0u8 });
                if count != 1 {
                    return Err(AddressError::NotSinglePool);
                }
                match u.orchard {
                    Some(o) => Ok(crate::encoding::OutputNote::Orchard { address: o, memo }),
                    None => match u.sapling {
                        Some(s) => Ok(crate::encoding::OutputNote::Sapling { address: s, memo }),
                        None => Err(AddressError::NotSinglePool),
                    },
                }
            },
        }
    }
}

} // verus!
