//! Text encodings of bytes: hexadecimal, transaction ids and exported
//! transparent secret keys.
use vstd::prelude::*;

use base58check::ToBase58Check;
use zcash_address::unified::{self, Encoding};
use zcash_address::{ToAddress, ZcashAddress};
use zcash_protocol::consensus::NetworkType;

use crate::chain::Network;

verus! {

/// The lowercase hexadecimal digit of a value below 16.
pub open spec fn hex_digit(n: u8) -> char {
    if n < 10 {
        (48 + n) as char
    } else {
        (87 + n) as char
    }
}

/// Bytes in lowercase hexadecimal, two digits per byte, the high one first.
pub open spec fn hex_spec(b: Seq<u8>) -> Seq<char>
    decreases b.len(),
{
    if b.len() == 0 {
        Seq::empty()
    } else {
        hex_spec(b.drop_last()) + seq![hex_digit(b.last() / 16), hex_digit(b.last() % 16)]
    }
}

/// Encodes bytes in hexadecimal.
///
/// Calls `hex::encode`, which writes each byte as two lowercase
/// hexadecimal digits, the high nibble first.
#[verifier::external_body]
pub(crate) fn hex_encode(data: &[u8]) -> (r: String)
    ensures
        r@ == hex_spec(data@),
{
    hex::encode(data)
}

/// The text form of a transaction id: its bytes in reverse order, in
/// hexadecimal.
pub fn to_txid_str(txid: &crate::witness::Hash) -> (r: String)
    ensures
        r@ == hex_spec(txid@.reverse()),
{
    let mut rev: Vec<u8> = Vec::new();
    let mut i: usize = 32;
    while i > 0
        invariant
            i <= 32,
            rev@ == txid@.subrange(i as int, 32).reverse(),
        decreases i,
    {
        i = i - 1;
        rev.push(txid[i]);
        proof {
            assert(txid@.subrange(i as int, 32).reverse() =~= txid@.subrange(i + 1, 32).reverse().push(txid@[i as int]));
        }
    }
    proof {
        assert(txid@.subrange(0, 32) =~= txid@);
    }
    hex_encode(rev.as_slice())
}

/// The Base58Check text of `payload` behind the version byte `version`.
pub uninterp spec fn base58check_of(version: u8, payload: Seq<u8>) -> Seq<char>;

/// Encodes a payload in Base58Check.
///
/// Calls `<[u8] as base58check::ToBase58Check>::to_base58check`, whose
/// result depends on the version byte and the payload alone.
#[verifier::external_body]
pub(crate) fn to_base58check(payload: &[u8], version: u8) -> (r: String)
    ensures
        r@ == base58check_of(version, payload@),
{
    payload.to_base58check(version)
}

/// A transparent secret key in wallet import format: the key and the
/// compressed-key marker 1, in Base58Check behind the version byte 0x80.
pub fn export_sk_bip38(sk: &[u8; 32]) -> (r: String)
    ensures
        r@ == base58check_of(0x80, sk@ + seq![1u8]),
{
    let mut v: Vec<u8> = Vec::new();
    let mut i: usize = 0;
    while i < 32
        invariant
            i <= 32,
            v@ == sk@.take(i as int),
        decreases 32 - i,
    {
        v.push(sk[i]);
        proof {
            assert(sk@.take(i + 1) =~= sk@.take(i as int).push(sk@[i as int]));
        }
        i = i + 1;
    }
    v.push(0x01u8);
    proof {
        assert(v@ =~= sk@ + seq![1u8]);
    }
    to_base58check(v.as_slice(), 0x80)
}


/// The bytes of an array, in a vector.
pub(crate) fn array_to_vec<const N: usize>(a: &[u8; N]) -> (r: Vec<u8>)
    ensures
        r@ == a@,
{
    let mut v: Vec<u8> = Vec::new();
    let mut i: usize = 0;
    while i < N
        invariant
            i <= N,
            a@.len() == N,
            v@ == a@.take(i as int),
        decreases N - i,
    {
        v.push(a[i]);
        proof {
            assert(a@.take(i + 1) =~= a@.take(i as int).push(a@[i as int]));
        }
        i = i + 1;
    }
    proof {
        assert(a@.take(N as int) =~= a@);
    }
    v
}

/// The text of the Sapling address with the raw bytes `raw`, on the main
/// chain or on the local test chain.
pub uninterp spec fn sapling_address_text(mainnet: bool, raw: Seq<u8>) -> Seq<char>;


/// Encodes a Sapling address.
///
/// Calls `<ZcashAddress as ToAddress>::from_sapling` on the network and
/// the raw address, then `ZcashAddress::encode` (Bech32 with the network's
/// prefix); the text depends on the network and the bytes alone.
#[verifier::external_body]
pub(crate) fn encode_sapling(network: Network, raw: &[u8; 43]) -> (r: String)
    ensures
        r@ == sapling_address_text(network == Network::Main, raw@),
{
    let net = match network {
        Network::Main => NetworkType::Main,
        Network::Regtest => NetworkType::Regtest,
    };
    ZcashAddress::from_sapling(net, *raw).encode()
}

/// The text of the transparent address paying to the public key hash
/// `hash`.
pub uninterp spec fn p2pkh_address_text(mainnet: bool, hash: Seq<u8>) -> Seq<char>;

/// The text of the transparent address paying to the script hash `hash`.
pub uninterp spec fn p2sh_address_text(mainnet: bool, hash: Seq<u8>) -> Seq<char>;

/// The text of the unified address with the receivers `items` (type code
/// and bytes of each).
pub uninterp spec fn unified_address_text(mainnet: bool, items: Seq<(u32, Seq<u8>)>) -> Seq<char>;

/// Encodes a transparent address paying to a public key hash.
///
/// Calls `<ZcashAddress as ToAddress>::from_transparent_p2pkh` on the
/// network and the hash, then `ZcashAddress::encode` (Base58Check with the
/// network's prefix); the text depends on the network and the hash alone.
#[verifier::external_body]
pub(crate) fn encode_p2pkh(network: Network, hash: &[u8; 20]) -> (r: String)
    ensures
        r@ == p2pkh_address_text(network == Network::Main, hash@),
{
    let net = match network {
        Network::Main => NetworkType::Main,
        Network::Regtest => NetworkType::Regtest,
    };
    ZcashAddress::from_transparent_p2pkh(net, *hash).encode()
}

/// Encodes a transparent address paying to a script hash.
///
/// Calls `<ZcashAddress as ToAddress>::from_transparent_p2sh` on the
/// network and the hash, then `ZcashAddress::encode`; the text depends on
/// the network and the hash alone.
#[verifier::external_body]
pub(crate) fn encode_p2sh(network: Network, hash: &[u8; 20]) -> (r: String)
    ensures
        r@ == p2sh_address_text(network == Network::Main, hash@),
{
    let net = match network {
        Network::Main => NetworkType::Main,
        Network::Regtest => NetworkType::Regtest,
    };
    ZcashAddress::from_transparent_p2sh(net, *hash).encode()
}

/// A receiver of a unified address.
#[derive(Clone, Copy, Debug)]
pub enum Receiver {
    Orchard([u8; 43]),
    Sapling([u8; 43]),
    P2pkh([u8; 20]),
    P2sh([u8; 20]),
}

/// The type code (ZIP-316) and the bytes of a receiver.
pub open spec fn receiver_item(r: Receiver) -> (u32, Seq<u8>) {
    match r {
        Receiver::Orchard(b) => (3, b@),
        Receiver::Sapling(b) => (2, b@),
        Receiver::P2pkh(b) => (0, b@),
        Receiver::P2sh(b) => (1, b@),
    }
}

/// Whether no two receivers have the same type, and at most one is
/// transparent.
pub open spec fn distinct_types(items: Seq<Receiver>) -> bool {
    forall|i: int, j: int| 0 <= i < j < items.len() ==> (#[trigger] receiver_item(items[i])).0 != (#[trigger] receiver_item(items[j])).0
        && !(is_transparent_receiver(items[i]) && is_transparent_receiver(items[j]))
}

/// Whether a receiver is transparent.
pub open spec fn is_transparent_receiver(r: Receiver) -> bool {
    r is P2pkh || r is P2sh
}

/// Whether some receiver is shielded.
pub open spec fn has_shielded(items: Seq<Receiver>) -> bool {
    exists|i: int| 0 <= i < items.len() && !is_transparent_receiver(#[trigger] items[i])
}

/// Encodes a unified address from its receivers.
///
/// Calls `<unified::Address as Encoding>::try_from_items` with revision 0
/// (the first ZIP-316 revision, with the `u` prefixes), which the crate's source
/// shows to succeed, for receivers of distinct types with at most one
/// transparent, exactly when one of them is shielded; then
/// `Encoding::encode` for the network. The text depends on the network and
/// the receivers alone.
#[verifier::external_body]
pub(crate) fn encode_unified(network: Network, items: &Vec<Receiver>) -> (r: Option<String>)
    requires
        distinct_types(items@),
    ensures
        r is Some <==> has_shielded(items@),
        r matches Some(x) ==> x@ == unified_address_text(network == Network::Main, items@.map_values(|i: Receiver| receiver_item(i))),
{
    let net = match network {
        Network::Main => NetworkType::Main,
        Network::Regtest => NetworkType::Regtest,
    };
    let items = items.iter().map(|i| match i {
        Receiver::Orchard(b) => unified::Uitem::Data(unified::Receiver::Orchard(*b)),
        Receiver::Sapling(b) => unified::Uitem::Data(unified::Receiver::Sapling(*b)),
        Receiver::P2pkh(b) => unified::Uitem::Data(unified::Receiver::P2pkh(*b)),
        Receiver::P2sh(b) => unified::Uitem::Data(unified::Receiver::P2sh(*b)),
    }).collect();
    unified::Address::try_from_items(unified::Revision::R0, items).ok().map(|ua| ua.encode(&net))
}

/// The text of the unified address whose only receiver is the Orchard
/// receiver `raw`.
pub open spec fn orchard_address_text(mainnet: bool, raw: Seq<u8>) -> Seq<char> {
    unified_address_text(mainnet, seq![(3u32, raw)])
}

/// The unified address of an Orchard receiver, in text.
pub fn ua_of_orchard(network: Network, raw: &[u8; 43]) -> (r: String)
    ensures
        r@ == orchard_address_text(network == Network::Main, raw@),
{
    let mut items: Vec<Receiver> = Vec::new();
    items.push(Receiver::Orchard(*raw));
    proof {
        assert(items@.map_values(|i: Receiver| receiver_item(i)) =~= seq![(3u32, raw@)]);
        assert(!is_transparent_receiver(items@[0]));
    }
    match encode_unified(network, &items) {
        Some(s) => s,
        None => {
            proof {
                assert(false);
            }
            String::new()
        },
    }
}

/// An output of a transaction being built: a transparent hash, or a
/// shielded address with its memo bytes.
#[derive(Clone, Debug)]
pub enum OutputNote {
    Transparent { pkh: bool, address: [u8; 20] },
    Sapling { address: [u8; 43], memo: Vec<u8> },
    Orchard { address: [u8; 43], memo: Vec<u8> },
}

/// The text of the address an output pays to.
pub open spec fn output_note_address(n: OutputNote, network: Network) -> Seq<char> {
    let main = network == Network::Main;
    match n {
        OutputNote::Transparent { pkh, address } => if pkh {
            p2pkh_address_text(main, address@)
        } else {
            p2sh_address_text(main, address@)
        },
        OutputNote::Sapling { address, .. } => sapling_address_text(main, address@),
        OutputNote::Orchard { address, .. } => orchard_address_text(main, address@),
    }
}

impl OutputNote {
    /// The address the output pays to, in text; an Orchard receiver is
    /// shown as a unified address.
    pub fn to_address(&self, network: &Network) -> (r: String)
        ensures
            r@ == output_note_address(*self, *network),
    {
        match self {
            OutputNote::Transparent { pkh, address } => {
                if *pkh {
                    encode_p2pkh(*network, address)
                } else {
                    encode_p2sh(*network, address)
                }
            },
            OutputNote::Sapling { address, .. } => encode_sapling(*network, address),
            OutputNote::Orchard { address, .. } => ua_of_orchard(*network, address),
        }
    }
}

/// Whether two byte arrays are equal.
pub(crate) fn same_bytes<const N: usize>(a: &[u8; N], b: &[u8; N]) -> (r: bool)
    ensures
        r == (*a == *b),
{
    let mut i: usize = 0;
    while i < N
        invariant
            i <= N,
            a@.len() == N,
            b@.len() == N,
            forall|k: int| 0 <= k < i ==> a@[k] == b@[k],
        decreases N - i,
    {
        if a[i] != b[i] {
            return false;
        }
        i = i + 1;
    }
    proof {
        assert(*a =~= *b);
    }
    true
}

} // verus!
