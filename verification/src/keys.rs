//! Account keys: seed phrases, the keys of each pool and the addresses they
//! give, exported transparent keys, and the recognition of a key text.
use vstd::prelude::*;
use vstd::string::StrSliceExecFns;

use base58check::FromBase58Check;
use bip32::{ChildNumber, ExtendedKey, ExtendedKeyAttrs, Prefix};
use bip39::{Language, Mnemonic, Seed};
use rand::rngs::OsRng;
use rand::RngCore;
use orchard::keys::{FullViewingKey as OrchardFvk, Scope, SpendingKey as OrchardSk};
use ripemd::{Digest, Ripemd160};
use sapling_crypto::zip32::{DiversifiableFullViewingKey, ExtendedFullViewingKey, ExtendedSpendingKey};
use secp256k1::{PublicKey, SecretKey};
use sha2::Sha256;
use zcash_keys::constants::{mainnet, regtest as regtest_keys};
use zcash_address::unified::{self, Encoding};
use zcash_keys::encoding::{
    decode_extended_full_viewing_key, decode_extended_spending_key, encode_extended_full_viewing_key,
    encode_extended_spending_key,
};
use zcash_keys::keys::{UnifiedFullViewingKey, UnifiedSpendingKey};
use zcash_protocol::consensus::{MainNetwork, NetworkType};
use zcash_transparent::address::TransparentAddress as ZTransparentAddress;
use zcash_transparent::keys::{AccountPrivKey, AccountPubKey, IncomingViewingKey, NonHardenedChildIndex, TransparentKeyScope};
use zip32::{AccountId, DiversifierIndex};

use crate::account::{AccountInfo, OrchardAccountInfo, SaplingAccountInfo, TransparentAccountInfo};
use crate::address::{bech32_decoded, AddressError, TransparentAddress};
use crate::chain::{regtest, Network};
use crate::data::{BackupT, ZIP32KeysT};
use crate::types::PoolMask;
use crate::encoding::base58check_of;

verus! {

/// The largest account index and child index that ZIP-32 and BIP-44 allow
/// without hardening.
pub const MAX_INDEX: u32 = 0x7fff_ffff;

/// Whether the words of `phrase` form a valid English BIP-39 mnemonic.
pub uninterp spec fn bip39_phrase_ok(phrase: Seq<char>) -> bool;

/// The BIP-39 seed of the mnemonic `phrase` with the password `password`.
pub uninterp spec fn bip39_seed(phrase: Seq<char>, password: Seq<char>) -> Seq<u8>;

/// The seed of a mnemonic phrase.
///
/// Calls `bip39::Mnemonic::from_phrase` with the English word list, which
/// checks the words, their number and the checksum, and where it succeeds
/// `bip39::Seed::new` with the password, which the crate's source derives
/// with PBKDF2 into 64 bytes. The seed depends on the phrase and the
/// password alone.
#[verifier::external_body]
fn mnemonic_seed(phrase: &str, password: &str) -> (r: Option<Vec<u8>>)
    ensures
        r is Some <==> bip39_phrase_ok(phrase@),
        r matches Some(s) ==> s@ == bip39_seed(phrase@, password@) && s@.len() == 64,
{
    let m = Mnemonic::from_phrase(phrase, Language::English).ok()?;
    Some(Seed::new(&m, password).as_bytes().to_vec())
}

/// The words of `s`: its pieces between runs of whitespace, none empty.
pub uninterp spec fn whitespace_words(s: Seq<char>) -> Seq<Seq<char>>;

/// Splits a text into words.
///
/// Calls `str::split_whitespace`, whose documentation gives the pieces of
/// the text between runs of whitespace (as the Unicode `White_Space`
/// property defines it), none of them empty; they are copied into
/// strings.
#[verifier::external_body]
fn split_words(text: &str) -> (r: Vec<String>)
    ensures
        r@.len() == whitespace_words(text@).len(),
        forall|i: int| 0 <= i < r@.len() ==> (#[trigger] r@[i])@ == whitespace_words(text@)[i],
{
    text.split_whitespace().map(|w| w.to_string()).collect()
}

/// The words joined by single spaces.
pub open spec fn join_words(words: Seq<Seq<char>>) -> Seq<char>
    decreases words.len(),
{
    if words.len() == 0 {
        Seq::empty()
    } else if words.len() == 1 {
        words[0]
    } else {
        join_words(words.drop_last()) + seq![' '] + words.last()
    }
}

/// The mnemonic and the password that a seed phrase stands for: a phrase
/// of 3k + 1 words carries a password as its last word, after a mnemonic of
/// the others; any other phrase is a mnemonic without password.
pub open spec fn phrase_and_password(text: Seq<char>) -> (Seq<char>, Seq<char>) {
    let words = whitespace_words(text);
    if words.len() % 3 == 1 {
        (join_words(words.drop_last()), words.last())
    } else {
        (text, Seq::empty())
    }
}

/// The first `n` words joined by single spaces.
fn join_first(words: &Vec<String>, n: usize) -> (r: String)
    requires
        n <= words@.len(),
    ensures
        r@ == join_words(words@.take(n as int).map_values(|w: String| w@)),
{
    let mut r = String::new();
    let mut i: usize = 0;
    while i < n
        invariant
            i <= n <= words@.len(),
            r@ == join_words(words@.take(i as int).map_values(|w: String| w@)),
        decreases n - i,
    {
        let ghost before = words@.take(i as int).map_values(|w: String| w@);
        let ghost after = words@.take(i + 1).map_values(|w: String| w@);
        proof {
            assert(after.drop_last() =~= before);
            assert(after.last() == words@[i as int]@);
        }
        let ghost r0 = r@;
        if i > 0 {
            r.append(" ");
            proof {
                reveal_strlit(" ");
                assert(" "@ =~= seq![' ']);
            }
        }
        r.append(words[i].as_str());
        proof {
            if i == 0 {
                assert(before =~= Seq::<Seq<char>>::empty());
                assert(r@ =~= words@[0]@);
                assert(join_words(after) == after[0]);
            } else {
                assert(join_words(after) == join_words(after.drop_last()) + seq![' '] + after.last());
                assert(r@ =~= r0 + seq![' '] + words@[i as int]@);
            }
        }
        i = i + 1;
    }
    r
}

/// Reads a seed phrase, with the password that a phrase of 3k + 1 words
/// carries as its last word, into its 64-byte seed; `None` where the words
/// are no valid mnemonic.
pub fn parse_seed_phrase(phrase: &str) -> (r: Option<Vec<u8>>)
    ensures
        ({
            let (m, p) = phrase_and_password(phrase@);
            &&& r is Some <==> bip39_phrase_ok(m)
            &&& r matches Some(s) ==> s@ == bip39_seed(m, p) && s@.len() == 64
        }),
{
    let words = split_words(phrase);
    let len = words.len();
    proof {
        assert(words@.map_values(|w: String| w@) =~= whitespace_words(phrase@));
    }
    if len % 3 == 1 {
        let m = join_first(&words, len - 1);
        proof {
            assert(words@.take(len - 1).map_values(|w: String| w@) =~= whitespace_words(phrase@).drop_last());
        }
        proof {
            assert(words@[len - 1]@ == whitespace_words(phrase@).last());
        }
        mnemonic_seed(m.as_str(), words[len - 1].as_str())
    } else {
        proof {
            reveal_strlit("");
            assert(""@ =~= Seq::<char>::empty());
        }
        mnemonic_seed(phrase, "")
    }
}

/// The transparent account key, the Sapling extended spending key and the
/// Orchard spending key of account `account` derived from `seed`.
pub uninterp spec fn seed_keys(mainnet: bool, seed: Seq<u8>, account: u32) -> Option<(Seq<u8>, Seq<u8>, Seq<u8>)>;

/// The byte views of three keys.
pub open spec fn keys_view(k: Option<(Vec<u8>, Vec<u8>, Vec<u8>)>) -> Option<(Seq<u8>, Seq<u8>, Seq<u8>)> {
    match k {
        Some((t, s, o)) => Some((t@, s@, o@)),
        None => None,
    }
}

/// The spending keys of an account derived from a seed.
///
/// Calls `UnifiedSpendingKey::from_seed` with the chain's parameters,
/// which derives the transparent key at `m/44'/coin'/account'`, the Sapling
/// key at `m/32'/coin'/account'` and the Orchard key alike, and panics on a
/// seed of fewer than 32 bytes; the keys come out as their byte encodings.
/// They depend on the chain, the seed and the account alone.
#[verifier::external_body]
fn usk_from_seed(network: Network, seed: &[u8], account: u32) -> (r: Option<(Vec<u8>, Vec<u8>, Vec<u8>)>)
    requires
        seed@.len() >= 32,
        account <= MAX_INDEX,
    ensures
        keys_view(r) == seed_keys(network == Network::Main, seed@, account),
{
    let account = AccountId::try_from(account).unwrap();
    let usk = match network {
        Network::Main => UnifiedSpendingKey::from_seed(&MainNetwork, seed, account),
        Network::Regtest => UnifiedSpendingKey::from_seed(&regtest(), seed, account),
    };
    let usk = usk.ok()?;
    Some((usk.transparent().to_bytes(), usk.sapling().to_bytes().to_vec(), usk.orchard().to_bytes().to_vec()))
}

/// The byte view of an optional key.
pub open spec fn key_view(k: Option<Vec<u8>>) -> Option<Seq<u8>> {
    match k {
        Some(v) => Some(v@),
        None => None,
    }
}

/// The byte view of an optional address.
pub open spec fn addr_view<const N: usize>(k: Option<[u8; N]>) -> Option<Seq<u8>> {
    match k {
        Some(v) => Some(v@),
        None => None,
    }
}

/// The transparent account public key (chain code and compressed key) of
/// the transparent account key `xsk`.
pub uninterp spec fn transparent_pubkey_of(xsk: Seq<u8>) -> Option<Seq<u8>>;

/// The public key of a transparent account key.
///
/// Calls `AccountPrivKey::to_account_pubkey` on the key read back with
/// `AccountPrivKey::from_bytes` (`None` where the bytes are no key), and
/// `AccountPubKey::serialize`, which the crate's source writes as the
/// 32-byte chain code and the 33-byte compressed key.
#[verifier::external_body]
fn account_pubkey(xsk: &[u8]) -> (r: Option<Vec<u8>>)
    ensures
        key_view(r) == transparent_pubkey_of(xsk@),
        r matches Some(v) ==> v@.len() == 65,
{
    Some(AccountPrivKey::from_bytes(xsk)?.to_account_pubkey().serialize())
}

/// The transparent secret key at `index` in the scope `scope` (0 for
/// receiving, 1 for change, or another non-hardened scope) of the
/// transparent account key `xsk`.
pub uninterp spec fn transparent_sk_at(xsk: Seq<u8>, scope: u32, index: u32) -> Option<Seq<u8>>;

/// Derives a transparent secret key.
///
/// Calls `AccountPrivKey::derive_secret_key` (BIP-44 path
/// `.../scope/index`) on the key read back with `AccountPrivKey::from_bytes`;
/// `None` where the bytes are no key or BIP-32 derivation fails.
#[verifier::external_body]
fn child_secret_key(xsk: &[u8], scope: u32, index: u32) -> (r: Option<[u8; 32]>)
    requires
        scope <= MAX_INDEX,
        index <= MAX_INDEX,
    ensures
        addr_view(r) == transparent_sk_at(xsk@, scope, index),
{
    let scope = TransparentKeyScope::custom(scope).unwrap();
    let index = NonHardenedChildIndex::from_index(index).unwrap();
    Some(AccountPrivKey::from_bytes(xsk)?.derive_secret_key(scope, index).ok()?.secret_bytes())
}

/// The public key hash of the transparent receiving address at `index` of
/// the transparent account public key `tvk`.
pub uninterp spec fn external_taddr(tvk: Seq<u8>, index: u32) -> Option<Seq<u8>>;

/// The public key hash of the transparent change address at `index` of
/// the transparent account public key `tvk`.
pub uninterp spec fn internal_taddr(tvk: Seq<u8>, index: u32) -> Option<Seq<u8>>;

/// Derives a transparent receiving address.
///
/// Calls `AccountPubKey::derive_external_ivk` on the key read back with
/// `AccountPubKey::deserialize`, then `derive_address` at `index`, which
/// the crate's source builds as a public key hash; `None` where the bytes
/// are no key or BIP-32 derivation fails.
#[verifier::external_body]
fn external_address(tvk: &[u8], index: u32) -> (r: Option<[u8; 20]>)
    requires
        index <= MAX_INDEX,
    ensures
        addr_view(r) == external_taddr(tvk@, index),
{
    let tvk = AccountPubKey::deserialize(tvk.try_into().ok()?).ok()?;
    let index = NonHardenedChildIndex::from_index(index).unwrap();
    match tvk.derive_external_ivk().ok()?.derive_address(index).ok()? {
        ZTransparentAddress::PublicKeyHash(h) => Some(h),
        ZTransparentAddress::ScriptHash(_) => None,
    }
}

/// Derives a transparent change address.
///
/// Calls `AccountPubKey::derive_internal_ivk` on the key read back with
/// `AccountPubKey::deserialize`, then `derive_address` at `index`; `None`
/// where the bytes are no key or BIP-32 derivation fails.
#[verifier::external_body]
fn internal_address(tvk: &[u8], index: u32) -> (r: Option<[u8; 20]>)
    requires
        index <= MAX_INDEX,
    ensures
        addr_view(r) == internal_taddr(tvk@, index),
{
    let tvk = AccountPubKey::deserialize(tvk.try_into().ok()?).ok()?;
    let index = NonHardenedChildIndex::from_index(index).unwrap();
    match tvk.derive_internal_ivk().ok()?.derive_address(index).ok()? {
        ZTransparentAddress::PublicKeyHash(h) => Some(h),
        ZTransparentAddress::ScriptHash(_) => None,
    }
}

/// The Sapling viewing key (diversifiable full viewing key) of the Sapling
/// extended spending key `ssk`.
pub uninterp spec fn sapling_vk_of(ssk: Seq<u8>) -> Option<Seq<u8>>;

/// The Sapling viewing key of a Sapling extended spending key.
///
/// Calls `ExtendedSpendingKey::to_diversifiable_full_viewing_key` on the
/// key read back with `ExtendedSpendingKey::from_bytes` (`None` where the
/// bytes are no key); the viewing key comes out as its 128 bytes.
#[verifier::external_body]
fn sapling_viewing_key(ssk: &[u8]) -> (r: Option<Vec<u8>>)
    ensures
        key_view(r) == sapling_vk_of(ssk@),
{
    Some(ExtendedSpendingKey::from_bytes(ssk).ok()?.to_diversifiable_full_viewing_key().to_bytes().to_vec())
}

/// The Sapling address of the viewing key `vk` at the diversifier index
/// `index`, if that index gives a valid diversifier.
pub uninterp spec fn sapling_address_of(vk: Seq<u8>, index: u32) -> Option<Seq<u8>>;

/// The first valid diversifier index of the viewing key `vk` from
/// `start` on, with its address.
pub uninterp spec fn sapling_next_address(vk: Seq<u8>, start: u32) -> Option<(u32, Seq<u8>)>;

/// The Sapling address at a diversifier index.
///
/// Calls `DiversifiableFullViewingKey::address` on the key read back with
/// `DiversifiableFullViewingKey::from_bytes`; `None` where the bytes are no
/// key or the index gives no valid diversifier.
#[verifier::external_body]
fn sapling_address_at(vk: &[u8], index: u32) -> (r: Option<[u8; 43]>)
    ensures
        addr_view(r) == sapling_address_of(vk@, index),
{
    let vk = DiversifiableFullViewingKey::from_bytes(vk.try_into().ok()?)?;
    Some(vk.address(DiversifierIndex::from(index))?.to_bytes())
}

/// Finds the next valid Sapling address.
///
/// Calls `DiversifiableFullViewingKey::find_address` from `start`, which
/// the crate's source computes by trying the indexes `start`, `start + 1`,
/// ... until one gives a valid diversifier, and gives the address at that
/// index. So every index it skipped has no address, and the address it
/// gives is the one `sapling_address_at` gives at its index. `None` where
/// the bytes are no key or the index found does not fit in 32 bits.
#[verifier::external_body]
fn sapling_find_address(vk: &[u8], start: u32) -> (r: Option<(u32, [u8; 43])>)
    ensures
        match r {
            Some((i, a)) => sapling_next_address(vk@, start) == Some((i, a@)),
            None => sapling_next_address(vk@, start) is None,
        },
        r matches Some((i, a)) ==> {
            &&& start <= i
            &&& sapling_address_of(vk@, i) == Some(a@)
            &&& forall|k: u32| start <= k < i ==> sapling_address_of(vk@, k) is None
        },
{
    let vk = DiversifiableFullViewingKey::from_bytes(vk.try_into().ok()?)?;
    let (i, a) = vk.find_address(DiversifierIndex::from(start))?;
    Some((u32::try_from(i).ok()?, a.to_bytes()))
}

/// The Orchard full viewing key of the Orchard spending key `osk`.
pub uninterp spec fn orchard_vk_of(osk: Seq<u8>) -> Option<Seq<u8>>;

/// The Orchard full viewing key of an Orchard spending key.
///
/// Calls `FullViewingKey::from` on the key read back with
/// `SpendingKey::from_bytes` (`None` where the bytes are no key); the
/// viewing key comes out as its 96 bytes.
#[verifier::external_body]
fn orchard_viewing_key(osk: &[u8]) -> (r: Option<Vec<u8>>)
    ensures
        key_view(r) == orchard_vk_of(osk@),
{
    let sk: Option<OrchardSk> = OrchardSk::from_bytes(osk.try_into().ok()?).into();
    Some(OrchardFvk::from(&sk?).to_bytes().to_vec())
}

/// The Orchard receiving address of the full viewing key `vk` at the
/// diversifier index `index`.
pub uninterp spec fn orchard_address_of(vk: Seq<u8>, index: u32) -> Option<Seq<u8>>;

/// The Orchard receiving address at a diversifier index.
///
/// Calls `FullViewingKey::address_at` with the external scope on the key
/// read back with `FullViewingKey::from_bytes`; `None` where the bytes are
/// no key.
#[verifier::external_body]
fn orchard_address_at(vk: &[u8], index: u32) -> (r: Option<[u8; 43]>)
    ensures
        addr_view(r) == orchard_address_of(vk@, index),
{
    let vk = OrchardFvk::from_bytes(vk.try_into().ok()?)?;
    Some(vk.address_at(index, Scope::External).to_raw_address_bytes())
}

/// The Sapling extended spending key that `text` encodes on the chain.
pub uninterp spec fn decoded_sapling_sk(mainnet: bool, text: Seq<char>) -> Option<Seq<u8>>;

/// Decodes a Sapling extended spending key.
///
/// Calls `zcash_keys::encoding::decode_extended_spending_key` with the
/// chain's prefix; the key comes out as its 169 bytes.
#[verifier::external_body]
fn decode_sapling_sk(network: Network, text: &str) -> (r: Option<Vec<u8>>)
    ensures
        key_view(r) == decoded_sapling_sk(network == Network::Main, text@),
{
    let hrp = match network {
        Network::Main => mainnet::HRP_SAPLING_EXTENDED_SPENDING_KEY,
        Network::Regtest => regtest_keys::HRP_SAPLING_EXTENDED_SPENDING_KEY,
    };
    Some(decode_extended_spending_key(hrp, text).ok()?.to_bytes().to_vec())
}

/// The Sapling viewing key of the extended full viewing key that `text`
/// encodes on the chain.
pub uninterp spec fn decoded_sapling_vk(mainnet: bool, text: Seq<char>) -> Option<Seq<u8>>;

/// Decodes a Sapling extended full viewing key.
///
/// Calls `zcash_keys::encoding::decode_extended_full_viewing_key` with the
/// chain's prefix; the key comes out as the 128 bytes of its diversifiable
/// part.
#[verifier::external_body]
fn decode_sapling_vk(network: Network, text: &str) -> (r: Option<Vec<u8>>)
    ensures
        key_view(r) == decoded_sapling_vk(network == Network::Main, text@),
{
    let hrp = match network {
        Network::Main => mainnet::HRP_SAPLING_EXTENDED_FULL_VIEWING_KEY,
        Network::Regtest => regtest_keys::HRP_SAPLING_EXTENDED_FULL_VIEWING_KEY,
    };
    Some(decode_extended_full_viewing_key(hrp, text).ok()?.to_diversifiable_full_viewing_key().to_bytes().to_vec())
}

/// The transparent, Sapling and Orchard viewing keys of the unified full
/// viewing key that `text` encodes on the chain.
pub uninterp spec fn decoded_ufvk(mainnet: bool, text: Seq<char>) -> Option<(Option<Seq<u8>>, Option<Seq<u8>>, Option<Seq<u8>>)>;

/// The byte views of three optional keys.
pub open spec fn ufvk_view(k: Option<(Option<Vec<u8>>, Option<Vec<u8>>, Option<Vec<u8>>)>) -> Option<(Option<Seq<u8>>, Option<Seq<u8>>, Option<Seq<u8>>)> {
    match k {
        Some((t, s, o)) => Some((key_view(t), key_view(s), key_view(o))),
        None => None,
    }
}

/// Decodes a unified full viewing key.
///
/// Calls `UnifiedFullViewingKey::decode` with the chain's parameters; its
/// transparent (public key hash), Sapling and Orchard components come out
/// as their byte encodings.
#[verifier::external_body]
fn decode_ufvk(network: Network, text: &str) -> (r: Option<(Option<Vec<u8>>, Option<Vec<u8>>, Option<Vec<u8>>)>)
    ensures
        ufvk_view(r) == decoded_ufvk(network == Network::Main, text@),
{
    let k = match network {
        Network::Main => UnifiedFullViewingKey::decode(&MainNetwork, text),
        Network::Regtest => UnifiedFullViewingKey::decode(&regtest(), text),
    };
    let k = k.ok()?;
    Some((k.p2pkh().map(|t| t.serialize()), k.sapling().map(|s| s.to_bytes().to_vec()), k.orchard().map(|o| o.to_bytes().to_vec())))
}

/// The version byte and payload that the Base58Check text `text` encodes.
pub uninterp spec fn base58check_decoded(text: Seq<char>) -> Option<(u8, Seq<u8>)>;

/// Decodes a Base58Check text.
///
/// Calls `<str as FromBase58Check>::from_base58check`, which checks the
/// checksum and splits off the version byte. The decoding of `base58`
/// works in a buffer of 132 bytes and panics where the leading `1`s of the
/// text outnumber the buffer's leading zeros, which a text of at most 131
/// characters cannot reach.
#[verifier::external_body]
fn base58check_decode(text: &str) -> (r: Option<(u8, Vec<u8>)>)
    requires
        text@.len() <= 131,
    ensures
        match r {
            Some((v, p)) => base58check_decoded(text@) == Some((v, p@)),
            None => base58check_decoded(text@) is None,
        },
{
    text.from_base58check().ok()
}

/// Whether the 32 bytes `sk` are a valid secp256k1 secret key.
pub uninterp spec fn secp_secret_key_ok(sk: Seq<u8>) -> bool;

/// Checks a secp256k1 secret key.
///
/// Calls `secp256k1::SecretKey::from_byte_array`, which refuses zero and
/// any value not below the group order.
#[verifier::external_body]
fn secret_key_ok(sk: &[u8; 32]) -> (r: bool)
    ensures
        r == secp_secret_key_ok(sk@),
{
    SecretKey::from_byte_array(*sk).is_ok()
}

/// The serialized public key of the secp256k1 secret key `sk`, compressed
/// or not.
pub uninterp spec fn secp_public_key(sk: Seq<u8>, compressed: bool) -> Option<Seq<u8>>;

/// The public key of a secp256k1 secret key.
///
/// Calls `secp256k1::PublicKey::from_secret_key` on the key read with
/// `SecretKey::from_byte_array` (`None` where the bytes are no key), and
/// serializes it compressed (33 bytes) or not (65 bytes).
#[verifier::external_body]
fn public_key(sk: &[u8; 32], compressed: bool) -> (r: Option<Vec<u8>>)
    ensures
        key_view(r) == secp_public_key(sk@, compressed),
{
    let pk = PublicKey::from_secret_key(&SecretKey::from_byte_array(*sk).ok()?);
    Some(if compressed { pk.serialize().to_vec() } else { pk.serialize_uncompressed().to_vec() })
}

/// The SHA-256 digest of `data`.
pub uninterp spec fn sha256(data: Seq<u8>) -> Seq<u8>;

/// Calls `sha2::Sha256::digest`.
#[verifier::external_body]
fn sha256_digest(data: &[u8]) -> (r: [u8; 32])
    ensures
        r@ == sha256(data@),
{
    Sha256::digest(data).into()
}

/// The RIPEMD-160 digest of `data`.
pub uninterp spec fn ripemd160(data: Seq<u8>) -> Seq<u8>;

/// Calls `ripemd::Ripemd160::digest`.
#[verifier::external_body]
fn ripemd160_digest(data: &[u8]) -> (r: [u8; 20])
    ensures
        r@ == ripemd160(data@),
{
    Ripemd160::digest(data).into()
}

/// The keys of an account, each as its byte encoding: the seed phrase they
/// come from, the account, address and change indexes, the transparent
/// account key, secret key, account public key and address, the Sapling
/// extended spending key and viewing key, the Orchard spending key and full
/// viewing key.
#[derive(Clone, Debug)]
pub struct AccountKeys {
    pub seed: Option<String>,
    pub aindex: u32,
    pub dindex: Option<u32>,
    pub cindex: Option<u32>,
    pub txsk: Option<Vec<u8>>,
    pub tsk: Option<[u8; 32]>,
    pub tvk: Option<Vec<u8>>,
    pub taddr: Option<TransparentAddress>,
    pub ssk: Option<Vec<u8>>,
    pub svk: Option<Vec<u8>>,
    pub osk: Option<Vec<u8>>,
    pub ovk: Option<Vec<u8>>,
}

/// The mathematical view of account keys.
pub struct KeysView {
    pub seed: Option<Seq<char>>,
    pub aindex: u32,
    pub dindex: Option<u32>,
    pub cindex: Option<u32>,
    pub txsk: Option<Seq<u8>>,
    pub tsk: Option<Seq<u8>>,
    pub tvk: Option<Seq<u8>>,
    pub taddr: Option<(bool, Seq<u8>)>,
    pub ssk: Option<Seq<u8>>,
    pub svk: Option<Seq<u8>>,
    pub osk: Option<Seq<u8>>,
    pub ovk: Option<Seq<u8>>,
}

impl View for AccountKeys {
    type V = KeysView;

    open spec fn view(&self) -> KeysView {
        KeysView {
            seed: crate::data::opt_str_view(self.seed),
            aindex: self.aindex,
            dindex: self.dindex,
            cindex: self.cindex,
            txsk: key_view(self.txsk),
            tsk: addr_view(self.tsk),
            tvk: key_view(self.tvk),
            taddr: taddr_view(self.taddr),
            ssk: key_view(self.ssk),
            svk: key_view(self.svk),
            osk: key_view(self.osk),
            ovk: key_view(self.ovk),
        }
    }
}

/// A transparent address as whether it pays to a key hash (else to a
/// script hash) and the hash.
pub open spec fn taddr_view(a: Option<TransparentAddress>) -> Option<(bool, Seq<u8>)> {
    match a {
        Some(TransparentAddress::PublicKeyHash(h)) => Some((true, h@)),
        Some(TransparentAddress::ScriptHash(h)) => Some((false, h@)),
        None => None,
    }
}

/// Keys with nothing in them.
pub open spec fn no_keys(aindex: u32) -> KeysView {
    KeysView {
        seed: None,
        aindex,
        dindex: None,
        cindex: None,
        txsk: None,
        tsk: None,
        tvk: None,
        taddr: None,
        ssk: None,
        svk: None,
        osk: None,
        ovk: None,
    }
}

/// Whether `a` is the transparent address whose public key hash is `h`.
pub open spec fn is_pkh_address(a: Option<TransparentAddress>, h: Option<Seq<u8>>) -> bool {
    match h {
        Some(h) => a matches Some(TransparentAddress::PublicKeyHash(x)) && x@ == h,
        None => a is None,
    }
}


/// The first 32 bytes of `v`.
fn first_32(v: &Vec<u8>) -> (r: [u8; 32])
    requires
        v@.len() >= 32,
    ensures
        r@ == v@.take(32),
{
    let mut a = [0u8; 32];
    let mut i: usize = 0;
    while i < 32
        invariant
            i <= 32 <= v@.len(),
            forall|k: int| 0 <= k < i ==> a@[k] == v@[k],
        decreases 32 - i,
    {
        a[i] = v[i];
        i = i + 1;
    }
    proof {
        assert(a@ =~= v@.take(32));
    }
    a
}

/// The secret key that an exported transparent key text holds: a
/// Base58Check payload of a 32-byte key and the compressed-key marker, the
/// key being a valid secp256k1 key. Such a text has about 52 characters; a
/// text of more than 131 is not read.
pub open spec fn imported_sk(key: Seq<char>) -> Option<Seq<u8>> {
    if key.len() > 131 {
        None
    } else {
    match base58check_decoded(key) {
        Some((_, p)) => if p.len() == 33 && secp_secret_key_ok(p.take(32)) {
            Some(p.take(32))
        } else {
            None
        },
        None => None,
    }
    }
}

/// Reads an exported transparent secret key (the inverse of
/// `export_sk_bip38`). A payload with no marker byte after the key holds
/// no key.
pub fn import_sk_bip38(key: &str) -> (r: Option<[u8; 32]>)
    ensures
        addr_view(r) == imported_sk(key@),
{
    if key.unicode_len() > 131 {
        return None;
    }
    let payload = match base58check_decode(key) {
        Some((_, p)) => p,
        None => {
            return None;
        },
    };
    if payload.len() != 33 {
        return None;
    }
    let sk = first_32(&payload);
    if secret_key_ok(&sk) {
        Some(sk)
    } else {
        None
    }
}

/// The public key hash of the secp256k1 secret key `sk`, its public key
/// serialized compressed or not.
pub open spec fn secret_key_hash(sk: Seq<u8>, compressed: bool) -> Option<Seq<u8>> {
    match secp_public_key(sk, compressed) {
        Some(pk) => Some(ripemd160(sha256(pk))),
        None => None,
    }
}

impl TransparentAccountInfo {
    /// The transparent account of a single secret key: its address pays to
    /// the hash of the key's public key, compressed or not; there is no
    /// account key to derive more from.
    pub fn from_secret_key(sk: &[u8; 32], compressed: bool) -> (r: Option<TransparentAccountInfo>)
        ensures
            match secret_key_hash(sk@, compressed) {
                Some(h) => r matches Some(ti) && {
                    &&& ti.addr matches TransparentAddress::PublicKeyHash(x) && x@ == h
                    &&& ti.sk == Some(*sk)
                    &&& ti.index == 0
                    &&& ti.xsk is None
                    &&& ti.vk is None
                    &&& ti.change_index is None
                },
                None => r is None,
            },
    {
        let pk = match public_key(sk, compressed) {
            Some(pk) => pk,
            None => {
                return None;
            },
        };
        let h = ripemd160_digest(&sha256_digest(pk.as_slice()));
        Some(TransparentAccountInfo {
            index: 0,
            xsk: None,
            sk: Some(*sk),
            vk: None,
            addr: TransparentAddress::PublicKeyHash(h),
            change_index: None,
        })
    }

    /// The transparent secret key at `addr_index` of the account key
    /// `xsk`, for receiving (`external` 0) or change (`external` 1).
    pub fn derive_sk(xsk: &[u8], external: u32, addr_index: u32) -> (r: Option<[u8; 32]>)
        requires
            external <= 1,
            addr_index <= MAX_INDEX,
        ensures
            addr_view(r) == transparent_sk_at(xsk@, external, addr_index),
    {
        child_secret_key(xsk, external, addr_index)
    }

    /// The transparent receiving address at `addr_index` of the account
    /// public key `tvk`.
    pub fn derive_address(tvk: &[u8], addr_index: u32) -> (r: Option<TransparentAddress>)
        requires
            addr_index <= MAX_INDEX,
        ensures
            is_pkh_address(r, external_taddr(tvk@, addr_index)),
    {
        match external_address(tvk, addr_index) {
            Some(h) => Some(TransparentAddress::PublicKeyHash(h)),
            None => None,
        }
    }

    /// The transparent change address at `addr_index` of the account
    /// public key `tvk`.
    pub fn derive_change_address(tvk: &[u8], addr_index: u32) -> (r: Option<TransparentAddress>)
        requires
            addr_index <= MAX_INDEX,
        ensures
            is_pkh_address(r, internal_taddr(tvk@, addr_index)),
    {
        match internal_address(tvk, addr_index) {
            Some(h) => Some(TransparentAddress::PublicKeyHash(h)),
            None => None,
        }
    }
}

/// The transparent address of a secret key, its public key compressed.
pub fn sk_to_address(sk: &[u8; 32]) -> (r: Option<TransparentAddress>)
    ensures
        is_pkh_address(r, secret_key_hash(sk@, true)),
{
    match TransparentAccountInfo::from_secret_key(sk, true) {
        Some(ti) => Some(ti.addr),
        None => None,
    }
}

/// The first diversifier index from `start` on at which the Sapling viewing
/// key `svk` has an address.
pub fn find_address_index(svk: &[u8], start: u32) -> (r: Option<u32>)
    ensures
        r == match sapling_next_address(svk@, start) {
            Some((i, _)) => Some(i),
            None => None::<u32>,
        },
        r matches Some(i) ==> start <= i && sapling_address_of(svk@, i) is Some,
{
    match sapling_find_address(svk, start) {
        Some((i, _)) => Some(i),
        None => None,
    }
}

/// The keys of account `aindex` of a seed phrase (see `parse_seed_phrase`),
/// with the first diversifier index that has a Sapling address as the
/// address index, and the transparent secret key and address at that index.
pub open spec fn seed_account_keys(mainnet: bool, phrase: Seq<char>, aindex: u32) -> Option<KeysView> {
    let (m, p) = phrase_and_password(phrase);
    if !bip39_phrase_ok(m) {
        None
    } else {
        match seed_keys(mainnet, bip39_seed(m, p), aindex) {
            Some((t, s, o)) => match (transparent_pubkey_of(t), sapling_vk_of(s), orchard_vk_of(o)) {
                (Some(tvk), Some(svk), Some(ovk)) => match sapling_next_address(svk, 0) {
                    Some((di, _)) => if di <= MAX_INDEX {
                        match (transparent_sk_at(t, 0, di), external_taddr(tvk, di)) {
                            (Some(tsk), Some(h)) => Some(
                                KeysView {
                                    seed: Some(phrase),
                                    aindex,
                                    dindex: Some(di),
                                    cindex: None,
                                    txsk: Some(t),
                                    tsk: Some(tsk),
                                    tvk: Some(tvk),
                                    taddr: Some((true, h)),
                                    ssk: Some(s),
                                    svk: Some(svk),
                                    osk: Some(o),
                                    ovk: Some(ovk),
                                },
                            ),
                            _ => None,
                        }
                    } else {
                        None
                    },
                    None => None,
                },
                _ => None,
            },
            None => None,
        }
    }
}

impl AccountKeys {
    /// The keys of account `acc_index` of a seed phrase; `None` where the
    /// phrase is no mnemonic or a derivation fails.
    pub fn from_seed(network: &Network, phrase: &str, acc_index: u32) -> (r: Option<AccountKeys>)
        requires
            acc_index <= MAX_INDEX,
        ensures
            match r {
                Some(k) => seed_account_keys(*network == Network::Main, phrase@, acc_index) == Some(k@),
                None => seed_account_keys(*network == Network::Main, phrase@, acc_index) is None,
            },
    {
        let seed = match parse_seed_phrase(phrase) {
            Some(s) => s,
            None => {
                return None;
            },
        };
        let (t, s, o) = match usk_from_seed(*network, seed.as_slice(), acc_index) {
            Some(k) => k,
            None => {
                return None;
            },
        };
        let tvk = match account_pubkey(t.as_slice()) {
            Some(k) => k,
            None => {
                return None;
            },
        };
        let svk = match sapling_viewing_key(s.as_slice()) {
            Some(k) => k,
            None => {
                return None;
            },
        };
        let ovk = match orchard_viewing_key(o.as_slice()) {
            Some(k) => k,
            None => {
                return None;
            },
        };
        let di = match sapling_find_address(svk.as_slice(), 0) {
            Some((i, _)) => i,
            None => {
                return None;
            },
        };
        if di > MAX_INDEX {
            return None;
        }
        let tsk = match child_secret_key(t.as_slice(), 0, di) {
            Some(k) => k,
            None => {
                return None;
            },
        };
        let h = match external_address(tvk.as_slice(), di) {
            Some(h) => h,
            None => {
                return None;
            },
        };
        Some(AccountKeys {
            seed: Some(String::from_str(phrase)),
            aindex: acc_index,
            dindex: Some(di),
            cindex: None,
            txsk: Some(t),
            tsk: Some(tsk),
            tvk: Some(tvk),
            taddr: Some(TransparentAddress::PublicKeyHash(h)),
            ssk: Some(s),
            svk: Some(svk),
            osk: Some(o),
            ovk: Some(ovk),
        })
    }

    /// The transparent part of the keys, where they have an address.
    pub fn to_transparent(&self) -> (r: Option<TransparentAccountInfo>)
        ensures
            match self.taddr {
                Some(a) => r matches Some(ti) && {
                    &&& ti.addr == a
                    &&& ti.index == match self.dindex {
                        Some(i) => i,
                        None => 0,
                    }
                    &&& ti.change_index == self.cindex
                    &&& key_view(ti.xsk) == key_view(self.txsk)
                    &&& ti.sk == self.tsk
                    &&& key_view(ti.vk) == key_view(self.tvk)
                },
                None => r is None,
            },
    {
        match &self.taddr {
            Some(a) => Some(TransparentAccountInfo {
                index: match self.dindex {
                    Some(i) => i,
                    None => 0,
                },
                change_index: self.cindex,
                xsk: self.txsk.clone(),
                sk: self.tsk,
                vk: self.tvk.clone(),
                addr: *a,
            }),
            None => None,
        }
    }

    /// The Sapling part of the keys, with the address at the address
    /// index, where they have a viewing key and that address exists.
    pub fn to_sapling(&self) -> (r: Option<SaplingAccountInfo>)
        ensures
            match (self.svk, self.dindex) {
                (Some(vk), Some(di)) => match sapling_address_of(vk@, di) {
                    Some(a) => r matches Some(si) && si.addr@ == a && si.vk@ == vk@ && key_view(si.sk) == key_view(self.ssk),
                    None => r is None,
                },
                _ => r is None,
            },
    {
        let vk = match &self.svk {
            Some(vk) => vk,
            None => {
                return None;
            },
        };
        let di = match self.dindex {
            Some(di) => di,
            None => {
                return None;
            },
        };
        match sapling_address_at(vk.as_slice(), di) {
            Some(addr) => Some(SaplingAccountInfo { sk: self.ssk.clone(), vk: vk.clone(), addr }),
            None => None,
        }
    }

    /// The Orchard part of the keys, with the address at the address index,
    /// where they have a full viewing key.
    pub fn to_orchard(&self) -> (r: Option<OrchardAccountInfo>)
        ensures
            match (self.ovk, self.dindex) {
                (Some(vk), Some(di)) => match orchard_address_of(vk@, di) {
                    Some(a) => r matches Some(oi) && oi.addr@ == a && oi.vk@ == vk@ && key_view(oi.sk) == key_view(self.osk),
                    None => r is None,
                },
                _ => r is None,
            },
    {
        let vk = match &self.ovk {
            Some(vk) => vk,
            None => {
                return None;
            },
        };
        let di = match self.dindex {
            Some(di) => di,
            None => {
                return None;
            },
        };
        match orchard_address_at(vk.as_slice(), di) {
            Some(addr) => Some(OrchardAccountInfo { sk: self.osk.clone(), vk: vk.clone(), addr }),
            None => None,
        }
    }
}

/// Why a key text gives no account keys.
#[derive(Clone, Copy, Debug, PartialEq, Eq, Structural)]
pub enum KeyError {
    /// The text is no key that the wallet knows, or its keys cannot be
    /// derived.
    InvalidKey,
    /// More transparent addresses need the account public key.
    NoExtendedPublicKey,
    /// The address index gives no Sapling address.
    InvalidDiversifierIndex,
    /// The account index of a seed phrase is not below 2^31.
    InvalidAccountIndex,
}

/// The first diversifier index that has a Sapling address of the viewing
/// key `svk`.
pub open spec fn first_sapling_index(svk: Seq<u8>) -> Option<u32> {
    match sapling_next_address(svk, 0) {
        Some((i, _)) => Some(i),
        None => None,
    }
}

/// Keys of which only some are present, with account index 0.
pub open spec fn partial_keys(
    dindex: Option<u32>,
    tsk: Option<Seq<u8>>,
    tvk: Option<Seq<u8>>,
    taddr: Option<(bool, Seq<u8>)>,
    ssk: Option<Seq<u8>>,
    svk: Option<Seq<u8>>,
    ovk: Option<Seq<u8>>,
) -> KeysView {
    KeysView {
        seed: None,
        aindex: 0,
        dindex,
        cindex: None,
        txsk: None,
        tsk,
        tvk,
        taddr,
        ssk,
        svk,
        osk: None,
        ovk,
    }
}

/// The keys of a Sapling spending key (or of a viewing key alone): the
/// address index is the first with an address.
pub open spec fn sapling_keys(ssk: Option<Seq<u8>>, svk: Seq<u8>) -> Option<KeysView> {
    match first_sapling_index(svk) {
        Some(di) => Some(partial_keys(Some(di), None, None, None, ssk, Some(svk), None)),
        None => None,
    }
}

/// The keys of a unified full viewing key: the address index is the first
/// with a Sapling address where there is a Sapling key, else 0, and the
/// transparent address is the one at that index.
pub open spec fn ufvk_keys(t: Option<Seq<u8>>, s: Option<Seq<u8>>, o: Option<Seq<u8>>) -> Option<KeysView> {
    let di = match s {
        Some(svk) => first_sapling_index(svk),
        None => Some(0u32),
    };
    match di {
        Some(di) => {
            let taddr = match t {
                Some(tvk) => if di <= MAX_INDEX {
                    match external_taddr(tvk, di) {
                        Some(h) => Some(Some((true, h))),
                        None => None,
                    }
                } else {
                    None
                },
                None => Some(None),
            };
            match taddr {
                Some(ta) => Some(partial_keys(Some(di), None, t, ta, None, s, o)),
                None => None,
            }
        },
        None => None,
    }
}

/// The keys of a single transparent secret key and its address.
pub open spec fn secret_key_keys(sk: Seq<u8>) -> Option<KeysView> {
    match secret_key_hash(sk, true) {
        Some(h) => Some(partial_keys(None, Some(sk), None, Some((true, h)), None, None, None)),
        None => None,
    }
}

/// The keys that a key text stands for, trying in turn a seed phrase, a
/// Sapling extended spending key, a Sapling extended full viewing key, a
/// unified full viewing key, an exported transparent secret key and a
/// transparent address; the first kind that the text is decides.
pub open spec fn detected_keys(network: Network, key: Seq<char>, aindex: u32) -> Option<KeysView> {
    let main = network == Network::Main;
    if bip39_phrase_ok(phrase_and_password(key).0) {
        if aindex > MAX_INDEX {
            None
        } else {
            seed_account_keys(main, key, aindex)
        }
    } else if decoded_sapling_sk(main, key) is Some {
        let ssk = decoded_sapling_sk(main, key)->0;
        match sapling_vk_of(ssk) {
            Some(svk) => sapling_keys(Some(ssk), svk),
            None => None,
        }
    } else if decoded_sapling_vk(main, key) is Some {
        sapling_keys(None, decoded_sapling_vk(main, key)->0)
    } else if decoded_ufvk(main, key) is Some {
        let (t, s, o) = decoded_ufvk(main, key)->0;
        ufvk_keys(t, s, o)
    } else if imported_sk(key) is Some {
        secret_key_keys(imported_sk(key)->0)
    } else {
        match crate::address::decoded_address(main, key) {
            Some(crate::address::RecipientAddress::Transparent(t)) => Some(
                partial_keys(None, None, None, taddr_view(Some(t)), None, None, None),
            ),
            _ => None,
        }
    }
}

/// Keys with an address index, a Sapling viewing key and maybe a Sapling
/// spending key.
fn sapling_account_keys(ssk: Option<Vec<u8>>, svk: Vec<u8>) -> (r: Option<AccountKeys>)
    ensures
        match r {
            Some(k) => sapling_keys(key_view(ssk), svk@) == Some(k@),
            None => sapling_keys(key_view(ssk), svk@) is None,
        },
{
    let di = match find_address_index(svk.as_slice(), 0) {
        Some(di) => di,
        None => {
            return None;
        },
    };
    Some(AccountKeys {
        seed: None,
        aindex: 0,
        dindex: Some(di),
        cindex: None,
        txsk: None,
        tsk: None,
        tvk: None,
        taddr: None,
        ssk,
        svk: Some(svk),
        osk: None,
        ovk: None,
    })
}

/// Keys of a unified full viewing key.
fn ufvk_account_keys(t: Option<Vec<u8>>, s: Option<Vec<u8>>, o: Option<Vec<u8>>) -> (r: Option<AccountKeys>)
    ensures
        match r {
            Some(k) => ufvk_keys(key_view(t), key_view(s), key_view(o)) == Some(k@),
            None => ufvk_keys(key_view(t), key_view(s), key_view(o)) is None,
        },
{
    let di = match &s {
        Some(svk) => match find_address_index(svk.as_slice(), 0) {
            Some(di) => di,
            None => {
                return None;
            },
        },
        None => 0,
    };
    let taddr = match &t {
        Some(tvk) => {
            if di > MAX_INDEX {
                return None;
            }
            match external_address(tvk.as_slice(), di) {
                Some(h) => Some(TransparentAddress::PublicKeyHash(h)),
                None => {
                    return None;
                },
            }
        },
        None => None,
    };
    Some(AccountKeys {
        seed: None,
        aindex: 0,
        dindex: Some(di),
        cindex: None,
        txsk: None,
        tsk: None,
        tvk: t,
        taddr,
        ssk: None,
        svk: s,
        osk: None,
        ovk: o,
    })
}

/// The account keys that a key text stands for (see `detected_keys`): a
/// seed phrase gives the keys of account `acc_index`, any other key the
/// keys it holds and those derived from them.
pub fn detect_key(network: &Network, key: &str, acc_index: u32) -> (r: Result<AccountKeys, KeyError>)
    ensures
        match r {
            Ok(k) => detected_keys(*network, key@, acc_index) == Some(k@),
            Err(e) => detected_keys(*network, key@, acc_index) is None
                && (e == KeyError::InvalidAccountIndex <==> (bip39_phrase_ok(phrase_and_password(key@).0) && acc_index > MAX_INDEX))
                && (e == KeyError::InvalidAccountIndex || e == KeyError::InvalidKey),
        },
{
    if parse_seed_phrase(key).is_some() {
        if acc_index > MAX_INDEX {
            return Err(KeyError::InvalidAccountIndex);
        }
        return match AccountKeys::from_seed(network, key, acc_index) {
            Some(k) => Ok(k),
            None => Err(KeyError::InvalidKey),
        };
    }
    if let Some(ssk) = decode_sapling_sk(*network, key) {
        let svk = match sapling_viewing_key(ssk.as_slice()) {
            Some(v) => v,
            None => {
                return Err(KeyError::InvalidKey);
            },
        };
        return match sapling_account_keys(Some(ssk), svk) {
            Some(k) => Ok(k),
            None => Err(KeyError::InvalidKey),
        };
    }
    if let Some(svk) = decode_sapling_vk(*network, key) {
        return match sapling_account_keys(None, svk) {
            Some(k) => Ok(k),
            None => Err(KeyError::InvalidKey),
        };
    }
    if let Some((t, s, o)) = decode_ufvk(*network, key) {
        return match ufvk_account_keys(t, s, o) {
            Some(k) => Ok(k),
            None => Err(KeyError::InvalidKey),
        };
    }
    if let Some(sk) = import_sk_bip38(key) {
        return match TransparentAccountInfo::from_secret_key(&sk, true) {
            Some(ti) => Ok(AccountKeys {
                seed: None,
                aindex: 0,
                dindex: None,
                cindex: None,
                txsk: None,
                tsk: Some(sk),
                tvk: None,
                taddr: Some(ti.addr),
                ssk: None,
                svk: None,
                osk: None,
                ovk: None,
            }),
            None => Err(KeyError::InvalidKey),
        };
    }
    match crate::address::decode_recipient(*network, key) {
        Ok(crate::address::RecipientAddress::Transparent(t)) => Ok(AccountKeys {
            seed: None,
            aindex: 0,
            dindex: None,
            cindex: None,
            txsk: None,
            tsk: None,
            tvk: None,
            taddr: Some(t),
            ssk: None,
            svk: None,
            osk: None,
            ovk: None,
        }),
        _ => Err(KeyError::InvalidKey),
    }
}

/// Whether a key text stands for account keys.
pub fn is_valid_key(network: &Network, key: &str) -> (r: bool)
    ensures
        r == detected_keys(*network, key@, 0) is Some,
{
    detect_key(network, key, 0).is_ok()
}

impl SaplingAccountInfo {
    /// The Sapling viewing part of a spending key, with the first address
    /// from the diversifier index `di` on; the spending key itself is not
    /// kept.
    pub fn from_sk(sk: &[u8], di: u32) -> (r: Option<SaplingAccountInfo>)
        ensures
            match sapling_vk_of(sk@) {
                Some(vk) => match sapling_next_address(vk, di) {
                    Some((_, a)) => r matches Some(si) && si.sk is None && si.vk@ == vk && si.addr@ == a,
                    None => r is None,
                },
                None => r is None,
            },
    {
        match sapling_viewing_key(sk) {
            Some(vk) => SaplingAccountInfo::from_vk(&vk, di),
            None => None,
        }
    }

    /// A Sapling viewing key with its first address from the diversifier
    /// index `di` on.
    pub fn from_vk(vk: &Vec<u8>, di: u32) -> (r: Option<SaplingAccountInfo>)
        ensures
            match sapling_next_address(vk@, di) {
                Some((_, a)) => r matches Some(si) && si.sk is None && si.vk@ == vk@ && si.addr@ == a,
                None => r is None,
            },
    {
        match sapling_find_address(vk.as_slice(), di) {
            Some((_, addr)) => Some(SaplingAccountInfo { sk: None, vk: vk.clone(), addr }),
            None => None,
        }
    }
}

impl OrchardAccountInfo {
    /// An Orchard full viewing key with its receiving address at the
    /// diversifier index `di`.
    pub fn from_vk(vk: &Vec<u8>, di: u32) -> (r: Option<OrchardAccountInfo>)
        ensures
            match orchard_address_of(vk@, di) {
                Some(a) => r matches Some(oi) && oi.sk is None && oi.vk@ == vk@ && oi.addr@ == a,
                None => r is None,
            },
    {
        match orchard_address_at(vk.as_slice(), di) {
            Some(addr) => Some(OrchardAccountInfo { sk: None, vk: vk.clone(), addr }),
            None => None,
        }
    }
}

/// The secret keys of an account, one per pool.
#[derive(Clone, Debug)]
pub struct SecretKeys {
    pub transparent: Option<[u8; 32]>,
    pub sapling: Option<Vec<u8>>,
    pub orchard: Option<Vec<u8>>,
}

/// The viewing keys of an account, one per pool.
#[derive(Clone, Debug)]
pub struct ViewKeys {
    pub transparent: Option<Vec<u8>>,
    pub sapling: Option<Vec<u8>>,
    pub orchard: Option<Vec<u8>>,
}

/// Whether the change address of `ai` in the transparent pool can be
/// derived where asked for.
pub open spec fn change_index_ready(ai: AccountInfo) -> bool {
    match ai.transparent {
        Some(ti) => ti.vk is Some ==> (ti.change_index matches Some(c) && c <= MAX_INDEX),
        None => true,
    }
}

/// The change address of `ai` in `pool`: for the transparent pool the
/// address at the change index of the change chain where one is asked for
/// and the account public key is known (its receiving address otherwise),
/// for the shielded pools their address. `None` where the pool is absent
/// or the derivation fails.
pub open spec fn change_address_spec(ai: AccountInfo, network: Network, pool: u8, unique: bool) -> Option<Seq<char>> {
    if pool == 0 {
        match ai.transparent {
            Some(ti) => if unique && ti.vk is Some {
                match internal_taddr(ti.vk->0@, ti.change_index->0) {
                    Some(h) => Some(crate::encoding::p2pkh_address_text(network == Network::Main, h)),
                    None => None,
                }
            } else {
                Some(crate::address::transparent_text(network, ti.addr))
            },
            None => None,
        }
    } else if pool == 1 {
        match ai.sapling {
            Some(si) => Some(crate::encoding::sapling_address_text(network == Network::Main, si.addr@)),
            None => None,
        }
    } else {
        match ai.orchard {
            Some(oi) => Some(crate::encoding::orchard_address_text(network == Network::Main, oi.addr@)),
            None => None,
        }
    }
}

impl AccountInfo {
    /// The keys of the account, as they are stored.
    pub fn keys(&self) -> (r: AccountKeys)
        ensures
            r@ == (KeysView {
                seed: crate::data::opt_str_view(self.seed),
                aindex: self.aindex,
                dindex: Some(self.dindex),
                cindex: match self.transparent {
                    Some(ti) => ti.change_index,
                    None => None,
                },
                txsk: match self.transparent {
                    Some(ti) => key_view(ti.xsk),
                    None => None,
                },
                tsk: match self.transparent {
                    Some(ti) => addr_view(ti.sk),
                    None => None,
                },
                tvk: match self.transparent {
                    Some(ti) => key_view(ti.vk),
                    None => None,
                },
                taddr: match self.transparent {
                    Some(ti) => taddr_view(Some(ti.addr)),
                    None => None,
                },
                ssk: match self.sapling {
                    Some(si) => key_view(si.sk),
                    None => None,
                },
                svk: match self.sapling {
                    Some(si) => Some(si.vk@),
                    None => None,
                },
                osk: match self.orchard {
                    Some(oi) => key_view(oi.sk),
                    None => None,
                },
                ovk: match self.orchard {
                    Some(oi) => Some(oi.vk@),
                    None => None,
                },
            }),
    {
        let mut ak = AccountKeys {
            seed: self.seed.clone(),
            aindex: self.aindex,
            dindex: Some(self.dindex),
            cindex: None,
            txsk: None,
            tsk: None,
            tvk: None,
            taddr: None,
            ssk: None,
            svk: None,
            osk: None,
            ovk: None,
        };
        if let Some(ti) = &self.transparent {
            ak.txsk = ti.xsk.clone();
            ak.tsk = ti.sk;
            ak.tvk = ti.vk.clone();
            ak.taddr = Some(ti.addr);
            ak.cindex = ti.change_index;
        }
        if let Some(si) = &self.sapling {
            ak.ssk = si.sk.clone();
            ak.svk = Some(si.vk.clone());
        }
        if let Some(oi) = &self.orchard {
            ak.osk = oi.sk.clone();
            ak.ovk = Some(oi.vk.clone());
        }
        ak
    }

    /// The secret keys of the account.
    pub fn to_secret_keys(&self) -> (r: SecretKeys)
        ensures
            r.transparent == match self.transparent {
                Some(ti) => ti.sk,
                None => None,
            },
            key_view(r.sapling) == match self.sapling {
                Some(si) => key_view(si.sk),
                None => None,
            },
            key_view(r.orchard) == match self.orchard {
                Some(oi) => key_view(oi.sk),
                None => None,
            },
    {
        SecretKeys {
            transparent: match &self.transparent {
                Some(ti) => ti.sk,
                None => None,
            },
            sapling: match &self.sapling {
                Some(si) => si.sk.clone(),
                None => None,
            },
            orchard: match &self.orchard {
                Some(oi) => oi.sk.clone(),
                None => None,
            },
        }
    }

    /// The viewing keys of the account.
    pub fn to_view_keys(&self) -> (r: ViewKeys)
        ensures
            key_view(r.transparent) == match self.transparent {
                Some(ti) => key_view(ti.vk),
                None => None,
            },
            key_view(r.sapling) == match self.sapling {
                Some(si) => Some(si.vk@),
                None => None,
            },
            key_view(r.orchard) == match self.orchard {
                Some(oi) => Some(oi.vk@),
                None => None,
            },
    {
        ViewKeys {
            transparent: match &self.transparent {
                Some(ti) => ti.vk.clone(),
                None => None,
            },
            sapling: match &self.sapling {
                Some(si) => Some(si.vk.clone()),
                None => None,
            },
            orchard: match &self.orchard {
                Some(oi) => Some(oi.vk.clone()),
                None => None,
            },
        }
    }

    /// The address that change in `pool` goes to (see
    /// `change_address_spec`).
    pub fn to_change_address(&self, network: &Network, pool: u8, use_unique_change: bool) -> (r: Option<String>)
        requires
            pool <= 2,
            pool == 0 && use_unique_change ==> change_index_ready(*self),
        ensures
            crate::data::opt_str_view(r) == change_address_spec(*self, *network, pool, use_unique_change),
    {
        if pool == 0 {
            match &self.transparent {
                Some(ti) => {
                    if use_unique_change && ti.vk.is_some() {
                        let c = match ti.change_index {
                            Some(c) => c,
                            None => 0,
                        };
                        let vk = match &ti.vk {
                            Some(vk) => vk,
                            None => {
                                return None;
                            },
                        };
                        match internal_address(vk.as_slice(), c) {
                            Some(h) => Some(crate::encoding::encode_p2pkh(*network, &h)),
                            None => None,
                        }
                    } else {
                        Some(crate::address::encode_transparent(*network, &ti.addr))
                    }
                },
                None => None,
            }
        } else if pool == 1 {
            match &self.sapling {
                Some(si) => Some(crate::encoding::encode_sapling(*network, &si.addr)),
                None => None,
            }
        } else {
            match &self.orchard {
                Some(oi) => Some(crate::encoding::ua_of_orchard(*network, &oi.addr)),
                None => None,
            }
        }
    }

    /// The next address index: for receiving with a Sapling key, the first
    /// index after the current one that has a Sapling address; otherwise
    /// the one after the current one.
    pub fn next_addr_index(&self, external: bool) -> (r: Option<u32>)
        requires
            self.dindex < u32::MAX,
        ensures
            r == match self.sapling {
                Some(si) => if external {
                    match sapling_next_address(si.vk@, (self.dindex + 1) as u32) {
                        Some((i, _)) => Some(i),
                        None => None,
                    }
                } else {
                    Some((self.dindex + 1) as u32)
                },
                None => Some((self.dindex + 1) as u32),
            },
    {
        match &self.sapling {
            Some(si) => {
                if external {
                    find_address_index(si.vk.as_slice(), self.dindex + 1)
                } else {
                    Some(self.dindex + 1)
                }
            },
            None => Some(self.dindex + 1),
        }
    }
}

/// What moving an account to the address index `dindex` gives for each
/// pool: the transparent secret key and address hash at that index (which
/// needs the account public key), the Sapling address there (which must
/// exist) and the Orchard address there.
pub open spec fn reindexed(ai: AccountInfo, dindex: u32) -> Result<(Option<(Option<Seq<u8>>, Seq<u8>)>, Option<Seq<u8>>, Option<Seq<u8>>), KeyError> {
    let t = match ai.transparent {
        Some(ti) => if ti.vk is None {
            Err(KeyError::NoExtendedPublicKey)
        } else {
            let sk = match ti.xsk {
                Some(x) => match transparent_sk_at(x@, 0, dindex) {
                    Some(k) => Ok(Some(k)),
                    None => Err(KeyError::InvalidKey),
                },
                None => Ok(None),
            };
            match (sk, external_taddr(ti.vk->0@, dindex)) {
                (Ok(sk), Some(h)) => Ok(Some((sk, h))),
                _ => Err(KeyError::InvalidKey),
            }
        },
        None => Ok(None),
    };
    let s = match ai.sapling {
        Some(si) => match sapling_address_of(si.vk@, dindex) {
            Some(a) => Ok(Some(a)),
            None => Err(KeyError::InvalidDiversifierIndex),
        },
        None => Ok(None),
    };
    let o = match ai.orchard {
        Some(oi) => match orchard_address_of(oi.vk@, dindex) {
            Some(a) => Ok(Some(a)),
            None => Err(KeyError::InvalidKey),
        },
        None => Ok(None),
    };
    match (t, s, o) {
        (Err(e), _, _) => Err(e),
        (Ok(_), Err(e), _) => Err(e),
        (Ok(_), Ok(_), Err(e)) => Err(e),
        (Ok(t), Ok(s), Ok(o)) => Ok((t, s, o)),
    }
}

/// Whether `a` is the account `ai` moved to the address index `dindex`
/// with the addresses and keys `parts` (see `reindexed`).
pub open spec fn is_reindexed(ai: AccountInfo, dindex: u32, parts: (Option<(Option<Seq<u8>>, Seq<u8>)>, Option<Seq<u8>>, Option<Seq<u8>>), a: AccountInfo) -> bool {
    let (t, s, o) = parts;
    &&& a.account == ai.account
    &&& a.position == ai.position
    &&& a.name@ == ai.name@
    &&& crate::data::opt_str_view(a.seed) == crate::data::opt_str_view(ai.seed)
    &&& a.aindex == ai.aindex
    &&& a.dindex == dindex
    &&& a.birth == ai.birth
    &&& a.saved == ai.saved
    &&& match (ai.transparent, a.transparent, t) {
        (Some(ti), Some(tj), Some((sk, h))) => {
            &&& tj.index == dindex
            &&& key_view(tj.xsk) == key_view(ti.xsk)
            &&& addr_view(tj.sk) == sk
            &&& key_view(tj.vk) == key_view(ti.vk)
            &&& tj.addr matches crate::address::TransparentAddress::PublicKeyHash(x) && x@ == h
            &&& tj.change_index == ti.change_index
        },
        (None, None, None) => true,
        _ => false,
    }
    &&& match (ai.sapling, a.sapling, s) {
        (Some(si), Some(sj), Some(addr)) => key_view(sj.sk) == key_view(si.sk) && sj.vk@ == si.vk@ && sj.addr@ == addr,
        (None, None, None) => true,
        _ => false,
    }
    &&& match (ai.orchard, a.orchard, o) {
        (Some(oi), Some(oj), Some(addr)) => key_view(oj.sk) == key_view(oi.sk) && oj.vk@ == oi.vk@ && oj.addr@ == addr,
        (None, None, None) => true,
        _ => false,
    }
}

impl AccountInfo {
    /// The account with its addresses moved to the address index `dindex`
    /// (see `reindexed`).
    pub fn clone_with_addr_index(&self, dindex: u32) -> (r: Result<AccountInfo, KeyError>)
        requires
            self.transparent is Some ==> dindex <= MAX_INDEX,
        ensures
            match reindexed(*self, dindex) {
                Ok(parts) => r matches Ok(a) && is_reindexed(*self, dindex, parts, a),
                Err(e) => r == Err::<AccountInfo, KeyError>(e),
            },
    {
        let transparent = match &self.transparent {
            Some(ti) => {
                let vk = match &ti.vk {
                    Some(vk) => vk,
                    None => {
                        return Err(KeyError::NoExtendedPublicKey);
                    },
                };
                let sk = match &ti.xsk {
                    Some(x) => match child_secret_key(x.as_slice(), 0, dindex) {
                        Some(k) => Some(k),
                        None => {
                            return Err(KeyError::InvalidKey);
                        },
                    },
                    None => None,
                };
                let h = match external_address(vk.as_slice(), dindex) {
                    Some(h) => h,
                    None => {
                        return Err(KeyError::InvalidKey);
                    },
                };
                Some(TransparentAccountInfo {
                    index: dindex,
                    xsk: ti.xsk.clone(),
                    sk,
                    vk: ti.vk.clone(),
                    addr: TransparentAddress::PublicKeyHash(h),
                    change_index: ti.change_index,
                })
            },
            None => None,
        };
        let sapling = match &self.sapling {
            Some(si) => match sapling_address_at(si.vk.as_slice(), dindex) {
                Some(addr) => Some(SaplingAccountInfo { sk: si.sk.clone(), vk: si.vk.clone(), addr }),
                None => {
                    return Err(KeyError::InvalidDiversifierIndex);
                },
            },
            None => None,
        };
        let orchard = match &self.orchard {
            Some(oi) => match orchard_address_at(oi.vk.as_slice(), dindex) {
                Some(addr) => Some(OrchardAccountInfo { sk: oi.sk.clone(), vk: oi.vk.clone(), addr }),
                None => {
                    return Err(KeyError::InvalidKey);
                },
            },
            None => None,
        };
        Ok(AccountInfo {
            account: self.account,
            position: self.position,
            name: self.name.clone(),
            seed: self.seed.clone(),
            aindex: self.aindex,
            dindex,
            birth: self.birth,
            saved: self.saved,
            transparent,
            sapling,
            orchard,
        })
    }
}


// ---------------------------------------------------------------------------
// Backups and exported keys

/// The Sapling extended spending key `ssk` in text on the chain; `None`
/// where the bytes are no key.
pub uninterp spec fn sapling_sk_text(mainnet: bool, ssk: Seq<u8>) -> Option<Seq<char>>;

/// Encodes a Sapling extended spending key.
///
/// Reads the key with `ExtendedSpendingKey::from_bytes` (`None` where that
/// fails) and calls `zcash_keys::encoding::encode_extended_spending_key`
/// with the chain's prefix; the text depends on the chain and the bytes
/// alone.
#[verifier::external_body]
fn encode_sapling_sk(network: Network, ssk: &[u8]) -> (r: Option<String>)
    ensures
        crate::data::opt_str_view(r) == sapling_sk_text(network == Network::Main, ssk@),
{
    let hrp = match network {
        Network::Main => mainnet::HRP_SAPLING_EXTENDED_SPENDING_KEY,
        Network::Regtest => regtest_keys::HRP_SAPLING_EXTENDED_SPENDING_KEY,
    };
    Some(encode_extended_spending_key(hrp, &ExtendedSpendingKey::from_bytes(ssk).ok()?))
}

/// The bytes of the extended full viewing key that holds the Sapling
/// viewing key `vk` at depth 0: depth, parent tag, child index and chain
/// code all zero, then `vk`.
pub open spec fn extended_fvk_bytes(vk: Seq<u8>) -> Seq<u8> {
    Seq::new(41, |i: int| 0u8) + vk
}

/// The extended full viewing key, in bytes, of a Sapling viewing key.
pub fn to_extended_full_viewing_key(vk: &[u8]) -> (r: Vec<u8>)
    requires
        vk@.len() + 41 <= usize::MAX,
    ensures
        r@ == extended_fvk_bytes(vk@),
{
    let mut b: Vec<u8> = Vec::new();
    let mut i: usize = 0;
    while i < 41
        invariant
            i <= 41,
            b@ == Seq::new(i as nat, |j: int| 0u8),
        decreases 41 - i,
    {
        b.push(0);
        i += 1;
        proof {
            assert(b@ =~= Seq::new(i as nat, |j: int| 0u8));
        }
    }
    let mut k: usize = 0;
    while k < vk.len()
        invariant
            k <= vk@.len(),
            b@ == Seq::new(41, |j: int| 0u8) + vk@.take(k as int),
        decreases vk@.len() - k,
    {
        b.push(vk[k]);
        proof {
            assert(vk@.take(k + 1) =~= vk@.take(k as int).push(vk@[k as int]));
            assert(b@ =~= Seq::new(41, |j: int| 0u8) + vk@.take(k + 1));
        }
        k += 1;
    }
    proof {
        assert(vk@.take(vk@.len() as int) =~= vk@);
    }
    b
}

/// The Sapling extended full viewing key with the bytes `efvk` in text on
/// the chain; `None` where the bytes are no key.
pub uninterp spec fn sapling_efvk_text(mainnet: bool, efvk: Seq<u8>) -> Option<Seq<char>>;

/// Encodes a Sapling extended full viewing key.
///
/// Reads the key with `ExtendedFullViewingKey::read` (`None` where that
/// fails) and calls `zcash_keys::encoding::encode_extended_full_viewing_key`
/// with the chain's prefix; the text depends on the chain and the bytes
/// alone.
#[verifier::external_body]
fn encode_sapling_efvk(network: Network, efvk: &[u8]) -> (r: Option<String>)
    ensures
        crate::data::opt_str_view(r) == sapling_efvk_text(network == Network::Main, efvk@),
{
    let hrp = match network {
        Network::Main => mainnet::HRP_SAPLING_EXTENDED_FULL_VIEWING_KEY,
        Network::Regtest => regtest_keys::HRP_SAPLING_EXTENDED_FULL_VIEWING_KEY,
    };
    Some(encode_extended_full_viewing_key(hrp, &ExtendedFullViewingKey::read(efvk).ok()?))
}

/// The unified full viewing key (revision 0) with the transparent,
/// Sapling and Orchard viewing keys `t`, `s` and `o`, in text on the chain.
pub uninterp spec fn ufvk_text(mainnet: bool, t: Option<Seq<u8>>, s: Option<Seq<u8>>, o: Option<Seq<u8>>) -> Seq<char>;

/// Whether an optional key has `n` bytes, if it is there.
pub open spec fn sized(k: Option<Seq<u8>>, n: nat) -> bool {
    k matches Some(b) ==> b.len() == n
}

/// Encodes a unified full viewing key.
///
/// Puts the keys in `unified::Fvk` items (`P2pkh` of 65 bytes, `Sapling`
/// of 128, `Orchard` of 96; `None` where a key has another length) and
/// calls `<unified::Ufvk as Encoding>::try_from_items` with revision 0,
/// which the crate's source shows to succeed for these distinct items
/// exactly when one of them is shielded, then `Encoding::encode` for the
/// chain.
#[verifier::external_body]
fn encode_ufvk(network: Network, t: &Option<Vec<u8>>, s: &Option<Vec<u8>>, o: &Option<Vec<u8>>) -> (r: Option<String>)
    ensures
        r is Some <==> (sized(key_view(*t), 65) && sized(key_view(*s), 128) && sized(key_view(*o), 96)
            && (s is Some || o is Some)),
        r matches Some(x) ==> x@ == ufvk_text(network == Network::Main, key_view(*t), key_view(*s), key_view(*o)),
{
    let net = match network {
        Network::Main => NetworkType::Main,
        Network::Regtest => NetworkType::Regtest,
    };
    let mut items = vec![];
    for k in t { items.push(unified::Uitem::Data(unified::Fvk::P2pkh(k.as_slice().try_into().ok()?))); }
    for k in s { items.push(unified::Uitem::Data(unified::Fvk::Sapling(k.as_slice().try_into().ok()?))); }
    for k in o { items.push(unified::Uitem::Data(unified::Fvk::Orchard(k.as_slice().try_into().ok()?))); }
    unified::Ufvk::try_from_items(unified::Revision::R0, items).ok().map(|k| k.encode(&net))
}

/// The BIP-32 `xprv` text of the transparent account key `xsk` (its 74
/// bytes: depth, parent fingerprint, child number, chain code and the
/// 33-byte private key); `None` for another length.
pub uninterp spec fn xprv_text_of(xsk: Seq<u8>) -> Option<Seq<char>>;

/// The BIP-32 `xpub` text of an account public key with the attributes
/// `attrs` (depth, parent fingerprint, child number: 9 bytes) and the 65
/// bytes `vk` (chain code and compressed key); `None` for other lengths.
pub uninterp spec fn xpub_text_of(attrs: Seq<u8>, vk: Seq<u8>) -> Option<Seq<char>>;

/// Writes an extended private key in BIP-32 text.
///
/// Cuts the 74 bytes into `bip32::ExtendedKeyAttrs` (depth, parent
/// fingerprint, big-endian child number, chain code) and the key bytes,
/// and writes the `bip32::ExtendedKey` with `Prefix::XPRV` through its
/// `Display` (Base58Check); `None` for another length.
#[verifier::external_body]
fn encode_xprv(xsk: &[u8]) -> (r: Option<String>)
    ensures
        crate::data::opt_str_view(r) == xprv_text_of(xsk@),
{
    let k: &[u8; 74] = xsk.try_into().ok()?;
    let attrs = ExtendedKeyAttrs { depth: k[0], parent_fingerprint: k[1..5].try_into().ok()?,
        child_number: ChildNumber(u32::from_be_bytes(k[5..9].try_into().ok()?)), chain_code: k[9..41].try_into().ok()? };
    Some(ExtendedKey { prefix: Prefix::XPRV, attrs, key_bytes: k[41..74].try_into().ok()? }.to_string())
}

/// Writes an extended public key in BIP-32 text.
///
/// Builds `bip32::ExtendedKeyAttrs` from the 9 attribute bytes (depth,
/// parent fingerprint, big-endian child number) and the chain code of the
/// 65 key bytes, and writes the `bip32::ExtendedKey` with `Prefix::XPUB`
/// and the 33-byte compressed key through its `Display`; `None` for other
/// lengths.
#[verifier::external_body]
fn encode_xpub(attrs: &[u8], vk: &[u8]) -> (r: Option<String>)
    ensures
        crate::data::opt_str_view(r) == xpub_text_of(attrs@, vk@),
{
    let (a, k): (&[u8; 9], &[u8; 65]) = (attrs.try_into().ok()?, vk.try_into().ok()?);
    let attrs = ExtendedKeyAttrs { depth: a[0], parent_fingerprint: a[1..5].try_into().ok()?,
        child_number: ChildNumber(u32::from_be_bytes(a[5..9].try_into().ok()?)), chain_code: k[0..32].try_into().ok()? };
    Some(ExtendedKey { prefix: Prefix::XPUB, attrs, key_bytes: k[32..65].try_into().ok()? }.to_string())
}

/// Depth, parent fingerprint and child number of a transparent account
/// public key: those of its account key where there is one, else the
/// values that `AccountPubKey::deserialize` gives a key read from its 65
/// bytes (depth 3, fingerprint `ffffffff`, hardened child 0).
pub open spec fn xpub_attrs(xsk: Option<Seq<u8>>) -> Seq<u8> {
    match xsk {
        Some(k) => if k.len() >= 9 { k.take(9) } else { seq![3u8, 0xffu8, 0xffu8, 0xffu8, 0xffu8, 0x80u8, 0u8, 0u8, 0u8] },
        None => seq![3u8, 0xffu8, 0xffu8, 0xffu8, 0xffu8, 0x80u8, 0u8, 0u8, 0u8],
    }
}

/// The attributes of the `xpub` text of an account (see `xpub_attrs`).
fn xpub_attrs_of(xsk: &Option<Vec<u8>>) -> (r: Vec<u8>)
    ensures
        r@ == xpub_attrs(key_view(*xsk)),
{
    let mut t: Vec<u8> = Vec::new();
    match xsk {
        Some(k) => if k.len() >= 9 {
            let mut i: usize = 0;
            while i < 9
                invariant
                    i <= 9,
                    k@.len() >= 9,
                    t@ == k@.take(i as int),
                decreases 9 - i,
            {
                t.push(k[i]);
                proof {
                    assert(k@.take(i + 1) =~= k@.take(i as int).push(k@[i as int]));
                }
                i += 1;
            }
            return t;
        },
        None => {},
    }
    let dummy: [u8; 9] = [3, 0xff, 0xff, 0xff, 0xff, 0x80, 0, 0, 0];
    let mut i: usize = 0;
    while i < 9
        invariant
            i <= 9,
            t@ == dummy@.take(i as int),
        decreases 9 - i,
    {
        t.push(dummy[i]);
        proof {
            assert(dummy@.take(i + 1) =~= dummy@.take(i as int).push(dummy@[i as int]));
        }
        i += 1;
    }
    proof {
        assert(dummy@ =~= seq![3u8, 0xffu8, 0xffu8, 0xffu8, 0xffu8, 0x80u8, 0u8, 0u8, 0u8]);
        assert(dummy@.take(9) =~= dummy@);
    }
    t
}

/// What the backup of an account holds, on the chain of `network`.
pub open spec fn backup_of(network: Network, ai: AccountInfo, b: BackupT) -> bool {
    let m = network == Network::Main;
    &&& b.name matches Some(n) && n@ == ai.name@
    &&& crate::data::opt_str_view(b.seed) == crate::data::opt_str_view(ai.seed)
    &&& b.index == ai.aindex
    &&& b.birth == ai.birth
    &&& b.saved == ai.saved
    &&& crate::data::opt_str_view(b.sk) == match ai.sapling {
        Some(si) => match si.sk {
            Some(sk) => sapling_sk_text(m, sk@),
            None => None,
        },
        None => None,
    }
    &&& crate::data::opt_str_view(b.fvk) == match ai.sapling {
        Some(si) => sapling_efvk_text(m, extended_fvk_bytes(si.vk@)),
        None => None,
    }
    &&& crate::data::opt_str_view(b.uvk) == {
        let t = match ai.transparent {
            Some(ti) => key_view(ti.vk),
            None => None,
        };
        let s = match ai.sapling {
            Some(si) => Some(si.vk@),
            None => None,
        };
        let o = match ai.orchard {
            Some(oi) => Some(oi.vk@),
            None => None,
        };
        if (s is Some || o is Some) && sized(t, 65) && sized(s, 128) && sized(o, 96) {
            Some(ufvk_text(m, t, s, o))
        } else {
            None
        }
    }
    &&& crate::data::opt_str_view(b.tsk) == match ai.transparent {
        Some(ti) => match ti.sk {
            Some(sk) => Some(base58check_of(0x80, sk@ + seq![1u8])),
            None => None,
        },
        None => None,
    }
    &&& crate::data::opt_str_view(b.txsk) == match ai.transparent {
        Some(ti) => match ti.xsk {
            Some(x) => xprv_text_of(x@),
            None => None,
        },
        None => None,
    }
    &&& crate::data::opt_str_view(b.tvk) == match ai.transparent {
        Some(ti) => match ti.vk {
            Some(vk) => xpub_text_of(xpub_attrs(key_view(ti.xsk)), vk@),
            None => None,
        },
        None => None,
    }
    &&& crate::data::opt_str_view(b.taddr) == match ai.transparent {
        Some(ti) => Some(crate::address::transparent_text(network, ti.addr)),
        None => None,
    }
}

/// Whether the keys of the account are keys the encoders accept on the
/// chain: its Sapling spending key and extended full viewing key, and
/// viewing keys of the sizes of a unified viewing key (65 bytes
/// transparent, 128 Sapling, 96 Orchard).
pub open spec fn keys_encodable(network: Network, ai: AccountInfo) -> bool {
    let m = network == Network::Main;
    &&& ai.sapling matches Some(si) ==> {
        &&& sapling_efvk_text(m, extended_fvk_bytes(si.vk@)) is Some
        &&& si.vk@.len() == 128
        &&& (si.sk matches Some(sk) ==> sapling_sk_text(m, sk@) is Some)
    }
    &&& ai.orchard matches Some(oi) ==> oi.vk@.len() == 96
    &&& ai.transparent matches Some(ti) ==> (ti.vk matches Some(vk) ==> vk@.len() == 65)
}

impl AccountInfo {
    /// The backup of the account: its name, seed and indexes, and its keys
    /// and transparent address in text.
    pub fn to_backup(&self, network: &Network) -> (r: BackupT)
        requires
            self.sapling matches Some(si) ==> si.vk@.len() + 41 <= usize::MAX,
        ensures
            backup_of(*network, *self, r),
            keys_encodable(*network, *self) ==> {
                &&& r.sk is Some <==> (self.sapling matches Some(si) && si.sk is Some)
                &&& r.fvk is Some <==> self.sapling is Some
                &&& r.uvk is Some <==> (self.sapling is Some || self.orchard is Some)
                &&& r.taddr is Some <==> self.transparent is Some
                &&& r.tsk is Some <==> (self.transparent matches Some(ti) && ti.sk is Some)
            },
    {
        let sk = match &self.sapling {
            Some(si) => match &si.sk {
                Some(sk) => encode_sapling_sk(*network, sk.as_slice()),
                None => None,
            },
            None => None,
        };
        let fvk = match &self.sapling {
            Some(si) => {
                let efvk = to_extended_full_viewing_key(si.vk.as_slice());
                encode_sapling_efvk(*network, efvk.as_slice())
            },
            None => None,
        };
        let tvk: Option<Vec<u8>> = match &self.transparent {
            Some(ti) => ti.vk.clone(),
            None => None,
        };
        let svk: Option<Vec<u8>> = match &self.sapling {
            Some(si) => Some(si.vk.clone()),
            None => None,
        };
        let ovk: Option<Vec<u8>> = match &self.orchard {
            Some(oi) => Some(oi.vk.clone()),
            None => None,
        };
        let uvk = if svk.is_some() || ovk.is_some() {
            encode_ufvk(*network, &tvk, &svk, &ovk)
        } else {
            None
        };
        let (tsk, txsk, tvk_text, taddr) = match &self.transparent {
            Some(ti) => {
                let tsk = match &ti.sk {
                    Some(sk) => Some(crate::encoding::export_sk_bip38(sk)),
                    None => None,
                };
                let txsk = match &ti.xsk {
                    Some(x) => encode_xprv(x.as_slice()),
                    None => None,
                };
                let tvk_text = match &ti.vk {
                    Some(vk) => {
                        let attrs = xpub_attrs_of(&ti.xsk);
                        encode_xpub(attrs.as_slice(), vk.as_slice())
                    },
                    None => None,
                };
                (tsk, txsk, tvk_text, Some(crate::address::encode_transparent(*network, &ti.addr)))
            },
            None => (None, None, None, None),
        };
        BackupT {
            name: Some(self.name.clone()),
            seed: self.seed.clone(),
            index: self.aindex,
            sk,
            fvk,
            uvk,
            tsk,
            txsk,
            tvk: tvk_text,
            taddr,
            birth: self.birth,
            saved: self.saved,
        }
    }
}


/// The Sapling address that ZIP-32 keys show: the default address of the
/// viewing key `vk`, or the one at `addr_index`.
pub open spec fn zip32_sapling_address(vk: Seq<u8>, addr_index: u32, use_default: bool) -> Option<Seq<u8>> {
    if use_default {
        match sapling_next_address(vk, 0) {
            Some((_, a)) => Some(a),
            None => None,
        }
    } else {
        sapling_address_of(vk, addr_index)
    }
}

/// What the ZIP-32 keys of account `acc_index` at address index
/// `addr_index` hold, for the keys `k` of the account, in text on the
/// chain of `network`.
pub open spec fn zip32_keys_of(network: Network, k: KeysView, acc_index: u32, addr_index: u32, use_default: bool, z: ZIP32KeysT) -> bool {
    let m = network == Network::Main;
    &&& z.aindex == acc_index
    &&& z.addr_index == addr_index
    &&& crate::data::opt_str_view(z.tsk) == match k.txsk {
        Some(x) => match transparent_sk_at(x, 0, addr_index) {
            Some(sk) => Some(base58check_of(0x80, sk + seq![1u8])),
            None => None,
        },
        None => None,
    }
    &&& crate::data::opt_str_view(z.taddress) == match k.tvk {
        Some(v) => match external_taddr(v, addr_index) {
            Some(h) => Some(crate::encoding::p2pkh_address_text(m, h)),
            None => None,
        },
        None => None,
    }
    &&& crate::data::opt_str_view(z.zsk) == match k.ssk {
        Some(sk) => sapling_sk_text(m, sk),
        None => None,
    }
    &&& crate::data::opt_str_view(z.zaddress) == match k.svk {
        Some(v) => match zip32_sapling_address(v, addr_index, use_default) {
            Some(a) => Some(crate::encoding::sapling_address_text(m, a)),
            None => None,
        },
        None => None,
    }
}

/// The keys and addresses, in text, of account `acc_index` of a seed
/// phrase at address index `addr_index`: the transparent secret key and
/// address, the Sapling extended spending key and the default Sapling
/// address (`use_default`) or the one at `addr_index`.
pub fn derive_zip32_keys(network: &Network, seed: &str, acc_index: u32, addr_index: u32, use_default: bool) -> (r: Result<ZIP32KeysT, KeyError>)
    requires
        acc_index <= MAX_INDEX,
        addr_index <= MAX_INDEX,
    ensures
        match seed_account_keys(*network == Network::Main, seed@, acc_index) {
            Some(k) => r matches Ok(z) && zip32_keys_of(*network, k, acc_index, addr_index, use_default, z),
            None => r == Err::<ZIP32KeysT, KeyError>(KeyError::InvalidKey),
        },
{
    let ak = match AccountKeys::from_seed(network, seed, acc_index) {
        Some(ak) => ak,
        None => {
            return Err(KeyError::InvalidKey);
        },
    };
    let tsk = match &ak.txsk {
        Some(x) => match child_secret_key(x.as_slice(), 0, addr_index) {
            Some(sk) => Some(crate::encoding::export_sk_bip38(&sk)),
            None => None,
        },
        None => None,
    };
    let taddress = match &ak.tvk {
        Some(v) => match external_address(v.as_slice(), addr_index) {
            Some(h) => Some(crate::encoding::encode_p2pkh(*network, &h)),
            None => None,
        },
        None => None,
    };
    let zsk = match &ak.ssk {
        Some(sk) => encode_sapling_sk(*network, sk.as_slice()),
        None => None,
    };
    let zaddress = match &ak.svk {
        Some(v) => {
            let a = if use_default {
                match sapling_find_address(v.as_slice(), 0) {
                    Some((_, a)) => Some(a),
                    None => None,
                }
            } else {
                sapling_address_at(v.as_slice(), addr_index)
            };
            match a {
                Some(a) => Some(crate::encoding::encode_sapling(*network, &a)),
                None => None,
            }
        },
        None => None,
    };
    Ok(ZIP32KeysT { aindex: acc_index, addr_index, tsk, taddress, zsk, zaddress })
}


/// The transparent keys of an account moved to the address index
/// `addr_index`: the secret key of the scope `external` at that index, and
/// the receiving address there.
pub open spec fn moved_transparent(ti: TransparentAccountInfo, external: u32, addr_index: u32) -> Result<(Option<Seq<u8>>, Seq<u8>), KeyError> {
    let sk = match ti.xsk {
        Some(x) => match transparent_sk_at(x@, external, addr_index) {
            Some(k) => Ok(Some(k)),
            None => Err(KeyError::InvalidKey),
        },
        None => Ok(None),
    };
    match sk {
        Err(e) => Err(e),
        Ok(sk) => match ti.vk {
            None => Err(KeyError::NoExtendedPublicKey),
            Some(vk) => match external_taddr(vk@, addr_index) {
                Some(h) => Ok((sk, h)),
                None => Err(KeyError::InvalidKey),
            },
        },
    }
}

impl TransparentAccountInfo {
    /// The transparent keys at another address index: the secret key in
    /// the scope `external` and the receiving address at `addr_index`.
    pub fn new_address(&self, external: u32, addr_index: u32) -> (r: Result<TransparentAccountInfo, KeyError>)
        requires
            external <= MAX_INDEX,
            addr_index <= MAX_INDEX,
        ensures
            match moved_transparent(*self, external, addr_index) {
                Ok((sk, h)) => r matches Ok(t) && {
                    &&& t.index == addr_index
                    &&& t.change_index == self.change_index
                    &&& key_view(t.xsk) == key_view(self.xsk)
                    &&& key_view(t.vk) == key_view(self.vk)
                    &&& addr_view(t.sk) == sk
                    &&& t.addr matches TransparentAddress::PublicKeyHash(x) && x@ == h
                },
                Err(e) => r == Err::<TransparentAccountInfo, KeyError>(e),
            },
    {
        let sk = match &self.xsk {
            Some(x) => match child_secret_key(x.as_slice(), external, addr_index) {
                Some(k) => Some(k),
                None => {
                    return Err(KeyError::InvalidKey);
                },
            },
            None => None,
        };
        let h = match &self.vk {
            None => {
                return Err(KeyError::NoExtendedPublicKey);
            },
            Some(vk) => match external_address(vk.as_slice(), addr_index) {
                Some(h) => h,
                None => {
                    return Err(KeyError::InvalidKey);
                },
            },
        };
        Ok(TransparentAccountInfo {
            index: addr_index,
            xsk: self.xsk.clone(),
            sk,
            vk: self.vk.clone(),
            addr: TransparentAddress::PublicKeyHash(h),
            change_index: self.change_index,
        })
    }
}


/// Whether `data` is a transparent account public key: 65 bytes, a chain
/// code and a valid compressed key.
pub uninterp spec fn account_pubkey_valid(data: Seq<u8>) -> bool;

/// Checks a transparent account public key.
///
/// Calls `AccountPubKey::deserialize` on the 65 bytes (`false` for
/// another length), which reads the chain code and parses the key with
/// `secp256k1::PublicKey::from_slice`.
#[verifier::external_body]
fn check_account_pubkey(data: &[u8]) -> (r: bool)
    ensures
        r == account_pubkey_valid(data@),
        r ==> data@.len() == 65,
{
    match <&[u8; 65]>::try_from(data) {
        Ok(d) => AccountPubKey::deserialize(d).is_ok(),
        Err(_) => false,
    }
}

/// Whether `hrp` (bytes of a Bech32 prefix) spells `text`.
fn hrp_is(hrp: &Vec<u8>, text: &[u8]) -> (r: bool)
    ensures
        r == (hrp@ == text@),
{
    if hrp.len() != text.len() {
        return false;
    }
    let mut i: usize = 0;
    while i < hrp.len()
        invariant
            i <= hrp@.len(),
            hrp@.len() == text@.len(),
            forall|j: int| 0 <= j < i ==> hrp@[j] == text@[j],
        decreases hrp@.len() - i,
    {
        if hrp[i] != text[i] {
            return false;
        }
        i += 1;
    }
    proof {
        assert(hrp@ =~= text@);
    }
    true
}

/// The bytes of "txprv".
pub open spec fn txprv_hrp() -> Seq<u8> {
    seq![0x74u8, 0x78u8, 0x70u8, 0x72u8, 0x76u8]
}

/// The bytes of "txpub".
pub open spec fn txpub_hrp() -> Seq<u8> {
    seq![0x74u8, 0x78u8, 0x70u8, 0x75u8, 0x62u8]
}

/// Reads a transparent account key written in Bech32 behind "txprv".
pub fn decode_extended_private_key(key: &str) -> (r: Result<Vec<u8>, KeyError>)
    ensures
        match bech32_decoded(key@) {
            Some((hrp, data)) => if hrp == txprv_hrp() && transparent_pubkey_of(data) is Some {
                r matches Ok(k) && k@ == data
            } else {
                r == Err::<Vec<u8>, KeyError>(KeyError::InvalidKey)
            },
            None => r == Err::<Vec<u8>, KeyError>(KeyError::InvalidKey),
        },
{
    let (hrp, data) = match crate::address::bech32_decode(key) {
        Some(d) => d,
        None => {
            return Err(KeyError::InvalidKey);
        },
    };
    let prefix: [u8; 5] = [0x74, 0x78, 0x70, 0x72, 0x76];
    proof {
        assert(prefix@ =~= txprv_hrp());
    }
    if !hrp_is(&hrp, prefix.as_slice()) {
        return Err(KeyError::InvalidKey);
    }
    match account_pubkey(data.as_slice()) {
        Some(_) => Ok(data),
        None => Err(KeyError::InvalidKey),
    }
}

/// Reads a transparent account public key written in Bech32 behind
/// "txpub".
pub fn decode_extended_public_key(key: &str) -> (r: Result<Vec<u8>, KeyError>)
    ensures
        match bech32_decoded(key@) {
            Some((hrp, data)) => if hrp == txpub_hrp() && account_pubkey_valid(data) {
                r matches Ok(k) && k@ == data
            } else {
                r == Err::<Vec<u8>, KeyError>(KeyError::InvalidKey)
            },
            None => r == Err::<Vec<u8>, KeyError>(KeyError::InvalidKey),
        },
{
    let (hrp, data) = match crate::address::bech32_decode(key) {
        Some(d) => d,
        None => {
            return Err(KeyError::InvalidKey);
        },
    };
    let prefix: [u8; 5] = [0x74, 0x78, 0x70, 0x75, 0x62];
    proof {
        assert(prefix@ =~= txpub_hrp());
    }
    if !hrp_is(&hrp, prefix.as_slice()) {
        return Err(KeyError::InvalidKey);
    }
    if check_account_pubkey(data.as_slice()) {
        Ok(data)
    } else {
        Err(KeyError::InvalidKey)
    }
}


/// The 24-word English BIP-39 phrase of 32 bytes of entropy.
pub uninterp spec fn entropy_phrase(entropy: Seq<u8>) -> Seq<char>;

/// The mnemonic phrase of 32 bytes of entropy.
///
/// Calls `bip39::Mnemonic::from_entropy` with the English word list, which
/// accepts 32 bytes and, as the crate's source shows, appends the checksum
/// that `Mnemonic::from_phrase` checks, so that the phrase it gives back
/// with `into_phrase` is a valid mnemonic.
#[verifier::external_body]
fn mnemonic_of_entropy(entropy: &[u8; 32]) -> (r: String)
    ensures
        r@ == entropy_phrase(entropy@),
        bip39_phrase_ok(r@),
{
    Mnemonic::from_entropy(entropy, Language::English).unwrap().into_phrase()
}

/// 32 random bytes.
///
/// Calls `RngCore::fill_bytes` on `rand::rngs::OsRng`, the operating
/// system's generator; nothing is stated of the bytes.
#[verifier::external_body]
fn os_entropy() -> (r: [u8; 32]) {
    let mut e = [0u8; 32];
    OsRng.fill_bytes(&mut e);
    e
}

/// A new seed phrase of 24 words for the 32 bytes of entropy drawn by the
/// caller.
pub fn generate_random_mnemonic_phrase(entropy: &[u8; 32]) -> (r: String)
    ensures
        r@ == entropy_phrase(entropy@),
        bip39_phrase_ok(r@),
{
    mnemonic_of_entropy(entropy)
}

/// A new seed phrase of 24 words from the operating system's random
/// generator.
pub fn generate_random_mnemonic_phrase_os_rng() -> (r: String)
    ensures
        exists|e: Seq<u8>| e.len() == 32 && r@ == entropy_phrase(e),
        bip39_phrase_ok(r@),
{
    let e = os_entropy();
    let r = generate_random_mnemonic_phrase(&e);
    assert(e@.len() == 32);
    r
}


/// The Sapling receiver of the first index from `j` on where the Sapling
/// keys (if selected) give one, with that index.
pub open spec fn sapling_from(s: Option<SaplingAccountInfo>, j: u32) -> Option<(u32, Option<Seq<u8>>)> {
    match s {
        Some(si) => match sapling_next_address(si.vk@, j) {
            Some((i, a)) => Some((i, Some(a))),
            None => None,
        },
        None => Some((j, None)),
    }
}

/// The Orchard receiver at index `j` of the Orchard keys (if selected);
/// `Err` where they give none.
pub open spec fn orchard_at(o: Option<OrchardAccountInfo>, j: u32) -> Result<Option<Seq<u8>>, AddressError> {
    match o {
        Some(oi) => match orchard_address_of(oi.vk@, j) {
            Some(a) => Ok(Some(a)),
            None => Err(AddressError::NoReceiver),
        },
        None => Ok(None),
    }
}

/// The transparent receiver (public key hash) at index `j` of the
/// transparent keys (if selected); `Err` without an account public key or
/// where it gives none.
pub open spec fn transparent_at(t: Option<TransparentAccountInfo>, j: u32) -> Result<Option<Seq<u8>>, AddressError> {
    match t {
        Some(ti) => match ti.vk {
            Some(vk) => if j <= MAX_INDEX {
                match external_taddr(vk@, j) {
                    Some(h) => Ok(Some(h)),
                    None => Err(AddressError::NoReceiver),
                }
            } else {
                Err(AddressError::NoReceiver)
            },
            None => Err(AddressError::NoReceiver),
        },
        None => Ok(None),
    }
}

/// The items of a unified address with these receivers: Orchard, Sapling,
/// then a transparent key hash.
pub open spec fn receiver_items(t: Option<Seq<u8>>, s: Option<Seq<u8>>, o: Option<Seq<u8>>) -> Seq<(u32, Seq<u8>)> {
    (match o { Some(a) => seq![(3u32, a)], None => Seq::empty() })
        + (match s { Some(a) => seq![(2u32, a)], None => Seq::empty() })
        + (match t { Some(h) => seq![(0u32, h)], None => Seq::empty() })
}

/// The address of an account at the diversifier index `addr_index` with
/// the receivers of the pools in `pools`: a transparent address where
/// only that pool is selected, else the unified address of the first
/// index from `addr_index` on where every selected pool has a receiver.
pub open spec fn diversified_address(network: Network, ai: AccountInfo, addr_index: u32, pools: u8) -> Result<Seq<char>, AddressError> {
    let m = network == Network::Main;
    let t = if pools & 1 != 0 { ai.transparent } else { None };
    let s = if pools & 2 != 0 { ai.sapling } else { None };
    let o = if pools & 4 != 0 { ai.orchard } else { None };
    if t is None && s is None && o is None {
        Err(AddressError::NoReceiver)
    } else if s is None && o is None {
        match transparent_at(t, addr_index) {
            Ok(Some(h)) => Ok(crate::encoding::p2pkh_address_text(m, h)),
            _ => Err(AddressError::NoReceiver),
        }
    } else {
        match sapling_from(s, addr_index) {
            None => Err(AddressError::NoReceiver),
            Some((j, sa)) => match (orchard_at(o, j), transparent_at(t, j)) {
                (Ok(oa), Ok(ta)) => Ok(crate::encoding::unified_address_text(m, receiver_items(ta, sa, oa))),
                _ => Err(AddressError::NoReceiver),
            },
        }
    }
}

/// The address of the account at the diversifier index `addr_index` with
/// the receivers of the pools `pools` (see `diversified_address`).
pub fn get_diversified_address(network: &Network, ai: &AccountInfo, addr_index: u32, pools: PoolMask) -> (r: Result<String, AddressError>)
    ensures
        match diversified_address(*network, *ai, addr_index, pools.0) {
            Ok(a) => r matches Ok(x) && x@ == a,
            Err(e) => r == Err::<String, AddressError>(e),
        },
{
    let p = pools.0;
    let t = if p & 1 != 0 { &ai.transparent } else { &None };
    let s = if p & 2 != 0 { &ai.sapling } else { &None };
    let o = if p & 4 != 0 { &ai.orchard } else { &None };
    if t.is_none() && s.is_none() && o.is_none() {
        return Err(AddressError::NoReceiver);
    }
    if s.is_none() && o.is_none() {
        let h = match transparent_receiver_at(t, addr_index) {
            Ok(Some(h)) => h,
            _ => {
                return Err(AddressError::NoReceiver);
            },
        };
        return Ok(crate::encoding::encode_p2pkh(*network, &h));
    }
    let (j, sa) = match s {
        Some(si) => match sapling_find_address(si.vk.as_slice(), addr_index) {
            Some((i, a)) => (i, Some(a)),
            None => {
                return Err(AddressError::NoReceiver);
            },
        },
        None => (addr_index, None),
    };
    let oa = match o {
        Some(oi) => match orchard_address_at(oi.vk.as_slice(), j) {
            Some(a) => Some(a),
            None => {
                return Err(AddressError::NoReceiver);
            },
        },
        None => None,
    };
    let ta = match transparent_receiver_at(t, j) {
        Ok(x) => x,
        Err(e) => {
            return Err(e);
        },
    };
    let mut items: Vec<crate::encoding::Receiver> = Vec::new();
    if let Some(a) = &oa {
        items.push(crate::encoding::Receiver::Orchard(*a));
    }
    if let Some(a) = &sa {
        items.push(crate::encoding::Receiver::Sapling(*a));
    }
    if let Some(h) = &ta {
        items.push(crate::encoding::Receiver::P2pkh(*h));
    }
    proof {
        assert(items@.map_values(|i: crate::encoding::Receiver| crate::encoding::receiver_item(i))
            =~= receiver_items(addr_view(ta), addr_view(sa), addr_view(oa)));
        assert(crate::encoding::distinct_types(items@));
        assert(!crate::encoding::is_transparent_receiver(items@[0]));
        assert(crate::encoding::has_shielded(items@));
    }
    match crate::encoding::encode_unified(*network, &items) {
        Some(x) => Ok(x),
        None => Err(AddressError::NoReceiver),
    }
}

/// The transparent receiver at index `j` of selected transparent keys.
fn transparent_receiver_at(t: &Option<TransparentAccountInfo>, j: u32) -> (r: Result<Option<[u8; 20]>, AddressError>)
    ensures
        match transparent_at(*t, j) {
            Ok(h) => r matches Ok(x) && addr_view(x) == h,
            Err(e) => r == Err::<Option<[u8; 20]>, AddressError>(e),
        },
{
    match t {
        Some(ti) => match &ti.vk {
            Some(vk) => {
                if j > MAX_INDEX {
                    return Err(AddressError::NoReceiver);
                }
                match external_address(vk.as_slice(), j) {
                    Some(h) => Ok(Some(h)),
                    None => Err(AddressError::NoReceiver),
                }
            },
            None => Err(AddressError::NoReceiver),
        },
        None => Ok(None),
    }
}


/// An account as the wallet stores it: its name, seed and indexes, the
/// transparent address and keys in text (the account key and public key in
/// bytes), the Sapling keys and address in text, and the Orchard keys in
/// bytes.
#[derive(Clone, Debug)]
pub struct AccountRow {
    pub account: u32,
    pub position: u32,
    pub name: String,
    pub seed: Option<String>,
    pub aindex: u32,
    pub dindex: u32,
    pub birth: u32,
    pub saved: Option<bool>,
    pub taddr: Option<String>,
    pub tidx: u32,
    pub tsk: Option<String>,
    pub txsk: Option<Vec<u8>>,
    pub tvk: Option<Vec<u8>>,
    pub tchange: Option<u32>,
    pub saddr: Option<String>,
    pub ssk: Option<String>,
    pub svk: Option<String>,
    pub osk: Option<Vec<u8>>,
    pub ovk: Option<Vec<u8>>,
}

/// Whether every stored key and address of a row decodes on the chain: a
/// transparent address (and its exported secret key), a Sapling address
/// with its viewing key (and its spending key), an Orchard viewing key
/// (and its spending key).
pub open spec fn row_decodes(network: Network, row: AccountRow) -> bool {
    let m = network == Network::Main;
    &&& row.taddr matches Some(t) ==> {
        &&& crate::address::decoded_address(m, t@) matches Some(crate::address::RecipientAddress::Transparent(_))
        &&& row.tsk matches Some(k) ==> imported_sk(k@) is Some
    }
    &&& row.saddr matches Some(a) ==> {
        &&& crate::address::decoded_address(m, a@) matches Some(crate::address::RecipientAddress::Sapling(_))
        &&& row.svk matches Some(v) && decoded_sapling_vk(m, v@) is Some
        &&& row.ssk matches Some(k) ==> decoded_sapling_sk(m, k@) is Some
    }
    &&& row.ovk matches Some(v) ==> {
        &&& orchard_address_of(v@, 0) is Some
        &&& row.osk matches Some(k) ==> orchard_vk_of(k@) is Some
    }
}

/// Whether `ai` is the account that a row whose keys decode stores.
pub open spec fn account_of_row(network: Network, row: AccountRow, ai: AccountInfo) -> bool {
    let m = network == Network::Main;
    &&& ai.account == row.account
    &&& ai.position == row.position
    &&& ai.name@ == row.name@
    &&& crate::data::opt_str_view(ai.seed) == crate::data::opt_str_view(row.seed)
    &&& ai.aindex == row.aindex
    &&& ai.dindex == row.dindex
    &&& ai.birth == row.birth
    &&& ai.saved == (row.saved == Some(true))
    &&& match row.taddr {
        None => ai.transparent is None,
        Some(t) => ai.transparent matches Some(ti) && {
            &&& crate::address::decoded_address(m, t@) == Some(crate::address::RecipientAddress::Transparent(ti.addr))
            &&& ti.index == row.tidx
            &&& addr_view(ti.sk) == match row.tsk {
                Some(k) => imported_sk(k@),
                None => None,
            }
            &&& key_view(ti.xsk) == key_view(row.txsk)
            &&& key_view(ti.vk) == key_view(row.tvk)
            &&& ti.change_index == row.tchange
        },
    }
    &&& match row.saddr {
        None => ai.sapling is None,
        Some(a) => ai.sapling matches Some(si) && {
            &&& crate::address::decoded_address(m, a@) == Some(crate::address::RecipientAddress::Sapling(si.addr))
            &&& Some(si.vk@) == decoded_sapling_vk(m, row.svk->0@)
            &&& key_view(si.sk) == match row.ssk {
                Some(k) => decoded_sapling_sk(m, k@),
                None => None,
            }
        },
    }
    &&& match row.ovk {
        None => ai.orchard is None,
        Some(v) => ai.orchard matches Some(oi) && {
            &&& oi.vk@ == v@
            &&& orchard_address_of(v@, 0) == Some(oi.addr@)
            &&& key_view(oi.sk) == key_view(row.osk)
        },
    }
}

/// The account that a stored row holds; `InvalidKey` where one of its keys
/// or addresses does not decode.
pub fn account_info_from_row(network: &Network, row: &AccountRow) -> (r: Result<AccountInfo, KeyError>)
    ensures
        r is Ok <==> row_decodes(*network, *row),
        match r {
            Ok(ai) => account_of_row(*network, *row, ai),
            Err(e) => e == KeyError::InvalidKey,
        },
{
    let transparent = match &row.taddr {
        None => None,
        Some(t) => {
            let addr = match crate::address::decode_recipient(*network, t.as_str()) {
                Ok(crate::address::RecipientAddress::Transparent(a)) => a,
                _ => {
                    return Err(KeyError::InvalidKey);
                },
            };
            let sk = match &row.tsk {
                Some(k) => match import_sk_bip38(k.as_str()) {
                    Some(sk) => Some(sk),
                    None => {
                        return Err(KeyError::InvalidKey);
                    },
                },
                None => None,
            };
            Some(TransparentAccountInfo {
                index: row.tidx,
                xsk: row.txsk.clone(),
                sk,
                vk: row.tvk.clone(),
                addr,
                change_index: row.tchange,
            })
        },
    };
    let sapling = match &row.saddr {
        None => None,
        Some(a) => {
            let addr = match crate::address::decode_recipient(*network, a.as_str()) {
                Ok(crate::address::RecipientAddress::Sapling(x)) => x,
                _ => {
                    return Err(KeyError::InvalidKey);
                },
            };
            let vk = match &row.svk {
                Some(v) => match decode_sapling_vk(*network, v.as_str()) {
                    Some(vk) => vk,
                    None => {
                        return Err(KeyError::InvalidKey);
                    },
                },
                None => {
                    return Err(KeyError::InvalidKey);
                },
            };
            let sk = match &row.ssk {
                Some(k) => match decode_sapling_sk(*network, k.as_str()) {
                    Some(sk) => Some(sk),
                    None => {
                        return Err(KeyError::InvalidKey);
                    },
                },
                None => None,
            };
            Some(SaplingAccountInfo { sk, vk, addr })
        },
    };
    let orchard = match &row.ovk {
        None => None,
        Some(v) => {
            let addr = match orchard_address_at(v.as_slice(), 0) {
                Some(x) => x,
                None => {
                    return Err(KeyError::InvalidKey);
                },
            };
            let sk = match &row.osk {
                Some(k) => {
                    if orchard_viewing_key(k.as_slice()).is_none() {
                        return Err(KeyError::InvalidKey);
                    }
                    Some(k.clone())
                },
                None => None,
            };
            Some(OrchardAccountInfo { sk, vk: v.clone(), addr })
        },
    };
    let saved = match row.saved {
        Some(b) => b,
        None => false,
    };
    Ok(AccountInfo {
        account: row.account,
        position: row.position,
        name: row.name.clone(),
        seed: row.seed.clone(),
        aindex: row.aindex,
        dindex: row.dindex,
        birth: row.birth,
        saved,
        transparent,
        sapling,
        orchard,
    })
}

} // verus!
