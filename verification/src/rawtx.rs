//! Reading a raw transaction for an account: its transparent inputs and
//! outputs matched against the account's coins and addresses, its shielded
//! spends matched against the account's notes, and its shielded outputs
//! decrypted with the account's viewing keys.
use vstd::prelude::*;

use orchard::keys::{FullViewingKey as OrchardFvk, PreparedIncomingViewingKey as OrchardIvk, Scope as OrchardScope};
use orchard::note_encryption::OrchardDomain;
use sapling_crypto::keys::PreparedIncomingViewingKey as SaplingIvk;
use sapling_crypto::note_encryption::{try_sapling_note_decryption, try_sapling_output_recovery, Zip212Enforcement};
use sapling_crypto::zip32::DiversifiableFullViewingKey;
use zcash_note_encryption::try_note_decryption;
use zcash_primitives::transaction::components::sapling::zip212_enforcement;
use zcash_primitives::transaction::Transaction;
use zcash_protocol::consensus::{BlockHeight, BranchId, MainNetwork};
use zcash_transparent::address::TransparentAddress as ZTransparentAddress;
use zip32::Scope;

use crate::account::AccountInfo;
use crate::address::{encode_transparent, transparent_text, TransparentAddress};
use crate::chain::{regtest, Network};
use crate::pay::UTXO;
use crate::data::opt_str_view;
use crate::txdetails::{
    address_index, lemma_sum_prefix, sin_value, sout_value, sum_of, tin_value, tout_value, transparent_inputs, transparent_outputs,
    tx_value_spec, utxo_index, values_bounded, CompressedMemo, FullPlainNote, OutPoint, PlainNote, ShieldedInput, ShieldedOutput,
    TransactionDetails, TransparentInput, TransparentNote, TransparentOutput, TxOut2,
};


verus! {

/// The consensus branch id of the chain at `height`: that of the last
/// network upgrade active there (none before Overwinter). On the main
/// chain the upgrades activate at their published heights; on the local
/// test chain every upgrade up to NU5 activates at height 1 and no later
/// one does.
pub open spec fn branch_of(mainnet: bool, height: u32) -> u32 {
    if mainnet {
        if height >= 3_543_405 { 0x7719_0ad9 }
        else if height >= 3_428_143 { 0x37a5_165b }
        else if height >= 3_364_600 { 0x5437_f330 }
        else if height >= 3_146_400 { 0x4dec_4df0 }
        else if height >= 2_726_400 { 0xc8e7_1055 }
        else if height >= 1_687_104 { 0xc2d6_d0b4 }
        else if height >= 1_046_400 { 0xe9ff_75a6 }
        else if height >= 903_000 { 0xf5b9_230b }
        else if height >= 653_600 { 0x2bb4_0e60 }
        else if height >= 419_200 { 0x76b8_09bb }
        else if height >= 347_500 { 0x5ba8_1b19 }
        else { 0 }
    } else if height >= 1 {
        0xc2d6_d0b4
    } else {
        0
    }
}

/// The ZIP-212 rule for note plaintexts at `height`: 0 off before Canopy,
/// 1 in the grace period of 32256 blocks from Canopy's activation, 2 on
/// after it. Canopy activates at 1046400 on the main chain and at 1 on the
/// local test chain.
pub open spec fn zip212_of(mainnet: bool, height: u32) -> u8 {
    let canopy: int = if mainnet { 1_046_400 } else { 1 };
    if height < canopy {
        0
    } else if height < canopy + 32256 {
        1
    } else {
        2
    }
}

/// The consensus branch at a height.
///
/// Calls `BranchId::for_height` with the chain's parameters (the
/// activation heights of `MainNetwork`, or those of `regtest`); the branch
/// comes out as its 32-bit id, as `From<BranchId> for u32` lists them.
#[verifier::external_body]
fn branch_id(network: Network, height: u32) -> (r: u32)
    ensures
        r == branch_of(network == Network::Main, height),
{
    let h = BlockHeight::from_u32(height);
    match network {
        Network::Main => u32::from(BranchId::for_height(&MainNetwork, h)),
        Network::Regtest => u32::from(BranchId::for_height(&regtest(), h)),
    }
}

/// The ZIP-212 rule at a height.
///
/// Calls `zcash_primitives::transaction::components::sapling::zip212_enforcement`
/// with the chain's parameters, which compares the height with Canopy's
/// activation and the end of `ZIP212_GRACE_PERIOD` after it; its three
/// variants come out as 0, 1 and 2.
#[verifier::external_body]
fn zip212_mode(network: Network, height: u32) -> (r: u8)
    ensures
        r == zip212_of(network == Network::Main, height),
        r <= 2,
{
    let h = BlockHeight::from_u32(height);
    let z = match network {
        Network::Main => zip212_enforcement(&MainNetwork, h),
        Network::Regtest => zip212_enforcement(&regtest(), h),
    };
    match z {
        Zip212Enforcement::Off => 0,
        Zip212Enforcement::GracePeriod => 1,
        Zip212Enforcement::On => 2,
    }
}

/// The id of the raw transaction `raw` read under the consensus branch
/// `branch`, and the outputs its transparent inputs spend.
pub uninterp spec fn tx_inputs_of(branch: u32, raw: Seq<u8>) -> Option<(crate::witness::Hash, Seq<OutPoint>)>;

/// The address (where its script has one) and value of each transparent
/// output of the raw transaction `raw` read under the branch `branch`.
pub uninterp spec fn tx_outputs_of(branch: u32, raw: Seq<u8>) -> Option<Seq<(Option<TransparentAddress>, u64)>>;

/// Reads the id and the transparent inputs of a raw transaction.
///
/// Calls `Transaction::read` under the branch, then `txid` and the
/// `prevout` of each input of the transparent bundle (none without one).
#[verifier::external_body]
fn tx_inputs(branch: u32, raw: &[u8]) -> (r: Option<(crate::witness::Hash, Vec<OutPoint>)>)
    ensures
        match r {
            Some((t, i)) => tx_inputs_of(branch, raw@) == Some((t, i@)),
            None => tx_inputs_of(branch, raw@) is None,
        },
{
    let tx = Transaction::read(raw, BranchId::try_from(branch).ok()?).ok()?;
    let vin = tx.transparent_bundle().map_or(vec![], |b| {
        b.vin.iter().map(|i| OutPoint { txid: *i.prevout().hash(), vout: i.prevout().n() }).collect()
    });
    Some((*tx.txid().as_ref(), vin))
}

/// Reads the transparent outputs of a raw transaction.
///
/// Calls `Transaction::read` under the branch, then, for each output of
/// the transparent bundle (none without one), `TxOut::recipient_address`
/// and `TxOut::value`.
#[verifier::external_body]
fn tx_outputs(branch: u32, raw: &[u8]) -> (r: Option<Vec<(Option<TransparentAddress>, u64)>>)
    ensures
        match r {
            Some(o) => tx_outputs_of(branch, raw@) == Some(o@),
            None => tx_outputs_of(branch, raw@) is None,
        },
{
    let tx = Transaction::read(raw, BranchId::try_from(branch).ok()?).ok()?;
    let t = |a: ZTransparentAddress| match a {
        ZTransparentAddress::PublicKeyHash(h) => TransparentAddress::PublicKeyHash(h),
        ZTransparentAddress::ScriptHash(h) => TransparentAddress::ScriptHash(h),
    };
    Some(tx.transparent_bundle().map_or(vec![], |b| {
        b.vout.iter().map(|o| (o.recipient_address().map(t), o.value().into_u64())).collect()
    }))
}

/// The nullifiers of the Sapling spends and the note commitments of the
/// Sapling outputs of the raw transaction `raw` read under the branch
/// `branch`.
pub uninterp spec fn tx_sapling_of(branch: u32, raw: Seq<u8>) -> Option<(Seq<crate::witness::Hash>, Seq<crate::witness::Hash>)>;

/// The nullifiers and the note commitments of the Orchard actions of the
/// raw transaction `raw` read under the branch `branch`.
pub uninterp spec fn tx_orchard_of(branch: u32, raw: Seq<u8>) -> Option<(Seq<crate::witness::Hash>, Seq<crate::witness::Hash>)>;

/// The mathematical view of two lists of hashes.
pub open spec fn hashes_view(p: Option<(Vec<crate::witness::Hash>, Vec<crate::witness::Hash>)>) -> Option<(Seq<crate::witness::Hash>, Seq<crate::witness::Hash>)> {
    match p {
        Some((a, b)) => Some((a@, b@)),
        None => None,
    }
}

/// Reads the Sapling part of a raw transaction.
///
/// Calls `Transaction::read` under the branch, then lists the nullifiers of
/// the spends and the `cmu` of the outputs of the Sapling bundle (none
/// without one).
#[verifier::external_body]
fn tx_sapling(branch: u32, raw: &[u8]) -> (r: Option<(Vec<crate::witness::Hash>, Vec<crate::witness::Hash>)>)
    ensures
        hashes_view(r) == tx_sapling_of(branch, raw@),
{
    let tx = Transaction::read(raw, BranchId::try_from(branch).ok()?).ok()?;
    let s = tx.sapling_bundle();
    let nf = s.map_or(vec![], |b| b.shielded_spends().iter().map(|x| x.nullifier().0).collect());
    let cm = s.map_or(vec![], |b| b.shielded_outputs().iter().map(|x| x.cmu().to_bytes()).collect());
    Some((nf, cm))
}

/// Reads the Orchard part of a raw transaction.
///
/// Calls `Transaction::read` under the branch, then lists the nullifiers
/// and the `cmx` of the actions of the Orchard bundle (none without one).
#[verifier::external_body]
fn tx_orchard(branch: u32, raw: &[u8]) -> (r: Option<(Vec<crate::witness::Hash>, Vec<crate::witness::Hash>)>)
    ensures
        hashes_view(r) == tx_orchard_of(branch, raw@),
{
    let tx = Transaction::read(raw, BranchId::try_from(branch).ok()?).ok()?;
    let o = tx.orchard_bundle();
    let nf = o.map_or(vec![], |b| b.actions().iter().map(|a| a.nullifier().to_bytes()).collect());
    let cm = o.map_or(vec![], |b| b.actions().iter().map(|a| a.cmx().to_bytes()).collect());
    Some((nf, cm))
}

/// The note and memo of Sapling output `index` of the raw transaction that
/// the Sapling viewing key `vk` decrypts as received, under the ZIP-212
/// rule `zip212`.
pub uninterp spec fn sapling_incoming_of(branch: u32, raw: Seq<u8>, index: int, vk: Seq<u8>, zip212: u8) -> Option<(PlainNote, Seq<u8>)>;

/// The note and memo of Sapling output `index` of the raw transaction that
/// the Sapling viewing key `vk` recovers as sent by the account.
pub uninterp spec fn sapling_outgoing_of(branch: u32, raw: Seq<u8>, index: int, vk: Seq<u8>, zip212: u8) -> Option<(PlainNote, Seq<u8>)>;

/// The note and memo of Orchard action `index` of the raw transaction that
/// the Orchard full viewing key `vk` decrypts as received.
pub uninterp spec fn orchard_incoming_of(branch: u32, raw: Seq<u8>, index: int, vk: Seq<u8>) -> Option<(PlainNote, Seq<u8>)>;

/// The mathematical view of a decrypted note.
pub open spec fn decrypted_view(d: Option<(PlainNote, Vec<u8>)>) -> Option<(PlainNote, Seq<u8>)> {
    match d {
        Some((n, m)) => Some((n, m@)),
        None => None,
    }
}

/// Decrypts a Sapling output as received.
///
/// Calls `try_sapling_note_decryption` with the external incoming viewing
/// key of the key read back with `DiversifiableFullViewingKey::from_bytes`,
/// on output `index` of the Sapling bundle of the transaction read under
/// the branch; the note comes out as its address, value and `rcm`, the memo
/// as its 512 bytes.
#[verifier::external_body]
fn sapling_incoming(branch: u32, raw: &[u8], index: usize, vk: &[u8], zip212: u8) -> (r: Option<(PlainNote, Vec<u8>)>)
    ensures
        decrypted_view(r) == sapling_incoming_of(branch, raw@, index as int, vk@, zip212),
{
    let tx = Transaction::read(raw, BranchId::try_from(branch).ok()?).ok()?;
    let out = tx.sapling_bundle()?.shielded_outputs().get(index)?;
    let vk = DiversifiableFullViewingKey::from_bytes(vk.try_into().ok()?)?;
    let z = match zip212 { 0 => Zip212Enforcement::Off, 1 => Zip212Enforcement::GracePeriod, _ => Zip212Enforcement::On };
    let (n, a, m) = try_sapling_note_decryption(&SaplingIvk::new(&vk.to_ivk(Scope::External)), out, z)?;
    Some((PlainNote { id: 0, address: a.to_bytes(), value: n.value().inner(), rcm: n.rcm().to_bytes(), rho: None }, m.to_vec()))
}

/// Recovers a Sapling output sent by the account.
///
/// Calls `try_sapling_output_recovery` with the external outgoing viewing
/// key of the key read back with `DiversifiableFullViewingKey::from_bytes`,
/// on output `index` of the Sapling bundle of the transaction read under
/// the branch; the note and memo come out as for `sapling_incoming`.
#[verifier::external_body]
fn sapling_outgoing(branch: u32, raw: &[u8], index: usize, vk: &[u8], zip212: u8) -> (r: Option<(PlainNote, Vec<u8>)>)
    ensures
        decrypted_view(r) == sapling_outgoing_of(branch, raw@, index as int, vk@, zip212),
{
    let tx = Transaction::read(raw, BranchId::try_from(branch).ok()?).ok()?;
    let out = tx.sapling_bundle()?.shielded_outputs().get(index)?;
    let vk = DiversifiableFullViewingKey::from_bytes(vk.try_into().ok()?)?;
    let z = match zip212 { 0 => Zip212Enforcement::Off, 1 => Zip212Enforcement::GracePeriod, _ => Zip212Enforcement::On };
    let (n, a, m) = try_sapling_output_recovery(&vk.to_ovk(Scope::External), out, z)?;
    Some((PlainNote { id: 0, address: a.to_bytes(), value: n.value().inner(), rcm: n.rcm().to_bytes(), rho: None }, m.to_vec()))
}

/// Decrypts an Orchard action as received.
///
/// Calls `zcash_note_encryption::try_note_decryption` in the action's
/// `OrchardDomain` with the external incoming viewing key of the key read
/// back with `FullViewingKey::from_bytes`, on action `index` of the Orchard
/// bundle of the transaction read under the branch; the note comes out as
/// its raw address, value, random seed and the action's nullifier, the memo
/// as its 512 bytes.
#[verifier::external_body]
fn orchard_incoming(branch: u32, raw: &[u8], index: usize, vk: &[u8]) -> (r: Option<(PlainNote, Vec<u8>)>)
    ensures
        decrypted_view(r) == orchard_incoming_of(branch, raw@, index as int, vk@),
{
    let tx = Transaction::read(raw, BranchId::try_from(branch).ok()?).ok()?;
    let act = tx.orchard_bundle()?.actions().get(index)?;
    let ivk = OrchardIvk::new(&OrchardFvk::from_bytes(vk.try_into().ok()?)?.to_ivk(OrchardScope::External));
    let (n, a, m) = try_note_decryption(&OrchardDomain::for_action(act), &ivk, act)?;
    let rho = Some(act.nullifier().to_bytes());
    Some((PlainNote { id: 0, address: a.to_raw_address_bytes(), value: n.value().inner(), rcm: *n.rseed().as_bytes(), rho }, m.to_vec()))
}

/// Whether the account's transparent inputs sum to at most the total
/// supply.
fn tins_within_supply(v: &Vec<TransparentInput>) -> (r: bool)
    ensures
        r == (sum_of(v@, |t: TransparentInput| tin_value(t)) <= crate::pay::MAX_MONEY),
{
    let mut s: u64 = 0;
    let mut i: usize = 0;
    while i < v.len()
        invariant
            i <= v@.len(),
            s == sum_of(v@.take(i as int), |t: TransparentInput| tin_value(t)),
            s <= crate::pay::MAX_MONEY,
        decreases v@.len() - i,
    {
        proof {
            assert(v@.take(i + 1).drop_last() =~= v@.take(i as int));
        }
        let a: u64 = match &v[i].note {
            Some(n) => n.value,
            None => 0,
        };
        if a > crate::pay::MAX_MONEY - s {
            proof {
                lemma_sum_prefix(v@, i + 1, |t: TransparentInput| tin_value(t));
            }
            return false;
        }
        s = s + a;
        i = i + 1;
    }
    proof {
        assert(v@.take(v@.len() as int) =~= v@);
    }
    true
}

/// Whether the account's transparent outputs sum to at most the total
/// supply.
fn touts_within_supply(v: &Vec<TransparentOutput>) -> (r: bool)
    ensures
        r == (sum_of(v@, |t: TransparentOutput| tout_value(t)) <= crate::pay::MAX_MONEY),
{
    let mut s: u64 = 0;
    let mut i: usize = 0;
    while i < v.len()
        invariant
            i <= v@.len(),
            s == sum_of(v@.take(i as int), |t: TransparentOutput| tout_value(t)),
            s <= crate::pay::MAX_MONEY,
        decreases v@.len() - i,
    {
        proof {
            assert(v@.take(i + 1).drop_last() =~= v@.take(i as int));
        }
        let a: u64 = match &v[i].note {
            Some(n) => n.value,
            None => 0,
        };
        if a > crate::pay::MAX_MONEY - s {
            proof {
                lemma_sum_prefix(v@, i + 1, |t: TransparentOutput| tout_value(t));
            }
            return false;
        }
        s = s + a;
        i = i + 1;
    }
    proof {
        assert(v@.take(v@.len() as int) =~= v@);
    }
    true
}

/// Whether the account's notes spent by shielded inputs sum to at most the
/// total supply.
fn sins_within_supply(v: &Vec<ShieldedInput>) -> (r: bool)
    ensures
        r == (sum_of(v@, |t: ShieldedInput| sin_value(t)) <= crate::pay::MAX_MONEY),
{
    let mut s: u64 = 0;
    let mut i: usize = 0;
    while i < v.len()
        invariant
            i <= v@.len(),
            s == sum_of(v@.take(i as int), |t: ShieldedInput| sin_value(t)),
            s <= crate::pay::MAX_MONEY,
        decreases v@.len() - i,
    {
        proof {
            assert(v@.take(i + 1).drop_last() =~= v@.take(i as int));
        }
        let a: u64 = match &v[i].note {
            Some(n) => n.value,
            None => 0,
        };
        if a > crate::pay::MAX_MONEY - s {
            proof {
                lemma_sum_prefix(v@, i + 1, |t: ShieldedInput| sin_value(t));
            }
            return false;
        }
        s = s + a;
        i = i + 1;
    }
    proof {
        assert(v@.take(v@.len() as int) =~= v@);
    }
    true
}

/// Whether the decrypted notes of shielded outputs sum to at most the
/// total supply.
fn souts_within_supply(v: &Vec<ShieldedOutput>) -> (r: bool)
    ensures
        r == (sum_of(v@, |t: ShieldedOutput| sout_value(t)) <= crate::pay::MAX_MONEY),
{
    let mut s: u64 = 0;
    let mut i: usize = 0;
    while i < v.len()
        invariant
            i <= v@.len(),
            s == sum_of(v@.take(i as int), |t: ShieldedOutput| sout_value(t)),
            s <= crate::pay::MAX_MONEY,
        decreases v@.len() - i,
    {
        proof {
            assert(v@.take(i + 1).drop_last() =~= v@.take(i as int));
        }
        let a: u64 = match &v[i].note {
            Some(n) => n.note.value,
            None => 0,
        };
        if a > crate::pay::MAX_MONEY - s {
            proof {
                lemma_sum_prefix(v@, i + 1, |t: ShieldedOutput| sout_value(t));
            }
            return false;
        }
        s = s + a;
        i = i + 1;
    }
    proof {
        assert(v@.take(v@.len() as int) =~= v@);
    }
    true
}

/// Why a raw transaction cannot be read for the account.
#[derive(Clone, Copy, Debug, PartialEq, Eq, Structural)]
pub enum TxError {
    /// The bytes are no transaction of the chain at that height.
    InvalidTransaction,
    /// The account's notes in one part of the transaction sum to more than
    /// the total supply.
    ValueOverflow,
}

/// The coin that input `i` spends, where it is known.
pub open spec fn coin_at(coins: Seq<TxOut2>, i: int) -> Option<TxOut2> {
    if 0 <= i < coins.len() {
        Some(coins[i])
    } else {
        None
    }
}

/// Whether `t` is a copy of the coin `c`.
pub open spec fn coin_is(t: TxOut2, c: TxOut2) -> bool {
    opt_str_view(t.address) == opt_str_view(c.address) && t.value == c.value && t.vout == c.vout
}

/// Whether `t` is the transparent input spending `p`, with the coin it
/// spends where it is known, and the account's note where `p` is one of
/// the account's unspent outputs.
pub open spec fn read_tin(utxos: Seq<UTXO>, p: OutPoint, coin: Option<TxOut2>, t: TransparentInput) -> bool {
    let k = utxo_index(utxos, p);
    &&& t.out_point == p
    &&& match coin {
        Some(c) => coin_is(t.coin, c),
        None => t.coin.address is None && t.coin.value == 0 && t.coin.vout == 0,
    }
    &&& if k < 0 {
        t.note is None
    } else {
        t.note matches Some(n) && n.id == 0 && n.address@ == utxos[k].address@ && n.value == utxos[k].value
    }
}

/// The text of an optional transparent address.
pub open spec fn taddr_text(network: Network, a: Option<TransparentAddress>) -> Option<Seq<char>> {
    match a {
        Some(x) => Some(transparent_text(network, x)),
        None => None,
    }
}

/// Whether `t` is transparent output `n`, paying `value` to `address` (in
/// text), with the account's note where the address is the account's.
pub open spec fn read_tout(addrs: Seq<String>, n: int, address: Option<Seq<char>>, value: u64, t: TransparentOutput) -> bool {
    &&& opt_str_view(t.coin.address) == address
    &&& t.coin.value == value
    &&& t.coin.vout == n
    &&& match address {
        Some(a) => {
            let k = address_index(addrs, a);
            if k < 0 {
                t.note is None
            } else {
                t.note matches Some(note) && note.id == 0 && note.address@ == addrs[k]@ && note.value == value
            }
        },
        None => t.note is None,
    }
}

/// The account's note that shielded spend `i` spends, where it is known.
pub open spec fn spent_at(spent: Seq<Option<PlainNote>>, i: int) -> Option<PlainNote> {
    if 0 <= i < spent.len() {
        spent[i]
    } else {
        None
    }
}

/// Whether `o` is a shielded output with note commitment `cmx` whose note
/// is `incoming` (decrypted as received), else `outgoing` (recovered as
/// sent), else unknown.
pub open spec fn read_output(cmx: crate::witness::Hash, incoming: Option<(PlainNote, Seq<u8>)>, outgoing: Option<(PlainNote, Seq<u8>)>, o: ShieldedOutput) -> bool {
    &&& o.cmx == cmx
    &&& match incoming {
        Some((n, m)) => o.note matches Some(f) && f.note == n && f.memo.0@ == m && f.incoming,
        None => match outgoing {
            Some((n, m)) => o.note matches Some(f) && f.note == n && f.memo.0@ == m && !f.incoming,
            None => o.note is None,
        },
    }
}

/// A copy of a coin.
fn copy_coin(c: &TxOut2) -> (r: TxOut2)
    ensures
        coin_is(r, *c),
{
    TxOut2 {
        address: match &c.address {
            Some(a) => Some(a.clone()),
            None => None,
        },
        value: c.value,
        vout: c.vout,
    }
}

/// The transparent inputs spending `prevouts`, with their coins.
fn read_tins(prevouts: &Vec<OutPoint>, utxos: &Vec<UTXO>, coins: &Vec<TxOut2>) -> (r: Vec<TransparentInput>)
    ensures
        r@.len() == prevouts@.len(),
        forall|i: int| 0 <= i < r@.len() ==> read_tin(utxos@, prevouts@[i], coin_at(coins@, i), #[trigger] r@[i]),
{
    let base = transparent_inputs(prevouts, utxos);
    let mut r: Vec<TransparentInput> = Vec::new();
    let mut i: usize = 0;
    while i < base.len()
        invariant
            i <= base@.len() == prevouts@.len(),
            r@.len() == i,
            forall|k: int| 0 <= k < base@.len() ==> crate::txdetails::tin_of(utxos@, prevouts@[k], #[trigger] base@[k]),
            forall|k: int| 0 <= k < i ==> read_tin(utxos@, prevouts@[k], coin_at(coins@, k), #[trigger] r@[k]),
        decreases base@.len() - i,
    {
        let t = &base[i];
        let coin = if i < coins.len() {
            copy_coin(&coins[i])
        } else {
            TxOut2 { address: None, value: 0, vout: 0 }
        };
        let note = match &t.note {
            Some(n) => Some(TransparentNote { id: n.id, address: n.address.clone(), value: n.value }),
            None => None,
        };
        r.push(TransparentInput { out_point: t.out_point, coin, note });
        i = i + 1;
    }
    r
}

/// The transparent outputs, their addresses in text.
fn read_touts(network: Network, vouts: &Vec<(Option<TransparentAddress>, u64)>, addrs: &Vec<String>) -> (r: Vec<TransparentOutput>)
    requires
        vouts@.len() <= u32::MAX,
    ensures
        r@.len() == vouts@.len(),
        forall|i: int| 0 <= i < r@.len() ==> read_tout(addrs@, i, taddr_text(network, vouts@[i].0), vouts@[i].1, #[trigger] r@[i]),
{
    let mut outs: Vec<(Option<String>, u64)> = Vec::new();
    let mut i: usize = 0;
    while i < vouts.len()
        invariant
            i <= vouts@.len(),
            outs@.len() == i,
            forall|k: int| 0 <= k < i ==> opt_str_view((#[trigger] outs@[k]).0) == taddr_text(network, vouts@[k].0)
                && outs@[k].1 == vouts@[k].1,
        decreases vouts@.len() - i,
    {
        let a = match &vouts[i].0 {
            Some(t) => Some(encode_transparent(network, t)),
            None => None,
        };
        outs.push((a, vouts[i].1));
        i = i + 1;
    }
    let r = transparent_outputs(&outs, addrs);
    assert forall|i: int| 0 <= i < r@.len() implies read_tout(addrs@, i, taddr_text(network, vouts@[i].0), vouts@[i].1, #[trigger] r@[i]) by {
        assert(crate::txdetails::tout_of(addrs@, i, outs@[i].0, outs@[i].1, r@[i]));
        assert(opt_str_view(outs@[i].0) == taddr_text(network, vouts@[i].0));
    }
    r
}

/// The shielded spends, with the account's notes they spend.
fn read_sins(nfs: &Vec<crate::witness::Hash>, spent: &Vec<Option<PlainNote>>) -> (r: Vec<ShieldedInput>)
    ensures
        r@.len() == nfs@.len(),
        forall|i: int| 0 <= i < r@.len() ==> (#[trigger] r@[i]).nf == nfs@[i] && r@[i].note == spent_at(spent@, i),
{
    let mut r: Vec<ShieldedInput> = Vec::new();
    let mut i: usize = 0;
    while i < nfs.len()
        invariant
            i <= nfs@.len(),
            r@.len() == i,
            forall|k: int| 0 <= k < i ==> (#[trigger] r@[k]).nf == nfs@[k] && r@[k].note == spent_at(spent@, k),
        decreases nfs@.len() - i,
    {
        let note = if i < spent.len() {
            spent[i]
        } else {
            None
        };
        r.push(ShieldedInput { nf: nfs[i], note });
        i = i + 1;
    }
    r
}

/// The Sapling outputs, decrypted as received, else recovered as sent.
fn read_sapling_outputs(branch: u32, raw: &Vec<u8>, cmxs: &Vec<crate::witness::Hash>, vk: &Vec<u8>, zip212: u8) -> (r: Vec<ShieldedOutput>)
    ensures
        r@.len() == cmxs@.len(),
        forall|i: int| 0 <= i < r@.len() ==> read_output(
            cmxs@[i],
            sapling_incoming_of(branch, raw@, i, vk@, zip212),
            sapling_outgoing_of(branch, raw@, i, vk@, zip212),
            #[trigger] r@[i],
        ),
{
    let mut r: Vec<ShieldedOutput> = Vec::new();
    let mut i: usize = 0;
    while i < cmxs.len()
        invariant
            i <= cmxs@.len(),
            r@.len() == i,
            forall|k: int| 0 <= k < i ==> read_output(
                cmxs@[k],
                sapling_incoming_of(branch, raw@, k, vk@, zip212),
                sapling_outgoing_of(branch, raw@, k, vk@, zip212),
                #[trigger] r@[k],
            ),
        decreases cmxs@.len() - i,
    {
        let note = match sapling_incoming(branch, raw.as_slice(), i, vk.as_slice(), zip212) {
            Some((n, m)) => Some(FullPlainNote { note: n, memo: CompressedMemo(m), incoming: true }),
            None => match sapling_outgoing(branch, raw.as_slice(), i, vk.as_slice(), zip212) {
                Some((n, m)) => Some(FullPlainNote { note: n, memo: CompressedMemo(m), incoming: false }),
                None => None,
            },
        };
        r.push(ShieldedOutput { cmx: cmxs[i], note });
        i = i + 1;
    }
    r
}

/// The Orchard actions' outputs, decrypted as received.
fn read_orchard_outputs(branch: u32, raw: &Vec<u8>, cmxs: &Vec<crate::witness::Hash>, vk: &Vec<u8>) -> (r: Vec<ShieldedOutput>)
    ensures
        r@.len() == cmxs@.len(),
        forall|i: int| 0 <= i < r@.len() ==> read_output(cmxs@[i], orchard_incoming_of(branch, raw@, i, vk@), None, #[trigger] r@[i]),
{
    let mut r: Vec<ShieldedOutput> = Vec::new();
    let mut i: usize = 0;
    while i < cmxs.len()
        invariant
            i <= cmxs@.len(),
            r@.len() == i,
            forall|k: int| 0 <= k < i ==> read_output(cmxs@[k], orchard_incoming_of(branch, raw@, k, vk@), None, #[trigger] r@[k]),
        decreases cmxs@.len() - i,
    {
        let note = match orchard_incoming(branch, raw.as_slice(), i, vk.as_slice()) {
            Some((n, m)) => Some(FullPlainNote { note: n, memo: CompressedMemo(m), incoming: true }),
            None => None,
        };
        r.push(ShieldedOutput { cmx: cmxs[i], note });
        i = i + 1;
    }
    r
}

/// The outputs that a raw transaction's transparent inputs spend and the
/// nullifiers of its Sapling and Orchard spends, read at `height`: what
/// the wallet looks up before reading the transaction for an account.
pub fn transaction_spends(network: &Network, height: u32, raw: &Vec<u8>) -> (r: Option<(Vec<OutPoint>, Vec<crate::witness::Hash>, Vec<crate::witness::Hash>)>)
    ensures
        ({
            let branch = branch_of(*network == Network::Main, height);
            match (tx_inputs_of(branch, raw@), tx_sapling_of(branch, raw@), tx_orchard_of(branch, raw@)) {
                (Some((_, ins)), Some((snf, _)), Some((onf, _))) => r matches Some((i, s, o)) && i@ == ins && s@ == snf && o@ == onf,
                _ => r is None,
            }
        }),
{
    let branch = branch_id(*network, height);
    let ins = match tx_inputs(branch, raw.as_slice()) {
        Some((_, i)) => i,
        None => {
            return None;
        },
    };
    let snf = match tx_sapling(branch, raw.as_slice()) {
        Some((nf, _)) => nf,
        None => {
            return None;
        },
    };
    let onf = match tx_orchard(branch, raw.as_slice()) {
        Some((nf, _)) => nf,
        None => {
            return None;
        },
    };
    Some((ins, snf, onf))
}

/// Whether some part of the raw transaction does not read.
pub open spec fn parse_fails(branch: u32, raw: Seq<u8>) -> bool {
    tx_inputs_of(branch, raw) is None || tx_outputs_of(branch, raw) is None || tx_sapling_of(branch, raw) is None
        || tx_orchard_of(branch, raw) is None
}

/// Whether the transaction has more transparent outputs than 32-bit
/// indexes can number.
pub open spec fn too_many_outputs(p: Option<Seq<(Option<TransparentAddress>, u64)>>) -> bool {
    match p {
        Some(outs) => outs.len() > u32::MAX,
        None => false,
    }
}

/// Whether `d` holds the parts of the raw transaction for the account: its
/// transparent inputs and outputs matched against the account's coins and
/// addresses, its shielded spends with the account's notes they spend and,
/// in each pool where the account has a viewing key, its outputs
/// decrypted with that key (none in a pool without one).
pub open spec fn read_parts(
    network: Network,
    ai: AccountInfo,
    height: u32,
    timestamp: u32,
    raw: Seq<u8>,
    utxos: Seq<UTXO>,
    addrs: Seq<String>,
    sapling_spent: Seq<Option<PlainNote>>,
    orchard_spent: Seq<Option<PlainNote>>,
    coins: Seq<TxOut2>,
    d: TransactionDetails,
) -> bool {
    let main = network == Network::Main;
    let branch = branch_of(main, height);
    let zip212 = zip212_of(main, height);
    match (tx_inputs_of(branch, raw), tx_outputs_of(branch, raw), tx_sapling_of(branch, raw), tx_orchard_of(branch, raw)) {
        (Some((txid, ins)), Some(outs), Some((snf, scm)), Some((onf, ocm))) => {
            &&& d.txid == txid
            &&& d.height == height
            &&& d.timestamp == timestamp
            &&& d.tins@.len() == ins.len()
            &&& forall|i: int| 0 <= i < ins.len() ==> read_tin(utxos, ins[i], coin_at(coins, i), #[trigger] d.tins@[i])
            &&& d.touts@.len() == outs.len()
            &&& forall|i: int| 0 <= i < outs.len() ==> read_tout(addrs, i, taddr_text(network, outs[i].0), outs[i].1, #[trigger] d.touts@[i])
            &&& match ai.sapling {
                Some(si) => {
                    &&& d.sins@.len() == snf.len()
                    &&& forall|i: int| 0 <= i < snf.len() ==> (#[trigger] d.sins@[i]).nf == snf[i] && d.sins@[i].note == spent_at(sapling_spent, i)
                    &&& d.souts@.len() == scm.len()
                    &&& forall|i: int| 0 <= i < scm.len() ==> read_output(
                        scm[i],
                        sapling_incoming_of(branch, raw, i, si.vk@, zip212),
                        sapling_outgoing_of(branch, raw, i, si.vk@, zip212),
                        #[trigger] d.souts@[i],
                    )
                },
                None => d.sins@.len() == 0 && d.souts@.len() == 0,
            }
            &&& match ai.orchard {
                Some(oi) => {
                    &&& d.oins@.len() == onf.len()
                    &&& forall|i: int| 0 <= i < onf.len() ==> (#[trigger] d.oins@[i]).nf == onf[i] && d.oins@[i].note == spent_at(orchard_spent, i)
                    &&& d.oouts@.len() == ocm.len()
                    &&& forall|i: int| 0 <= i < ocm.len() ==> read_output(ocm[i], orchard_incoming_of(branch, raw, i, oi.vk@), None, #[trigger] d.oouts@[i])
                },
                None => d.oins@.len() == 0 && d.oouts@.len() == 0,
            }
        },
        _ => false,
    }
}

/// Whether `d` is what the raw transaction is to the account: its parts
/// (see `read_parts`) and its value to the account.
pub open spec fn read_details(
    network: Network,
    ai: AccountInfo,
    height: u32,
    timestamp: u32,
    raw: Seq<u8>,
    utxos: Seq<UTXO>,
    addrs: Seq<String>,
    sapling_spent: Seq<Option<PlainNote>>,
    orchard_spent: Seq<Option<PlainNote>>,
    coins: Seq<TxOut2>,
    d: TransactionDetails,
) -> bool {
    &&& read_parts(network, ai, height, timestamp, raw, utxos, addrs, sapling_spent, orchard_spent, coins, d)
    &&& d.value == tx_value_spec(d.tins@, d.touts@, d.sins@, d.souts@, d.oins@, d.oouts@)
}

/// Reads a raw transaction for an account (see `read_details`). The
/// account's notes spent by the Sapling and Orchard spends, in the order of
/// `transaction_spends`, and the coins spent by the transparent inputs are
/// looked up beforehand; a spend or input beyond them has none.
pub fn analyze_raw_transaction(
    network: &Network,
    ai: &AccountInfo,
    height: u32,
    timestamp: u32,
    raw: &Vec<u8>,
    utxos: &Vec<UTXO>,
    account_addresses: &Vec<String>,
    sapling_spent: &Vec<Option<PlainNote>>,
    orchard_spent: &Vec<Option<PlainNote>>,
    coins: &Vec<TxOut2>,
) -> (r: Result<TransactionDetails, TxError>)
    ensures
        ({
            let branch = branch_of(*network == Network::Main, height);
            parse_fails(branch, raw@) ==> r == Err::<TransactionDetails, TxError>(TxError::InvalidTransaction)
        }),
        match r {
            Ok(d) => read_details(*network, *ai, height, timestamp, raw@, utxos@, account_addresses@, sapling_spent@, orchard_spent@, coins@, d),
            Err(TxError::InvalidTransaction) => ({
                let branch = branch_of(*network == Network::Main, height);
                parse_fails(branch, raw@) || too_many_outputs(tx_outputs_of(branch, raw@))
            }),
            Err(TxError::ValueOverflow) => exists|d: TransactionDetails| #[trigger] read_parts(
                *network, *ai, height, timestamp, raw@, utxos@, account_addresses@, sapling_spent@, orchard_spent@, coins@, d)
                && !values_bounded(d.tins@, d.touts@, d.sins@, d.souts@, d.oins@, d.oouts@),
        },
{
    let branch = branch_id(*network, height);
    let zip212 = zip212_mode(*network, height);
    let (txid, ins) = match tx_inputs(branch, raw.as_slice()) {
        Some(t) => t,
        None => {
            return Err(TxError::InvalidTransaction);
        },
    };
    let outs = match tx_outputs(branch, raw.as_slice()) {
        Some(o) => o,
        None => {
            return Err(TxError::InvalidTransaction);
        },
    };
    let (snf, scm) = match tx_sapling(branch, raw.as_slice()) {
        Some(s) => s,
        None => {
            return Err(TxError::InvalidTransaction);
        },
    };
    let (onf, ocm) = match tx_orchard(branch, raw.as_slice()) {
        Some(o) => o,
        None => {
            return Err(TxError::InvalidTransaction);
        },
    };
    if outs.len() > u32::MAX as usize {
        return Err(TxError::InvalidTransaction);
    }
    let tins = read_tins(&ins, utxos, coins);
    let touts = read_touts(*network, &outs, account_addresses);
    let (sins, souts) = match &ai.sapling {
        Some(si) => (read_sins(&snf, sapling_spent), read_sapling_outputs(branch, raw, &scm, &si.vk, zip212)),
        None => (Vec::new(), Vec::new()),
    };
    let (oins, oouts) = match &ai.orchard {
        Some(oi) => (read_sins(&onf, orchard_spent), read_orchard_outputs(branch, raw, &ocm, &oi.vk)),
        None => (Vec::new(), Vec::new()),
    };
    if !(tins_within_supply(&tins) && touts_within_supply(&touts) && sins_within_supply(&sins) && souts_within_supply(&souts)
        && sins_within_supply(&oins) && souts_within_supply(&oouts)) {
        proof {
            let d = TransactionDetails { height, timestamp, txid, value: 0, tins, touts, sins, souts, oins, oouts };
            assert(read_parts(*network, *ai, height, timestamp, raw@, utxos@, account_addresses@, sapling_spent@, orchard_spent@, coins@, d));
        }
        return Err(TxError::ValueOverflow);
    }
    Ok(TransactionDetails::from_parts(height, timestamp, txid, tins, touts, sins, souts, oins, oouts))
}


/// A transparent output of a transaction: its address (where its script
/// has one), value and index.
#[derive(Clone, Copy, Debug)]
pub struct TxOut {
    pub address: Option<TransparentAddress>,
    pub value: u64,
    pub vout: u32,
}

/// A transaction that pays to a transparent address of an account: the
/// outputs its inputs spend and its outputs to that address.
#[derive(Clone, Debug)]
pub struct TransparentTx {
    pub account: u32,
    pub height: u32,
    pub timestamp: u32,
    pub txid: crate::witness::Hash,
    pub vins: Vec<OutPoint>,
    pub vouts: Vec<TxOut>,
}

/// The outputs among the first `n` of `outs` that pay to `taddr`, with
/// their index.
pub open spec fn outputs_to(outs: Seq<(Option<TransparentAddress>, u64)>, taddr: TransparentAddress, n: nat) -> Seq<TxOut>
    decreases n,
{
    if n == 0 {
        Seq::empty()
    } else {
        let p = outputs_to(outs, taddr, (n - 1) as nat);
        let (a, v) = outs[n - 1];
        if a == Some(taddr) {
            p.push(TxOut { address: a, value: v, vout: (n - 1) as u32 })
        } else {
            p
        }
    }
}

/// Reads a raw transaction found at `height` for the transparent address
/// `taddr` of an account: its id, the outputs its inputs spend and its
/// outputs to `taddr`; `None` where it does not read. Its time is not
/// known yet (0).
pub fn transparent_tx(network: &Network, account: u32, taddr: &TransparentAddress, height: u32, raw: &Vec<u8>) -> (r: Option<TransparentTx>)
    ensures
        ({
            let branch = branch_of(*network == Network::Main, height);
            match (tx_inputs_of(branch, raw@), tx_outputs_of(branch, raw@)) {
                (Some((txid, ins)), Some(outs)) => outs.len() <= u32::MAX ==> (r matches Some(t) && {
                    &&& t.account == account
                    &&& t.height == height
                    &&& t.timestamp == 0
                    &&& t.txid == txid
                    &&& t.vins@ == ins
                    &&& t.vouts@ == outputs_to(outs, *taddr, outs.len())
                }),
                _ => r is None,
            }
        }),
{
    let branch = branch_id(*network, height);
    let (txid, vins) = match tx_inputs(branch, raw.as_slice()) {
        Some(x) => x,
        None => {
            return None;
        },
    };
    let outs = match tx_outputs(branch, raw.as_slice()) {
        Some(o) => o,
        None => {
            return None;
        },
    };
    if outs.len() > u32::MAX as usize {
        return None;
    }
    let mut vouts: Vec<TxOut> = Vec::new();
    let mut i: usize = 0;
    while i < outs.len()
        invariant
            i <= outs@.len(),
            outs@.len() <= u32::MAX,
            vouts@ == outputs_to(outs@, *taddr, i as nat),
        decreases outs@.len() - i,
    {
        let (a, v) = outs[i];
        let pays = match &a {
            Some(x) => crate::address::same_transparent(x, taddr),
            None => false,
        };
        if pays {
            vouts.push(TxOut { address: a, value: v, vout: i as u32 });
        }
        i += 1;
    }
    Some(TransparentTx { account, height, timestamp: 0, txid, vins, vouts })
}


/// The consensus branch id of NU5, under which the coins that inputs spend
/// are read.
pub const NU5_BRANCH: u32 = 0xC2D6_D0B4;

/// The coin that an input spends: output `vout` of the raw transaction
/// `raw` (read under NU5), its address in text. A transaction that does not
/// read, or has no such transparent output, gives no coin.
pub fn txin_coin(network: &Network, raw: &Vec<u8>, vout: u32) -> (r: Result<TxOut2, TxError>)
    ensures
        match tx_outputs_of(NU5_BRANCH, raw@) {
            Some(outs) => if vout < outs.len() {
                r matches Ok(c) && {
                    &&& opt_str_view(c.address) == taddr_text(*network, outs[vout as int].0)
                    &&& c.value == outs[vout as int].1
                    &&& c.vout == vout
                }
            } else {
                r == Err::<TxOut2, TxError>(TxError::InvalidTransaction)
            },
            None => r == Err::<TxOut2, TxError>(TxError::InvalidTransaction),
        },
{
    let outs = match tx_outputs(NU5_BRANCH, raw.as_slice()) {
        Some(o) => o,
        None => {
            return Err(TxError::InvalidTransaction);
        },
    };
    if vout as usize >= outs.len() {
        return Err(TxError::InvalidTransaction);
    }
    let (a, value) = outs[vout as usize];
    let address = match &a {
        Some(t) => Some(encode_transparent(*network, t)),
        None => None,
    };
    Ok(TxOut2 { address, value, vout })
}

} // verus!
