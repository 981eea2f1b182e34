//! The details of a transaction of the wallet: what it spends and creates
//! in each pool, what it is worth to the account, who it is with and which
//! memo it carries.
use vstd::prelude::*;

use crate::contacts::{add_all, chunk_index_fits, finalize_spec, initial_state, ChunkError, ChunkedContactV1, ChunkedMemoDecoder, CONTACT_COOKIE};
use crate::memo::{memo_from_bytes, memo_of_bytes, MemoError, MemoKind, MemoView};

verus! {

/// A previous output that a transaction spends.
#[derive(Clone, Copy, Debug)]
pub struct OutPoint {
    pub txid: crate::witness::Hash,
    pub vout: u32,
}

/// A transparent output: where it goes and its value.
#[derive(Clone, Debug)]
pub struct TxOut2 {
    pub address: Option<String>,
    pub value: u64,
    pub vout: u32,
}

/// A transparent note of the account.
#[derive(Clone, Debug)]
pub struct TransparentNote {
    pub id: u32,
    pub address: String,
    pub value: u64,
}

/// A transparent input, with the account's note when it spends one.
#[derive(Clone, Debug)]
pub struct TransparentInput {
    pub out_point: OutPoint,
    pub coin: TxOut2,
    pub note: Option<TransparentNote>,
}

/// A transparent output, with the account's note when it pays one.
#[derive(Clone, Debug)]
pub struct TransparentOutput {
    pub coin: TxOut2,
    pub note: Option<TransparentNote>,
}

/// A shielded note: raw address, value and randomness.
#[derive(Clone, Copy, Debug)]
pub struct PlainNote {
    pub id: u32,
    pub address: [u8; 43],
    pub value: u64,
    pub rcm: crate::witness::Hash,
    pub rho: Option<crate::witness::Hash>,
}

/// The bytes of a memo.
#[derive(Clone, Debug)]
pub struct CompressedMemo(pub Vec<u8>);

/// How a memo reads for the user: its text; nothing when empty; a
/// placeholder for data reserved for future use; arbitrary data in
/// hexadecimal.
pub open spec fn memo_display(m: MemoView) -> Seq<char> {
    match m {
        MemoView::Text(t) => t,
        MemoView::Empty => Seq::empty(),
        MemoView::Future(_) => "(Future data)"@,
        MemoView::Arbitrary(d) => crate::encoding::hex_spec(d),
    }
}

impl CompressedMemo {
    /// How the memo reads for the user.
    pub fn to_string(&self) -> (r: String)
        requires
            memo_of_bytes(self.0@) is Ok,
        ensures
            memo_of_bytes(self.0@) matches Ok(m) && r@ == memo_display(m),
    {
        match memo_from_bytes(self.0.as_slice()) {
            Ok(MemoKind::Text(t)) => t,
            Ok(MemoKind::Empty) => String::new(),
            Ok(MemoKind::Future(_)) => String::from_str("(Future data)"),
            Ok(MemoKind::Arbitrary(d)) => crate::encoding::hex_encode(d.as_slice()),
            Err(_) => String::new(),
        }
    }
}

/// A decrypted shielded output: the note, its memo and whether the account
/// received it (rather than sent it).
#[derive(Clone, Debug)]
pub struct FullPlainNote {
    pub note: PlainNote,
    pub memo: CompressedMemo,
    pub incoming: bool,
}

/// A shielded spend, with the account's note when it spends one.
#[derive(Clone, Copy, Debug)]
pub struct ShieldedInput {
    pub nf: crate::witness::Hash,
    pub note: Option<PlainNote>,
}

/// A shielded output, with its note when the account could decrypt it.
#[derive(Clone, Debug)]
pub struct ShieldedOutput {
    pub cmx: crate::witness::Hash,
    pub note: Option<FullPlainNote>,
}

/// A shielded output as first stored: its note, its raw address and memo.
#[derive(Clone, Debug)]
pub struct ShieldedOutputUncompressed {
    pub incoming: bool,
    pub note: Option<PlainNote>,
    pub cmx: crate::witness::Hash,
    pub address: Option<[u8; 43]>,
    pub memo: Vec<u8>,
}

/// The details of a transaction for an account.
#[derive(Clone, Debug)]
pub struct TransactionDetails {
    pub height: u32,
    pub timestamp: u32,
    pub txid: crate::witness::Hash,
    pub value: i64,
    pub tins: Vec<TransparentInput>,
    pub touts: Vec<TransparentOutput>,
    pub sins: Vec<ShieldedInput>,
    pub souts: Vec<ShieldedOutput>,
    pub oins: Vec<ShieldedInput>,
    pub oouts: Vec<ShieldedOutput>,
}

/// The addresses of an account, one per pool.
#[derive(Clone, Debug)]
pub struct Addresses {
    pub transparent: Option<String>,
    pub sapling: Option<String>,
    pub orchard: Option<String>,
}

/// Value of the account's note in a transparent input, 0 without one.
pub open spec fn tin_value(t: TransparentInput) -> int {
    match t.note {
        Some(n) => n.value as int,
        None => 0,
    }
}

/// Value of the account's note in a transparent output, 0 without one.
pub open spec fn tout_value(t: TransparentOutput) -> int {
    match t.note {
        Some(n) => n.value as int,
        None => 0,
    }
}

/// Value of the account's note in a shielded spend, 0 without one.
pub open spec fn sin_value(s: ShieldedInput) -> int {
    match s.note {
        Some(n) => n.value as int,
        None => 0,
    }
}

/// Value of the decrypted note of a shielded output, 0 without one.
pub open spec fn sout_value(s: ShieldedOutput) -> int {
    match s.note {
        Some(n) => n.note.value as int,
        None => 0,
    }
}

/// The sum of `f` over a sequence.
pub open spec fn sum_of<T>(s: Seq<T>, f: spec_fn(T) -> int) -> int
    decreases s.len(),
{
    if s.len() == 0 {
        0
    } else {
        sum_of(s.drop_last(), f) + f(s.last())
    }
}

/// What a transaction is worth to the account: the notes it creates for
/// the account less the notes of the account that it spends.
pub open spec fn tx_value_spec(
    tins: Seq<TransparentInput>,
    touts: Seq<TransparentOutput>,
    sins: Seq<ShieldedInput>,
    souts: Seq<ShieldedOutput>,
    oins: Seq<ShieldedInput>,
    oouts: Seq<ShieldedOutput>,
) -> int {
    (sum_of(touts, |t: TransparentOutput| tout_value(t)) + sum_of(souts, |s: ShieldedOutput| sout_value(s)) + sum_of(
        oouts,
        |s: ShieldedOutput| sout_value(s),
    )) - (sum_of(tins, |t: TransparentInput| tin_value(t)) + sum_of(sins, |s: ShieldedInput| sin_value(s)) + sum_of(
        oins,
        |s: ShieldedInput| sin_value(s),
    ))
}

/// Values of notes stay below the total supply.
pub open spec fn values_bounded(
    tins: Seq<TransparentInput>,
    touts: Seq<TransparentOutput>,
    sins: Seq<ShieldedInput>,
    souts: Seq<ShieldedOutput>,
    oins: Seq<ShieldedInput>,
    oouts: Seq<ShieldedOutput>,
) -> bool {
    &&& sum_of(tins, |t: TransparentInput| tin_value(t)) <= crate::pay::MAX_MONEY
    &&& sum_of(touts, |t: TransparentOutput| tout_value(t)) <= crate::pay::MAX_MONEY
    &&& sum_of(sins, |s: ShieldedInput| sin_value(s)) <= crate::pay::MAX_MONEY
    &&& sum_of(souts, |s: ShieldedOutput| sout_value(s)) <= crate::pay::MAX_MONEY
    &&& sum_of(oins, |s: ShieldedInput| sin_value(s)) <= crate::pay::MAX_MONEY
    &&& sum_of(oouts, |s: ShieldedOutput| sout_value(s)) <= crate::pay::MAX_MONEY
}

/// A sum of values that are never negative only grows along a sequence.
pub(crate) proof fn lemma_sum_prefix<T>(s: Seq<T>, k: int, f: spec_fn(T) -> int)
    requires
        0 <= k <= s.len(),
        forall|i: int| 0 <= i < s.len() ==> 0 <= #[trigger] f(s[i]),
    ensures
        0 <= sum_of(s.take(k), f) <= sum_of(s, f),
    decreases s.len(),
{
    if s.len() > 0 {
        assert forall|i: int| 0 <= i < s.drop_last().len() implies 0 <= #[trigger] f(s.drop_last()[i]) by {
            assert(s.drop_last()[i] == s[i]);
        }
        if k < s.len() {
            assert(s.drop_last().take(k) =~= s.take(k));
            lemma_sum_prefix(s.drop_last(), k, f);
            assert(0 <= f(s.last()));
        } else {
            assert(s.take(k) =~= s);
            lemma_sum_prefix(s.drop_last(), k - 1, f);
            assert(s.drop_last().take(k - 1) =~= s.drop_last());
            assert(0 <= f(s.last()));
        }
    } else {
        assert(s.take(k) =~= s);
    }
}

/// Sum of the account's transparent inputs.
fn sum_tins(v: &Vec<TransparentInput>) -> (r: i64)
    requires
        sum_of(v@, |t: TransparentInput| tin_value(t)) <= crate::pay::MAX_MONEY,
    ensures
        r == sum_of(v@, |t: TransparentInput| tin_value(t)),
        0 <= r,
{
    let mut s: i64 = 0;
    let mut i: usize = 0;
    while i < v.len()
        invariant
            i <= v@.len(),
            sum_of(v@, |t: TransparentInput| tin_value(t)) <= crate::pay::MAX_MONEY,
            s == sum_of(v@.take(i as int), |t: TransparentInput| tin_value(t)),
        decreases v@.len() - i,
    {
        proof {
            assert(v@.take(i + 1).drop_last() =~= v@.take(i as int));
            lemma_sum_prefix(v@, i + 1, |t: TransparentInput| tin_value(t));
            lemma_sum_prefix(v@, i as int, |t: TransparentInput| tin_value(t));
        }
        let a: i64 = match &v[i].note {
            Some(n) => n.value as i64,
            None => 0,
        };
        s = s + a;
        i = i + 1;
    }
    proof {
        assert(v@.take(v@.len() as int) =~= v@);
        lemma_sum_prefix(v@, v@.len() as int, |t: TransparentInput| tin_value(t));
    }
    s
}

/// Sum of the account's transparent outputs.
fn sum_touts(v: &Vec<TransparentOutput>) -> (r: i64)
    requires
        sum_of(v@, |t: TransparentOutput| tout_value(t)) <= crate::pay::MAX_MONEY,
    ensures
        r == sum_of(v@, |t: TransparentOutput| tout_value(t)),
        0 <= r,
{
    let mut s: i64 = 0;
    let mut i: usize = 0;
    while i < v.len()
        invariant
            i <= v@.len(),
            sum_of(v@, |t: TransparentOutput| tout_value(t)) <= crate::pay::MAX_MONEY,
            s == sum_of(v@.take(i as int), |t: TransparentOutput| tout_value(t)),
        decreases v@.len() - i,
    {
        proof {
            assert(v@.take(i + 1).drop_last() =~= v@.take(i as int));
            lemma_sum_prefix(v@, i + 1, |t: TransparentOutput| tout_value(t));
            lemma_sum_prefix(v@, i as int, |t: TransparentOutput| tout_value(t));
        }
        let a: i64 = match &v[i].note {
            Some(n) => n.value as i64,
            None => 0,
        };
        s = s + a;
        i = i + 1;
    }
    proof {
        assert(v@.take(v@.len() as int) =~= v@);
        lemma_sum_prefix(v@, v@.len() as int, |t: TransparentOutput| tout_value(t));
    }
    s
}

/// Sum of the account's shielded spends.
fn sum_sins(v: &Vec<ShieldedInput>) -> (r: i64)
    requires
        sum_of(v@, |t: ShieldedInput| sin_value(t)) <= crate::pay::MAX_MONEY,
    ensures
        r == sum_of(v@, |t: ShieldedInput| sin_value(t)),
        0 <= r,
{
    let mut s: i64 = 0;
    let mut i: usize = 0;
    while i < v.len()
        invariant
            i <= v@.len(),
            sum_of(v@, |t: ShieldedInput| sin_value(t)) <= crate::pay::MAX_MONEY,
            s == sum_of(v@.take(i as int), |t: ShieldedInput| sin_value(t)),
        decreases v@.len() - i,
    {
        proof {
            assert(v@.take(i + 1).drop_last() =~= v@.take(i as int));
            lemma_sum_prefix(v@, i + 1, |t: ShieldedInput| sin_value(t));
            lemma_sum_prefix(v@, i as int, |t: ShieldedInput| sin_value(t));
        }
        let a: i64 = match &v[i].note {
            Some(n) => n.value as i64,
            None => 0,
        };
        s = s + a;
        i = i + 1;
    }
    proof {
        assert(v@.take(v@.len() as int) =~= v@);
        lemma_sum_prefix(v@, v@.len() as int, |t: ShieldedInput| sin_value(t));
    }
    s
}

/// Sum of the decrypted shielded outputs.
fn sum_souts(v: &Vec<ShieldedOutput>) -> (r: i64)
    requires
        sum_of(v@, |t: ShieldedOutput| sout_value(t)) <= crate::pay::MAX_MONEY,
    ensures
        r == sum_of(v@, |t: ShieldedOutput| sout_value(t)),
        0 <= r,
{
    let mut s: i64 = 0;
    let mut i: usize = 0;
    while i < v.len()
        invariant
            i <= v@.len(),
            sum_of(v@, |t: ShieldedOutput| sout_value(t)) <= crate::pay::MAX_MONEY,
            s == sum_of(v@.take(i as int), |t: ShieldedOutput| sout_value(t)),
        decreases v@.len() - i,
    {
        proof {
            assert(v@.take(i + 1).drop_last() =~= v@.take(i as int));
            lemma_sum_prefix(v@, i + 1, |t: ShieldedOutput| sout_value(t));
            lemma_sum_prefix(v@, i as int, |t: ShieldedOutput| sout_value(t));
        }
        let a: i64 = match &v[i].note {
            Some(n) => n.note.value as i64,
            None => 0,
        };
        s = s + a;
        i = i + 1;
    }
    proof {
        assert(v@.take(v@.len() as int) =~= v@);
        lemma_sum_prefix(v@, v@.len() as int, |t: ShieldedOutput| sout_value(t));
    }
    s
}

impl TransactionDetails {
    /// The details of a transaction from what it spends and creates in
    /// each pool; its value is what it is worth to the account.
    pub fn from_parts(
        height: u32,
        timestamp: u32,
        txid: crate::witness::Hash,
        tins: Vec<TransparentInput>,
        touts: Vec<TransparentOutput>,
        sins: Vec<ShieldedInput>,
        souts: Vec<ShieldedOutput>,
        oins: Vec<ShieldedInput>,
        oouts: Vec<ShieldedOutput>,
    ) -> (r: TransactionDetails)
        requires
            values_bounded(tins@, touts@, sins@, souts@, oins@, oouts@),
        ensures
            r.value == tx_value_spec(tins@, touts@, sins@, souts@, oins@, oouts@),
            r.height == height,
            r.timestamp == timestamp,
            r.txid == txid,
            r.tins == tins,
            r.touts == touts,
            r.sins == sins,
            r.souts == souts,
            r.oins == oins,
            r.oouts == oouts,
    {
        let tin_value = sum_tins(&tins);
        let tout_value = sum_touts(&touts);
        let sin_value = sum_sins(&sins);
        let sout_value = sum_souts(&souts);
        let oin_value = sum_sins(&oins);
        let oout_value = sum_souts(&oouts);
        let value = (tout_value + sout_value + oout_value) - (tin_value + sin_value + oin_value);
        TransactionDetails { height, timestamp, txid, value, tins, touts, sins, souts, oins, oouts }
    }
}

// ---------------------------------------------------------------------
// Who a transaction is with, and its memo
// ---------------------------------------------------------------------

/// Walks the addresses of outputs: one that is not the account's own
/// becomes the counterpart, the account's own is kept aside.
pub open spec fn visit_outputs(st: (Option<String>, Option<String>), addrs: Seq<Option<String>>, mine: String) -> (Option<String>, Option<String>)
    decreases addrs.len(),
{
    if addrs.len() == 0 {
        st
    } else {
        let st2 = visit_outputs(st, addrs.drop_last(), mine);
        match addrs.last() {
            Some(a) => if a@ != mine@ {
                (Some(a), st2.1)
            } else {
                (st2.0, Some(a))
            },
            None => st2,
        }
    }
}

/// The first text memo, or the first memo that cannot be read before it.
pub open spec fn first_text_memo(memos: Seq<Seq<u8>>) -> Result<Option<Seq<char>>, MemoError>
    decreases memos.len(),
{
    if memos.len() == 0 {
        Ok(None)
    } else {
        match memo_of_bytes(memos[0]) {
            Err(e) => Err(e),
            Ok(MemoView::Text(t)) => Ok(Some(t)),
            Ok(_) => first_text_memo(memos.drop_first()),
        }
    }
}

/// The addresses of the transparent outputs.
pub open spec fn tout_addresses(touts: Seq<TransparentOutput>) -> Seq<Option<String>> {
    touts.map_values(|t: TransparentOutput| t.coin.address)
}

/// The addresses of the decrypted outputs of a pool, for the outputs
/// with a note (given by `addrs`, one per output).
pub open spec fn note_addresses(outs: Seq<ShieldedOutput>, addrs: Seq<String>) -> Seq<Option<String>> {
    Seq::new(outs.len(), |i: int| if outs[i].note is Some { Some(addrs[i]) } else { None })
}

/// The memos of the decrypted outputs of a pool.
pub open spec fn note_memos(outs: Seq<ShieldedOutput>) -> Seq<Seq<u8>>
    decreases outs.len(),
{
    if outs.len() == 0 {
        Seq::empty()
    } else {
        let m = note_memos(outs.drop_last());
        match outs.last().note {
            Some(n) => m.push(n.memo.0@),
            None => m,
        }
    }
}

/// The counterpart of a transaction as its outputs are walked pool by
/// pool (see `primary_address_spec`).
pub open spec fn primary_address_walk(
    value: i64,
    addrs: Addresses,
    tins: Seq<TransparentInput>,
    touts: Seq<TransparentOutput>,
    souts: Seq<ShieldedOutput>,
    sout_addrs: Seq<String>,
    oouts: Seq<ShieldedOutput>,
    oout_addrs: Seq<String>,
) -> Option<String> {
    let st0: (Option<String>, Option<String>) = (None, None);
    let st1 = if value > 0 {
        if tins.len() > 0 {
            (tins.last().coin.address, st0.1)
        } else {
            st0
        }
    } else {
        match addrs.transparent {
            Some(t) => visit_outputs(st0, tout_addresses(touts), t),
            None => st0,
        }
    };
    let st2 = match addrs.sapling {
        Some(s) => visit_outputs(st1, note_addresses(souts, sout_addrs), s),
        None => st1,
    };
    let st3 = match addrs.orchard {
        Some(o) => visit_outputs(st2, note_addresses(oouts, oout_addrs), o),
        None => st2,
    };
    if st3.0 is Some {
        st3.0
    } else {
        st3.1
    }
}

/// The addresses among `addrs` other than `mine`.
pub open spec fn others(addrs: Seq<Option<String>>, mine: String) -> Seq<Option<String>> {
    addrs.filter(|a: Option<String>| a matches Some(x) && x@ != mine@)
}

/// The addresses among `addrs` that are `mine`.
pub open spec fn owns(addrs: Seq<Option<String>>, mine: String) -> Seq<Option<String>> {
    addrs.filter(|a: Option<String>| a matches Some(x) && x@ == mine@)
}

/// The last of `s`, or `d` where `s` is empty.
pub open spec fn last_or(s: Seq<Option<String>>, d: Option<String>) -> Option<String> {
    if s.len() > 0 { s.last() } else { d }
}

/// The counterpart of a transaction. The candidates are: for an incoming
/// transaction, the address of its last transparent input; for another,
/// the addresses of its transparent outputs other than the account's
/// transparent address; then the addresses of its decrypted Sapling and
/// Orchard outputs other than the account's own of those pools (each pool
/// looked at where the account has an address in it). The counterpart is
/// the last candidate; failing any, the last output to one of the
/// account's own addresses.
pub open spec fn primary_address_spec(
    value: i64,
    addrs: Addresses,
    tins: Seq<TransparentInput>,
    touts: Seq<TransparentOutput>,
    souts: Seq<ShieldedOutput>,
    sout_addrs: Seq<String>,
    oouts: Seq<ShieldedOutput>,
    oout_addrs: Seq<String>,
) -> Option<String> {
    let none = Seq::<Option<String>>::empty();
    let t_others = if value > 0 {
        if tins.len() > 0 && tins.last().coin.address is Some { seq![tins.last().coin.address] } else { none }
    } else {
        match addrs.transparent { Some(t) => others(tout_addresses(touts), t), None => none }
    };
    let t_owns = if value > 0 {
        none
    } else {
        match addrs.transparent { Some(t) => owns(tout_addresses(touts), t), None => none }
    };
    let s_others = match addrs.sapling { Some(a) => others(note_addresses(souts, sout_addrs), a), None => none };
    let s_owns = match addrs.sapling { Some(a) => owns(note_addresses(souts, sout_addrs), a), None => none };
    let o_others = match addrs.orchard { Some(a) => others(note_addresses(oouts, oout_addrs), a), None => none };
    let o_owns = match addrs.orchard { Some(a) => owns(note_addresses(oouts, oout_addrs), a), None => none };
    last_or(t_others + s_others + o_others, last_or(t_owns + s_owns + o_owns, None))
}

/// Walking outputs keeps the last address other than the account's, and
/// the last that is the account's.
pub proof fn lemma_visit_outputs(st: (Option<String>, Option<String>), addrs: Seq<Option<String>>, mine: String)
    ensures
        visit_outputs(st, addrs, mine) == (last_or(others(addrs, mine), st.0), last_or(owns(addrs, mine), st.1)),
    decreases addrs.len(),
{
    reveal(Seq::filter);
    if addrs.len() > 0 {
        lemma_visit_outputs(st, addrs.drop_last(), mine);
    }
}

/// The last of two joined lists, defaulting to `d`.
pub proof fn lemma_last_or_add(a: Seq<Option<String>>, b: Seq<Option<String>>, d: Option<String>)
    ensures
        last_or(a + b, d) == last_or(b, last_or(a, d)),
{
    if b.len() > 0 {
        assert((a + b).last() == b.last());
    } else {
        assert(a + b =~= a);
    }
}

/// Walking the outputs gives the counterpart.
pub proof fn lemma_primary_address(
    value: i64,
    addrs: Addresses,
    tins: Seq<TransparentInput>,
    touts: Seq<TransparentOutput>,
    souts: Seq<ShieldedOutput>,
    sout_addrs: Seq<String>,
    oouts: Seq<ShieldedOutput>,
    oout_addrs: Seq<String>,
)
    ensures
        primary_address_walk(value, addrs, tins, touts, souts, sout_addrs, oouts, oout_addrs)
            == primary_address_spec(value, addrs, tins, touts, souts, sout_addrs, oouts, oout_addrs),
{
    let none = Seq::<Option<String>>::empty();
    let st0: (Option<String>, Option<String>) = (None, None);
    let t_others = if value > 0 {
        if tins.len() > 0 && tins.last().coin.address is Some { seq![tins.last().coin.address] } else { none }
    } else {
        match addrs.transparent { Some(t) => others(tout_addresses(touts), t), None => none }
    };
    let t_owns = if value > 0 {
        none
    } else {
        match addrs.transparent { Some(t) => owns(tout_addresses(touts), t), None => none }
    };
    let s_others = match addrs.sapling { Some(a) => others(note_addresses(souts, sout_addrs), a), None => none };
    let s_owns = match addrs.sapling { Some(a) => owns(note_addresses(souts, sout_addrs), a), None => none };
    let o_others = match addrs.orchard { Some(a) => others(note_addresses(oouts, oout_addrs), a), None => none };
    let o_owns = match addrs.orchard { Some(a) => owns(note_addresses(oouts, oout_addrs), a), None => none };
    let st1 = if value > 0 {
        if tins.len() > 0 { (tins.last().coin.address, st0.1) } else { st0 }
    } else {
        match addrs.transparent { Some(t) => visit_outputs(st0, tout_addresses(touts), t), None => st0 }
    };
    if value <= 0 {
        if let Some(t) = addrs.transparent {
            lemma_visit_outputs(st0, tout_addresses(touts), t);
        }
    }
    assert(st1 == (last_or(t_others, None), last_or(t_owns, None)));
    let st2 = match addrs.sapling { Some(s) => visit_outputs(st1, note_addresses(souts, sout_addrs), s), None => st1 };
    if let Some(a) = addrs.sapling {
        lemma_visit_outputs(st1, note_addresses(souts, sout_addrs), a);
    }
    assert(st2 == (last_or(s_others, st1.0), last_or(s_owns, st1.1)));
    let st3 = match addrs.orchard { Some(o) => visit_outputs(st2, note_addresses(oouts, oout_addrs), o), None => st2 };
    if let Some(a) = addrs.orchard {
        lemma_visit_outputs(st2, note_addresses(oouts, oout_addrs), a);
    }
    assert(st3 == (last_or(o_others, st2.0), last_or(o_owns, st2.1)));
    lemma_last_or_add(t_others, s_others, None);
    lemma_last_or_add(t_others + s_others, o_others, None);
    lemma_last_or_add(t_owns, s_owns, None);
    lemma_last_or_add(t_owns + s_owns, o_owns, None);
}

/// The memos that may carry the transaction's message: those of the
/// decrypted outputs of the pools where the account has an address,
/// Sapling first.
pub open spec fn candidate_memos(addrs: Addresses, souts: Seq<ShieldedOutput>, oouts: Seq<ShieldedOutput>) -> Seq<Seq<u8>> {
    (if addrs.sapling is Some { note_memos(souts) } else { Seq::empty() }) + (if addrs.orchard is Some {
        note_memos(oouts)
    } else {
        Seq::empty()
    })
}

/// Walks the addresses of outputs as `visit_outputs` does.
fn visit_output_addresses(st: &mut (Option<String>, Option<String>), addrs: &Vec<Option<String>>, mine: &String)
    ensures
        *final(st) == visit_outputs(*old(st), addrs@, *mine),
{
    let ghost st0 = *st;
    let mut i: usize = 0;
    while i < addrs.len()
        invariant
            i <= addrs@.len(),
            *st == visit_outputs(st0, addrs@.take(i as int), *mine),
        decreases addrs@.len() - i,
    {
        proof {
            assert(addrs@.take(i + 1).drop_last() =~= addrs@.take(i as int));
        }
        if let Some(a) = &addrs[i] {
            if !(*a == *mine) {
                st.0 = Some(a.clone());
            } else {
                st.1 = Some(a.clone());
            }
        }
        i = i + 1;
    }
    proof {
        assert(addrs@.take(addrs@.len() as int) =~= addrs@);
    }
}

/// The addresses of the transparent outputs.
fn collect_tout_addresses(touts: &Vec<TransparentOutput>) -> (r: Vec<Option<String>>)
    ensures
        r@ == tout_addresses(touts@),
{
    let mut r: Vec<Option<String>> = Vec::new();
    let mut i: usize = 0;
    while i < touts.len()
        invariant
            i <= touts@.len(),
            r@ == tout_addresses(touts@.take(i as int)),
        decreases touts@.len() - i,
    {
        let a = match &touts[i].coin.address {
            Some(s) => Some(s.clone()),
            None => None,
        };
        r.push(a);
        i = i + 1;
        proof {
            assert(tout_addresses(touts@.take(i as int)) =~= r@);
        }
    }
    proof {
        assert(touts@.take(touts@.len() as int) =~= touts@);
    }
    r
}

/// The addresses of the decrypted outputs.
fn collect_note_addresses(outs: &Vec<ShieldedOutput>, addrs: &Vec<String>) -> (r: Vec<Option<String>>)
    requires
        addrs@.len() == outs@.len(),
    ensures
        r@ == note_addresses(outs@, addrs@),
{
    let mut r: Vec<Option<String>> = Vec::new();
    let mut i: usize = 0;
    while i < outs.len()
        invariant
            i <= outs@.len(),
            addrs@.len() == outs@.len(),
            r@.len() == i,
            forall|k: int| 0 <= k < i ==> #[trigger] r@[k] == note_addresses(outs@, addrs@)[k],
        decreases outs@.len() - i,
    {
        let a = if outs[i].note.is_some() { Some(addrs[i].clone()) } else { None };
        r.push(a);
        i = i + 1;
    }
    proof {
        assert(r@ =~= note_addresses(outs@, addrs@));
    }
    r
}

/// Appends the memos of the decrypted outputs.
fn push_note_memos(memos: &mut Vec<Vec<u8>>, outs: &Vec<ShieldedOutput>)
    ensures
        final(memos)@.map_values(|m: Vec<u8>| m@) == old(memos)@.map_values(|m: Vec<u8>| m@) + note_memos(outs@),
{
    let ghost start = memos@.map_values(|m: Vec<u8>| m@);
    let mut i: usize = 0;
    while i < outs.len()
        invariant
            i <= outs@.len(),
            memos@.map_values(|m: Vec<u8>| m@) == start + note_memos(outs@.take(i as int)),
        decreases outs@.len() - i,
    {
        proof {
            assert(outs@.take(i + 1).drop_last() =~= outs@.take(i as int));
        }
        if let Some(n) = &outs[i].note {
            let ghost before = memos@;
            memos.push(n.memo.0.clone());
            proof {
                assert(memos@.map_values(|m: Vec<u8>| m@) =~= before.map_values(|m: Vec<u8>| m@).push(n.memo.0@));
            }
        }
        i = i + 1;
        proof {
            assert((start + note_memos(outs@.take(i - 1))).push(outs@[i - 1].note->0.memo.0@) =~= start + note_memos(outs@.take(i - 1)).push(outs@[i - 1].note->0.memo.0@));
        }
    }
    proof {
        assert(outs@.take(outs@.len() as int) =~= outs@);
    }
}

/// The text of the first text memo among `memos`, or the error of the
/// first memo before it that cannot be read.
pub fn first_memo_text(memos: &Vec<Vec<u8>>) -> (r: Result<Option<String>, MemoError>)
    ensures
        match r {
            Ok(m) => first_text_memo(memos@.map_values(|m: Vec<u8>| m@)) == Ok::<Option<Seq<char>>, MemoError>(crate::data::opt_str_view(m)),
            Err(e) => first_text_memo(memos@.map_values(|m: Vec<u8>| m@)) == Err::<Option<Seq<char>>, MemoError>(e),
        },
{
    let ghost ms = memos@.map_values(|m: Vec<u8>| m@);
    proof {
        assert(ms.skip(0) =~= ms);
    }
    let mut i: usize = 0;
    while i < memos.len()
        invariant
            i <= memos@.len(),
            ms == memos@.map_values(|m: Vec<u8>| m@),
            first_text_memo(ms) == first_text_memo(ms.skip(i as int)),
        decreases memos@.len() - i,
    {
        proof {
            assert(ms.skip(i as int).drop_first() =~= ms.skip(i + 1));
            assert(ms.skip(i as int)[0] == memos@[i as int]@);
        }
        match memo_from_bytes(memos[i].as_slice()) {
            Err(e) => {
                return Err(e);
            },
            Ok(MemoKind::Text(t)) => {
                return Ok(Some(t));
            },
            Ok(_) => {},
        }
        i = i + 1;
    }
    proof {
        assert(ms.skip(memos@.len() as int) =~= Seq::<Seq<u8>>::empty());
    }
    Ok(None)
}

/// The counterpart of a transaction and its message: see
/// `primary_address_spec` and `candidate_memos`. `sout_addrs` and
/// `oout_addrs` hold the encoded addresses of the notes of the shielded
/// outputs (anything where an output has no note).
pub fn get_tx_primary_address_memo(
    value: i64,
    addrs: &Addresses,
    txd: &TransactionDetails,
    sout_addrs: &Vec<String>,
    oout_addrs: &Vec<String>,
) -> (r: Result<(Option<String>, Option<String>), MemoError>)
    requires
        sout_addrs@.len() == txd.souts@.len(),
        oout_addrs@.len() == txd.oouts@.len(),
    ensures
        match r {
            Ok((a, m)) => {
                &&& a == primary_address_spec(value, *addrs, txd.tins@, txd.touts@, txd.souts@, sout_addrs@, txd.oouts@, oout_addrs@)
                &&& first_text_memo(candidate_memos(*addrs, txd.souts@, txd.oouts@)) == Ok::<Option<Seq<char>>, MemoError>(crate::data::opt_str_view(m))
            },
            Err(e) => first_text_memo(candidate_memos(*addrs, txd.souts@, txd.oouts@)) == Err::<Option<Seq<char>>, MemoError>(e),
        },
{
    let mut st: (Option<String>, Option<String>) = (None, None);
    if value > 0 {
        if txd.tins.len() > 0 {
            let last = &txd.tins[txd.tins.len() - 1];
            st.0 = match &last.coin.address {
                Some(a) => Some(a.clone()),
                None => None,
            };
        }
    } else if let Some(taddr) = &addrs.transparent {
        let ta = collect_tout_addresses(&txd.touts);
        visit_output_addresses(&mut st, &ta, taddr);
    }
    let mut memos: Vec<Vec<u8>> = Vec::new();
    if let Some(saddr) = &addrs.sapling {
        let sa = collect_note_addresses(&txd.souts, sout_addrs);
        visit_output_addresses(&mut st, &sa, saddr);
        push_note_memos(&mut memos, &txd.souts);
    }
    let ghost after_s = memos@.map_values(|m: Vec<u8>| m@);
    if let Some(oaddr) = &addrs.orchard {
        let oa = collect_note_addresses(&txd.oouts, oout_addrs);
        visit_output_addresses(&mut st, &oa, oaddr);
        push_note_memos(&mut memos, &txd.oouts);
    }
    proof {
        assert(Seq::<Vec<u8>>::empty().map_values(|m: Vec<u8>| m@) =~= Seq::<Seq<u8>>::empty());
        assert(memos@.map_values(|m: Vec<u8>| m@) =~= candidate_memos(*addrs, txd.souts@, txd.oouts@));
    }
    let memo = match first_memo_text(&memos) {
        Ok(m) => m,
        Err(e) => {
            return Err(e);
        },
    };
    let address = if st.0.is_some() { st.0 } else { st.1 };
    proof {
        lemma_primary_address(value, *addrs, txd.tins@, txd.touts@, txd.souts@, sout_addrs@, txd.oouts@, oout_addrs@);
    }
    Ok((address, memo))
}

// ---------------------------------------------------------------------
// Reading a transaction's outputs
// ---------------------------------------------------------------------

/// The transparent address that a transaction spends from: the last
/// transparent input with an address, looked at only when the account
/// has a transparent address.
pub open spec fn spend_address_spec(taddr: Option<String>, tins: Seq<TransparentInput>) -> Option<String>
    decreases tins.len(),
{
    if taddr is None || tins.len() == 0 {
        None
    } else {
        match tins.last().coin.address {
            Some(a) => Some(a),
            None => spend_address_spec(taddr, tins.drop_last()),
        }
    }
}

/// Whether an optional address is the address `t`.
pub open spec fn same_address(a: Option<String>, t: String) -> bool {
    a matches Some(x) && x@ == t@
}

/// Whether the transaction comes from the account: it spends from the
/// account's transparent address or spends one of its shielded notes.
pub open spec fn authenticated_spec(taddr: Option<String>, tins: Seq<TransparentInput>, sins: Seq<ShieldedInput>, oins: Seq<ShieldedInput>) -> bool {
    ||| (taddr matches Some(t) && exists|i: int| 0 <= i < tins.len() && #[trigger] same_address(tins[i].coin.address, t))
    ||| exists|i: int| 0 <= i < sins.len() && (#[trigger] sins[i]).note is Some
    ||| exists|i: int| 0 <= i < oins.len() && (#[trigger] oins[i]).note is Some
}

/// Whether some shielded spend is of the account's notes.
fn spends_own_note(ins: &Vec<ShieldedInput>) -> (r: bool)
    ensures
        r == exists|i: int| 0 <= i < ins@.len() && (#[trigger] ins@[i]).note is Some,
{
    let mut i: usize = 0;
    while i < ins.len()
        invariant
            i <= ins@.len(),
            forall|k: int| 0 <= k < i ==> (#[trigger] ins@[k]).note is None,
        decreases ins@.len() - i,
    {
        if ins[i].note.is_some() {
            return true;
        }
        i = i + 1;
    }
    false
}

/// The address that the transaction spends from, and whether it comes
/// from the account.
pub fn spend_info(taddr: &Option<String>, txd: &TransactionDetails) -> (r: (Option<String>, bool))
    ensures
        r.0 == spend_address_spec(*taddr, txd.tins@),
        r.1 == authenticated_spec(*taddr, txd.tins@, txd.sins@, txd.oins@),
{
    let mut spend_address: Option<String> = None;
    let mut authenticated = false;
    if let Some(t) = taddr {
        let mut i: usize = 0;
        while i < txd.tins.len()
            invariant
                i <= txd.tins@.len(),
                *taddr == Some(*t),
                spend_address == spend_address_spec(*taddr, txd.tins@.take(i as int)),
                authenticated == exists|k: int| 0 <= k < i && #[trigger] same_address(txd.tins@[k].coin.address, *t),
            decreases txd.tins@.len() - i,
        {
            proof {
                assert(txd.tins@.take(i + 1).drop_last() =~= txd.tins@.take(i as int));
            }
            if let Some(a) = &txd.tins[i].coin.address {
                spend_address = Some(a.clone());
                if *a == *t {
                    authenticated = true;
                }
            }
            proof {
                if authenticated && !(exists|k: int| 0 <= k < i && #[trigger] same_address(txd.tins@[k].coin.address, *t)) {
                    assert(same_address(txd.tins@[i as int].coin.address, *t));
                }
            }
            i = i + 1;
        }
        proof {
            assert(txd.tins@.take(txd.tins@.len() as int) =~= txd.tins@);
        }
    }
    if spends_own_note(&txd.sins) {
        authenticated = true;
    }
    if spends_own_note(&txd.oins) {
        authenticated = true;
    }
    (spend_address, authenticated)
}

/// The memos of the decrypted outputs, Sapling then Orchard, with the
/// index of each output counted across both pools.
pub open spec fn output_memos(souts: Seq<ShieldedOutput>, oouts: Seq<ShieldedOutput>) -> Seq<Seq<u8>> {
    note_memos(souts) + note_memos(oouts)
}

/// Puts back together a contact list sent in the memos of a transaction:
/// nothing when no memo carries a chunk of one.
pub fn decode_contacts(txd: &TransactionDetails) -> (r: Result<Option<Vec<u8>>, ChunkError>)
    requires
        forall|i: int| 0 <= i < output_memos(txd.souts@, txd.oouts@).len() ==> chunk_index_fits(
            CONTACT_COOKIE,
            initial_state(if txd.souts@.len() >= txd.oouts@.len() { txd.souts@.len() } else { txd.oouts@.len() }),
            #[trigger] output_memos(txd.souts@, txd.oouts@)[i],
        ),
    ensures
        ({
            let n = if txd.souts@.len() >= txd.oouts@.len() { txd.souts@.len() } else { txd.oouts@.len() };
            match r {
                Ok(v) => add_all(CONTACT_COOKIE, initial_state(n), output_memos(txd.souts@, txd.oouts@)) matches Ok(st) && match v {
                    Some(b) => finalize_spec(st) == Some(b@),
                    None => finalize_spec(st) is None,
                },
                Err(e) => add_all(CONTACT_COOKIE, initial_state(n), output_memos(txd.souts@, txd.oouts@)) matches Err(e2) && e2 == e,
            }
        }),
{
    let n = if txd.souts.len() >= txd.oouts.len() { txd.souts.len() } else { txd.oouts.len() };
    let mut memos: Vec<Vec<u8>> = Vec::new();
    push_note_memos(&mut memos, &txd.souts);
    push_note_memos(&mut memos, &txd.oouts);
    let ghost ms = memos@.map_values(|m: Vec<u8>| m@);
    proof {
        assert(Seq::<Vec<u8>>::empty().map_values(|m: Vec<u8>| m@) =~= Seq::<Seq<u8>>::empty());
        assert(ms =~= output_memos(txd.souts@, txd.oouts@));
    }
    let mut decoder: ChunkedMemoDecoder<ChunkedContactV1> = ChunkedMemoDecoder::new(n);
    let mut i: usize = 0;
    while i < memos.len()
        invariant
            i <= memos@.len(),
            ms == memos@.map_values(|m: Vec<u8>| m@),
            ms == output_memos(txd.souts@, txd.oouts@),
            n == if txd.souts@.len() >= txd.oouts@.len() { txd.souts@.len() } else { txd.oouts@.len() },
            forall|k: int| 0 <= k < ms.len() ==> chunk_index_fits(CONTACT_COOKIE, initial_state(n as nat), #[trigger] ms[k]),
            add_all(CONTACT_COOKIE, initial_state(n as nat), ms.take(i as int)) == Ok::<(bool, Seq<Seq<u8>>), ChunkError>(decoder@),
            decoder@.1.len() == n,
        decreases memos@.len() - i,
    {
        proof {
            assert(ms[i as int] == memos@[i as int]@);
        }
        let ghost before = decoder@;
        match decoder.add_memo(memos[i].as_slice()) {
            Ok(()) => {
                proof {
                    lemma_add_all_step(initial_state(n as nat), ms, i as int, before);
                }
            },
            Err(e) => {
                proof {
                    lemma_add_all_step(initial_state(n as nat), ms, i as int, before);
                    lemma_add_all_err(initial_state(n as nat), ms, i as int, e);
                    assert(ms == output_memos(txd.souts@, txd.oouts@));
                }
                return Err(e);
            },
        }
        i = i + 1;
    }
    proof {
        assert(ms.take(ms.len() as int) =~= ms);
    }
    Ok(decoder.finalize())
}

/// Reading one more memo.
proof fn lemma_add_all_step(st0: (bool, Seq<Seq<u8>>), ms: Seq<Seq<u8>>, i: int, st: (bool, Seq<Seq<u8>>))
    requires
        0 <= i < ms.len(),
        add_all(CONTACT_COOKIE, st0, ms.take(i)) == Ok::<(bool, Seq<Seq<u8>>), ChunkError>(st),
    ensures
        add_all(CONTACT_COOKIE, st0, ms.take(i + 1)) == crate::contacts::add_memo_spec(CONTACT_COOKIE, st, ms[i]),
{
    assert(ms.take(i + 1).drop_last() =~= ms.take(i));
    assert(ms.take(i + 1).last() == ms[i]);
}

/// An error while reading a memo is the error of reading them all.
proof fn lemma_add_all_err(st0: (bool, Seq<Seq<u8>>), ms: Seq<Seq<u8>>, i: int, e: ChunkError)
    requires
        0 <= i < ms.len(),
        add_all(CONTACT_COOKIE, st0, ms.take(i + 1)) == Err::<(bool, Seq<Seq<u8>>), ChunkError>(e),
    ensures
        add_all(CONTACT_COOKIE, st0, ms) == Err::<(bool, Seq<Seq<u8>>), ChunkError>(e),
    decreases ms.len(),
{
    if ms.len() == i + 1 {
        assert(ms.take(i + 1) =~= ms);
    } else {
        assert(ms.drop_last().take(i + 1) =~= ms.take(i + 1));
        lemma_add_all_err(st0, ms.drop_last(), i, e);
    }
}


// ---------------------------------------------------------------------
// Extended transaction information
// ---------------------------------------------------------------------

/// The view of optional bytes.
pub open spec fn opt_bytes(b: Option<Vec<u8>>) -> Option<Seq<u8>> {
    match b {
        Some(v) => Some(v@),
        None => None,
    }
}

/// The text of the address of a shielded note of a pool.
pub open spec fn note_address_text(network: crate::chain::Network, orchard: bool, raw: Seq<u8>) -> Seq<char> {
    if orchard {
        crate::encoding::orchard_address_text(network == crate::chain::Network::Main, raw)
    } else {
        crate::encoding::sapling_address_text(network == crate::chain::Network::Main, raw)
    }
}

/// Whether `t` describes the transparent input `i`.
pub open spec fn tin_info(i: TransparentInput, t: crate::data::InputTransparentT) -> bool {
    &&& opt_bytes(t.txid) == Some(i.out_point.txid@)
    &&& t.vout == i.out_point.vout
    &&& t.address == i.coin.address
    &&& t.value == i.coin.value
}

/// Whether `t` describes the transparent output `o`.
pub open spec fn tout_info(o: TransparentOutput, t: crate::data::OutputTransparentT) -> bool {
    &&& t.address == o.coin.address
    &&& t.value == o.coin.value
}

/// Whether `t` describes the shielded spend `i` of the pool `orchard`.
pub open spec fn sin_info(network: crate::chain::Network, orchard: bool, i: ShieldedInput, t: crate::data::InputShieldedT) -> bool {
    &&& t.orchard == orchard
    &&& opt_bytes(t.nf) == Some(i.nf@)
    &&& crate::data::opt_str_view(t.address) == match i.note {
        Some(n) => Some(note_address_text(network, orchard, n.address@)),
        None => None,
    }
    &&& t.value == match i.note {
        Some(n) => n.value,
        None => 0,
    }
    &&& opt_bytes(t.rcm) == match i.note {
        Some(n) => Some(n.rcm@),
        None => None,
    }
    &&& opt_bytes(t.rho) == match i.note {
        Some(n) => if orchard {
            match n.rho {
                Some(r) => Some(r@),
                None => None,
            }
        } else {
            None
        },
        None => None,
    }
}

/// Whether `t` describes the shielded output `o` of the pool `orchard`.
pub open spec fn sout_info(network: crate::chain::Network, orchard: bool, o: ShieldedOutput, t: crate::data::OutputShieldedT) -> bool {
    &&& t.orchard == orchard
    &&& opt_bytes(t.cmx) == Some(o.cmx@)
    &&& t.incoming == match o.note {
        Some(n) => n.incoming,
        None => false,
    }
    &&& crate::data::opt_str_view(t.address) == match o.note {
        Some(n) => Some(note_address_text(network, orchard, n.note.address@)),
        None => None,
    }
    &&& t.value == match o.note {
        Some(n) => n.note.value,
        None => 0,
    }
    &&& opt_bytes(t.rcm) == match o.note {
        Some(n) => Some(n.note.rcm@),
        None => None,
    }
    &&& opt_bytes(t.rho) == match o.note {
        Some(n) => match n.note.rho {
            Some(r) => Some(r@),
            None => Some(Seq::<u8>::empty()),
        },
        None => None,
    }
    &&& crate::data::opt_str_view(t.memo) == match o.note {
        Some(n) => match memo_of_bytes(n.memo.0@) {
            Ok(m) => Some(memo_display(m)),
            Err(_) => None,
        },
        None => None,
    }
}

/// Whether the memos of the decrypted outputs can be read.
pub open spec fn memos_readable(outs: Seq<ShieldedOutput>) -> bool {
    forall|i: int| 0 <= i < outs.len() && (#[trigger] outs[i]).note is Some ==> memo_of_bytes(outs[i].note->0.memo.0@) is Ok
}

fn tin_infos(v: &Vec<TransparentInput>) -> (r: Vec<crate::data::InputTransparentT>)
    ensures
        r@.len() == v@.len(),
        forall|k: int| 0 <= k < v@.len() ==> tin_info(v@[k], #[trigger] r@[k]),
{
    let mut r: Vec<crate::data::InputTransparentT> = Vec::new();
    let mut i: usize = 0;
    while i < v.len()
        invariant
            i <= v@.len(),
            r@.len() == i,
            forall|k: int| 0 <= k < i ==> tin_info(v@[k], #[trigger] r@[k]),
        decreases v@.len() - i,
    {
        let t = &v[i];
        r.push(crate::data::InputTransparentT {
            txid: Some(crate::encoding::array_to_vec(&t.out_point.txid)),
            vout: t.out_point.vout,
            address: match &t.coin.address {
                Some(a) => Some(a.clone()),
                None => None,
            },
            value: t.coin.value,
        });
        i = i + 1;
    }
    r
}

fn tout_infos(v: &Vec<TransparentOutput>) -> (r: Vec<crate::data::OutputTransparentT>)
    ensures
        r@.len() == v@.len(),
        forall|k: int| 0 <= k < v@.len() ==> tout_info(v@[k], #[trigger] r@[k]),
{
    let mut r: Vec<crate::data::OutputTransparentT> = Vec::new();
    let mut i: usize = 0;
    while i < v.len()
        invariant
            i <= v@.len(),
            r@.len() == i,
            forall|k: int| 0 <= k < i ==> tout_info(v@[k], #[trigger] r@[k]),
        decreases v@.len() - i,
    {
        let t = &v[i];
        r.push(crate::data::OutputTransparentT {
            address: match &t.coin.address {
                Some(a) => Some(a.clone()),
                None => None,
            },
            value: t.coin.value,
        });
        i = i + 1;
    }
    r
}

/// The text of the address of a note.
fn note_address(network: crate::chain::Network, orchard: bool, raw: &[u8; 43]) -> (r: String)
    ensures
        r@ == note_address_text(network, orchard, raw@),
{
    if orchard {
        crate::encoding::ua_of_orchard(network, raw)
    } else {
        crate::encoding::encode_sapling(network, raw)
    }
}

fn sin_infos(network: crate::chain::Network, orchard: bool, v: &Vec<ShieldedInput>) -> (r: Vec<crate::data::InputShieldedT>)
    ensures
        r@.len() == v@.len(),
        forall|k: int| 0 <= k < v@.len() ==> sin_info(network, orchard, v@[k], #[trigger] r@[k]),
{
    let mut r: Vec<crate::data::InputShieldedT> = Vec::new();
    let mut i: usize = 0;
    while i < v.len()
        invariant
            i <= v@.len(),
            r@.len() == i,
            forall|k: int| 0 <= k < i ==> sin_info(network, orchard, v@[k], #[trigger] r@[k]),
        decreases v@.len() - i,
    {
        let t = &v[i];
        let info = match &t.note {
            Some(n) => crate::data::InputShieldedT {
                orchard,
                nf: Some(crate::encoding::array_to_vec(&t.nf)),
                address: Some(note_address(network, orchard, &n.address)),
                value: n.value,
                rcm: Some(crate::encoding::array_to_vec(&n.rcm)),
                rho: if orchard {
                    match &n.rho {
                        Some(rho) => Some(crate::encoding::array_to_vec(rho)),
                        None => None,
                    }
                } else {
                    None
                },
            },
            None => crate::data::InputShieldedT {
                orchard,
                nf: Some(crate::encoding::array_to_vec(&t.nf)),
                address: None,
                value: 0,
                rcm: None,
                rho: None,
            },
        };
        r.push(info);
        i = i + 1;
    }
    r
}

fn sout_infos(network: crate::chain::Network, orchard: bool, v: &Vec<ShieldedOutput>) -> (r: Vec<crate::data::OutputShieldedT>)
    requires
        memos_readable(v@),
    ensures
        r@.len() == v@.len(),
        forall|k: int| 0 <= k < v@.len() ==> sout_info(network, orchard, v@[k], #[trigger] r@[k]),
{
    let mut r: Vec<crate::data::OutputShieldedT> = Vec::new();
    let mut i: usize = 0;
    while i < v.len()
        invariant
            i <= v@.len(),
            memos_readable(v@),
            r@.len() == i,
            forall|k: int| 0 <= k < i ==> sout_info(network, orchard, v@[k], #[trigger] r@[k]),
        decreases v@.len() - i,
    {
        let t = &v[i];
        let info = match &t.note {
            Some(n) => {
                proof {
                    assert(memo_of_bytes(v@[i as int].note->0.memo.0@) is Ok);
                }
                crate::data::OutputShieldedT {
                    orchard,
                    incoming: n.incoming,
                    cmx: Some(crate::encoding::array_to_vec(&t.cmx)),
                    address: Some(note_address(network, orchard, &n.note.address)),
                    value: n.note.value,
                    rcm: Some(crate::encoding::array_to_vec(&n.note.rcm)),
                    rho: match &n.note.rho {
                        Some(rho) => Some(crate::encoding::array_to_vec(rho)),
                        None => Some(Vec::new()),
                    },
                    memo: Some(n.memo.to_string()),
                }
            },
            None => crate::data::OutputShieldedT {
                orchard,
                incoming: false,
                cmx: Some(crate::encoding::array_to_vec(&t.cmx)),
                address: None,
                value: 0,
                rcm: None,
                rho: None,
                memo: None,
            },
        };
        r.push(info);
        i = i + 1;
    }
    r
}

impl TransactionDetails {
    /// Everything about the transaction, pool by pool, with the addresses
    /// of the notes in text and their memos as the user reads them.
    pub fn to_transaction_info_ext(self, network: &crate::chain::Network) -> (r: crate::data::TransactionInfoExtendedT)
        requires
            memos_readable(self.souts@),
            memos_readable(self.oouts@),
        ensures
            r.height == self.height,
            r.timestamp == self.timestamp,
            opt_bytes(r.txid) == Some(self.txid@),
            r.tins matches Some(v) && v@.len() == self.tins@.len() && forall|k: int| 0 <= k < v@.len() ==> tin_info(self.tins@[k], #[trigger] v@[k]),
            r.touts matches Some(v) && v@.len() == self.touts@.len() && forall|k: int| 0 <= k < v@.len() ==> tout_info(self.touts@[k], #[trigger] v@[k]),
            r.sins matches Some(v) && v@.len() == self.sins@.len() && forall|k: int| 0 <= k < v@.len() ==> sin_info(*network, false, self.sins@[k], #[trigger] v@[k]),
            r.souts matches Some(v) && v@.len() == self.souts@.len() && forall|k: int| 0 <= k < v@.len() ==> sout_info(*network, false, self.souts@[k], #[trigger] v@[k]),
            r.oins matches Some(v) && v@.len() == self.oins@.len() && forall|k: int| 0 <= k < v@.len() ==> sin_info(*network, true, self.oins@[k], #[trigger] v@[k]),
            r.oouts matches Some(v) && v@.len() == self.oouts@.len() && forall|k: int| 0 <= k < v@.len() ==> sout_info(*network, true, self.oouts@[k], #[trigger] v@[k]),
    {
        crate::data::TransactionInfoExtendedT {
            height: self.height,
            timestamp: self.timestamp,
            txid: Some(crate::encoding::array_to_vec(&self.txid)),
            tins: Some(tin_infos(&self.tins)),
            touts: Some(tout_infos(&self.touts)),
            sins: Some(sin_infos(*network, false, &self.sins)),
            souts: Some(sout_infos(*network, false, &self.souts)),
            oins: Some(sin_infos(*network, true, &self.oins)),
            oouts: Some(sout_infos(*network, true, &self.oouts)),
        }
    }
}

// ---------------------------------------------------------------------
// Matching a transaction's transparent parts with the account
// ---------------------------------------------------------------------

/// The index of the first unspent output of the account that `p` spends,
/// or -1.
pub open spec fn utxo_index(utxos: Seq<crate::pay::UTXO>, p: OutPoint) -> int
    decreases utxos.len(),
{
    if utxos.len() == 0 {
        -1
    } else if utxos[0].txid == p.txid && utxos[0].vout == p.vout {
        0
    } else {
        let k = utxo_index(utxos.drop_first(), p);
        if k < 0 {
            -1
        } else {
            k + 1
        }
    }
}

/// The transparent input spending `p`: no coin known yet, and the
/// account's note when `p` is one of its unspent outputs.
pub open spec fn tin_of(utxos: Seq<crate::pay::UTXO>, p: OutPoint, t: TransparentInput) -> bool {
    let k = utxo_index(utxos, p);
    &&& t.out_point == p
    &&& t.coin.address is None && t.coin.value == 0 && t.coin.vout == 0
    &&& if k < 0 {
        t.note is None
    } else {
        t.note matches Some(n) && n.id == 0 && n.address@ == utxos[k].address@ && n.value == utxos[k].value
    }
}

/// The first unspent output that `p` spends.
fn find_utxo(utxos: &Vec<crate::pay::UTXO>, p: &OutPoint) -> (r: Option<usize>)
    ensures
        match r {
            Some(k) => utxo_index(utxos@, *p) == k as int && k < utxos@.len(),
            None => utxo_index(utxos@, *p) == -1,
        },
{
    proof {
        assert(utxos@.skip(0) =~= utxos@);
    }
    let mut i: usize = 0;
    while i < utxos.len()
        invariant
            i <= utxos@.len(),
            utxo_index(utxos@, *p) == if utxo_index(utxos@.skip(i as int), *p) < 0 { -1 } else { utxo_index(utxos@.skip(i as int), *p) + i },
        decreases utxos@.len() - i,
    {
        proof {
            assert(utxos@.skip(i as int).drop_first() =~= utxos@.skip(i + 1));
            assert(utxos@.skip(i as int)[0] == utxos@[i as int]);
        }
        if crate::encoding::same_bytes(&utxos[i].txid, &p.txid) && utxos[i].vout == p.vout {
            return Some(i);
        }
        i = i + 1;
    }
    proof {
        assert(utxos@.skip(utxos@.len() as int) =~= Seq::<crate::pay::UTXO>::empty());
    }
    None
}

/// The transparent inputs of a transaction, from the outputs they spend:
/// those that spend an unspent output of the account carry its note.
pub fn transparent_inputs(prevouts: &Vec<OutPoint>, utxos: &Vec<crate::pay::UTXO>) -> (r: Vec<TransparentInput>)
    ensures
        r@.len() == prevouts@.len(),
        forall|i: int| 0 <= i < r@.len() ==> tin_of(utxos@, prevouts@[i], #[trigger] r@[i]),
{
    let mut r: Vec<TransparentInput> = Vec::new();
    let mut i: usize = 0;
    while i < prevouts.len()
        invariant
            i <= prevouts@.len(),
            r@.len() == i,
            forall|k: int| 0 <= k < i ==> tin_of(utxos@, prevouts@[k], #[trigger] r@[k]),
        decreases prevouts@.len() - i,
    {
        let p = prevouts[i];
        let note = match find_utxo(utxos, &p) {
            Some(k) => Some(TransparentNote { id: 0, address: utxos[k].address.clone(), value: utxos[k].value }),
            None => None,
        };
        r.push(TransparentInput { out_point: p, coin: TxOut2 { address: None, value: 0, vout: 0 }, note });
        i = i + 1;
    }
    r
}

/// The index of the first account address equal to `a`, or -1.
pub open spec fn address_index(addrs: Seq<String>, a: Seq<char>) -> int
    decreases addrs.len(),
{
    if addrs.len() == 0 {
        -1
    } else if addrs[0]@ == a {
        0
    } else {
        let k = address_index(addrs.drop_first(), a);
        if k < 0 {
            -1
        } else {
            k + 1
        }
    }
}

/// The `n`-th transparent output, paying `value` to `address`: the
/// account's note when the address is one of the account's.
pub open spec fn tout_of(addrs: Seq<String>, n: int, address: Option<String>, value: u64, t: TransparentOutput) -> bool {
    &&& t.coin.address == address
    &&& t.coin.value == value
    &&& t.coin.vout == n
    &&& match address {
        Some(a) => {
            let k = address_index(addrs, a@);
            if k < 0 {
                t.note is None
            } else {
                t.note matches Some(note) && note.id == 0 && note.address@ == addrs[k]@ && note.value == value
            }
        },
        None => t.note is None,
    }
}

/// The first account address equal to `a`.
fn find_address(addrs: &Vec<String>, a: &String) -> (r: Option<usize>)
    ensures
        match r {
            Some(k) => address_index(addrs@, a@) == k as int && k < addrs@.len(),
            None => address_index(addrs@, a@) == -1,
        },
{
    proof {
        assert(addrs@.skip(0) =~= addrs@);
    }
    let mut i: usize = 0;
    while i < addrs.len()
        invariant
            i <= addrs@.len(),
            address_index(addrs@, a@) == if address_index(addrs@.skip(i as int), a@) < 0 { -1 } else { address_index(addrs@.skip(i as int), a@) + i },
        decreases addrs@.len() - i,
    {
        proof {
            assert(addrs@.skip(i as int).drop_first() =~= addrs@.skip(i + 1));
            assert(addrs@.skip(i as int)[0] == addrs@[i as int]);
        }
        if addrs[i] == *a {
            return Some(i);
        }
        i = i + 1;
    }
    proof {
        assert(addrs@.skip(addrs@.len() as int) =~= Seq::<String>::empty());
    }
    None
}

/// The transparent outputs of a transaction, from their addresses (in
/// text, when the script has one) and values: those paying an address of
/// the account carry its note.
pub fn transparent_outputs(outs: &Vec<(Option<String>, u64)>, account_addresses: &Vec<String>) -> (r: Vec<TransparentOutput>)
    requires
        outs@.len() <= u32::MAX,
    ensures
        r@.len() == outs@.len(),
        forall|i: int| 0 <= i < r@.len() ==> tout_of(account_addresses@, i, outs@[i].0, outs@[i].1, #[trigger] r@[i]),
{
    let mut r: Vec<TransparentOutput> = Vec::new();
    let mut i: usize = 0;
    while i < outs.len()
        invariant
            i <= outs@.len(),
            outs@.len() <= u32::MAX,
            r@.len() == i,
            forall|k: int| 0 <= k < i ==> tout_of(account_addresses@, k, outs@[k].0, outs@[k].1, #[trigger] r@[k]),
        decreases outs@.len() - i,
    {
        let (address, value) = &outs[i];
        let note = match address {
            Some(a) => match find_address(account_addresses, a) {
                Some(k) => Some(TransparentNote { id: 0, address: account_addresses[k].clone(), value: *value }),
                None => None,
            },
            None => None,
        };
        let address = match address {
            Some(a) => Some(a.clone()),
            None => None,
        };
        r.push(TransparentOutput { coin: TxOut2 { address, value: *value, vout: i as u32 }, note });
        i = i + 1;
    }
    r
}

// ---------------------------------------------------------------------
// Transaction history
// ---------------------------------------------------------------------

/// A transaction of the account as stored.
#[derive(Clone, Copy, Debug)]
pub struct ReceivedTx {
    pub id: u32,
    pub account: u32,
    pub height: u32,
    pub txid: crate::witness::Hash,
    pub timestamp: u32,
    pub value: i64,
    pub ivtx: u32,
}

/// A stored transaction with its counterpart, contact and memo.
#[derive(Clone, Debug)]
pub struct ExtendedReceivedTx {
    pub rtx: ReceivedTx,
    pub address: Option<String>,
    pub contact: Option<String>,
    pub memo: Option<String>,
}

/// The text of an optional string, empty when there is none.
pub open spec fn or_empty(s: Option<String>) -> Seq<char> {
    match s {
        Some(t) => t@,
        None => Seq::empty(),
    }
}

/// Whether `t` shows the stored transaction `e` at chain height
/// `bc_height`.
pub open spec fn tx_info(e: ExtendedReceivedTx, bc_height: u32, t: crate::data::TransactionInfoT) -> bool {
    &&& t.id == e.rtx.id
    &&& opt_bytes(t.txid) == Some(e.rtx.txid@)
    &&& t.height == e.rtx.height
    &&& t.confirmations == bc_height - e.rtx.height + 1
    &&& t.timestamp == e.rtx.timestamp
    &&& t.amount == e.rtx.value
    &&& crate::data::opt_str_view(t.address) == Some(or_empty(e.address))
    &&& crate::data::opt_str_view(t.contact) == Some(or_empty(e.contact))
    &&& crate::data::opt_str_view(t.memo) == Some(or_empty(e.memo))
}

/// A copy of an optional string, empty when there is none.
fn string_or_empty(s: &Option<String>) -> (r: String)
    ensures
        r@ == or_empty(*s),
{
    match s {
        Some(t) => t.clone(),
        None => String::new(),
    }
}

/// The history of the account at chain height `bc_height`, each
/// transaction with its number of confirmations.
pub fn get_txs(txs: &Vec<ExtendedReceivedTx>, bc_height: u32) -> (r: Vec<crate::data::TransactionInfoT>)
    requires
        forall|i: int| 0 <= i < txs@.len() ==> (#[trigger] txs@[i]).rtx.height <= bc_height && bc_height - txs@[i].rtx.height < u32::MAX,
    ensures
        r@.len() == txs@.len(),
        forall|i: int| 0 <= i < r@.len() ==> tx_info(txs@[i], bc_height, #[trigger] r@[i]),
{
    let mut r: Vec<crate::data::TransactionInfoT> = Vec::new();
    let mut i: usize = 0;
    while i < txs.len()
        invariant
            i <= txs@.len(),
            forall|i: int| 0 <= i < txs@.len() ==> (#[trigger] txs@[i]).rtx.height <= bc_height && bc_height - txs@[i].rtx.height < u32::MAX,
            r@.len() == i,
            forall|k: int| 0 <= k < i ==> tx_info(txs@[k], bc_height, #[trigger] r@[k]),
        decreases txs@.len() - i,
    {
        let e = &txs[i];
        proof {
            assert(txs@[i as int].rtx.height <= bc_height);
        }
        r.push(crate::data::TransactionInfoT {
            id: e.rtx.id,
            txid: Some(crate::encoding::array_to_vec(&e.rtx.txid)),
            height: e.rtx.height,
            confirmations: bc_height - e.rtx.height + 1,
            timestamp: e.rtx.timestamp,
            amount: e.rtx.value,
            address: Some(string_or_empty(&e.address)),
            contact: Some(string_or_empty(&e.contact)),
            memo: Some(string_or_empty(&e.memo)),
        });
        i = i + 1;
    }
    r
}


// ---------------------------------------------------------------------------
// Messages of a transaction

/// The shielded outputs of a transaction, Sapling then Orchard, each with
/// whether it is an Orchard output; an output's index here is its `nout`.
pub open spec fn shielded_outputs(txd: TransactionDetails) -> Seq<(ShieldedOutput, bool)> {
    txd.souts@.map_values(|o: ShieldedOutput| (o, false)) + txd.oouts@.map_values(|o: ShieldedOutput| (o, true))
}

/// Whether output `i` was decrypted and its memo bytes are no memo.
pub open spec fn bad_memo_at(outs: Seq<(ShieldedOutput, bool)>, i: int) -> bool {
    outs[i].0.note matches Some(n) && memo_of_bytes(n.memo.0@) is Err
}

/// Whether output `i` was decrypted and its memo is a text.
pub open spec fn text_memo_at(outs: Seq<(ShieldedOutput, bool)>, i: int) -> bool {
    outs[i].0.note matches Some(n) && memo_of_bytes(n.memo.0@) matches Ok(MemoView::Text(_))
}

/// The indexes below `n` of the outputs whose memo is a text, in order.
pub open spec fn text_outputs(outs: Seq<(ShieldedOutput, bool)>, n: nat) -> Seq<int>
    decreases n,
{
    if n == 0 {
        Seq::empty()
    } else {
        let p = text_outputs(outs, (n - 1) as nat);
        if text_memo_at(outs, n - 1) {
            p.push(n - 1)
        } else {
            p
        }
    }
}

/// The text of a memo, empty where it is none.
pub open spec fn memo_text(b: Seq<u8>) -> Seq<char> {
    match memo_of_bytes(b) {
        Ok(MemoView::Text(t)) => t,
        _ => Seq::empty(),
    }
}

/// Whether `m` is the message that output `i` of the transaction carries:
/// sent by the spending address when the account received the note, by
/// the account otherwise, to the note's address.
pub open spec fn message_for(
    network: crate::chain::Network,
    account_address: Seq<char>,
    spend_address: Option<Seq<char>>,
    account: u32,
    id_tx: u32,
    txd: TransactionDetails,
    i: int,
    m: crate::data::ShieldedMessageT,
) -> bool {
    let (o, orchard) = shielded_outputs(txd)[i];
    match o.note {
        Some(n) => {
            let main = network == crate::chain::Network::Main;
            let recipient = if orchard {
                crate::encoding::orchard_address_text(main, n.note.address@)
            } else {
                crate::encoding::sapling_address_text(main, n.note.address@)
            };
            let sender = if n.incoming { spend_address } else { Some(account_address) };
            &&& m.id_msg == 0
            &&& m.account == account
            &&& m.id_tx == id_tx
            &&& m.txid matches Some(t) && t@ == txd.txid@
            &&& m.nout == i
            &&& m.height == txd.height
            &&& m.timestamp == txd.timestamp
            &&& m.incoming == n.incoming
            &&& m.contact is None
            &&& !m.read
            &&& m.memo matches Some(u) && {
                &&& (u.sender@, u.subject@, u.body@) == crate::memo::message_of_text(sender, memo_text(n.memo.0@))
                &&& u.recipient@ == recipient
                &&& !u.reply_to
            }
        },
        None => false,
    }
}

/// The messages that the text memos of a transaction's decrypted outputs
/// carry, in the order of the outputs; the first memo that is no memo
/// makes it fail.
pub fn tx_messages(
    network: &crate::chain::Network,
    account_address: &String,
    spend_address: &Option<String>,
    account: u32,
    id_tx: u32,
    txd: &TransactionDetails,
) -> (r: Result<Vec<crate::data::ShieldedMessageT>, MemoError>)
    requires
        txd.souts@.len() + txd.oouts@.len() <= u32::MAX,
    ensures
        ({
            let outs = shielded_outputs(*txd);
            match r {
                Ok(ms) => {
                    &&& forall|i: int| 0 <= i < outs.len() ==> !bad_memo_at(outs, i)
                    &&& ms@.len() == text_outputs(outs, outs.len()).len()
                    &&& forall|k: int| 0 <= k < ms@.len() ==> message_for(*network, account_address@,
                        crate::data::opt_str_view(*spend_address), account, id_tx, *txd, text_outputs(outs, outs.len())[k], #[trigger] ms@[k])
                },
                Err(e) => exists|i: int| 0 <= i < outs.len() && bad_memo_at(outs, i)
                    && (outs[i].0.note matches Some(n) && memo_of_bytes(n.memo.0@) == Err::<MemoView, MemoError>(e))
                    && forall|j: int| 0 <= j < i ==> !bad_memo_at(outs, j),
            }
        }),
{
    let ghost outs = shielded_outputs(*txd);
    let ns = txd.souts.len();
    let total = ns + txd.oouts.len();
    let mut ms: Vec<crate::data::ShieldedMessageT> = Vec::new();
    let mut i: usize = 0;
    while i < total
        invariant
            outs == shielded_outputs(*txd),
            ns == txd.souts@.len(),
            total == outs.len(),
            total <= u32::MAX,
            i <= total,
            forall|j: int| 0 <= j < i ==> !bad_memo_at(outs, j),
            ms@.len() == text_outputs(outs, i as nat).len(),
            forall|k: int| 0 <= k < ms@.len() ==> message_for(*network, account_address@,
                crate::data::opt_str_view(*spend_address), account, id_tx, *txd, text_outputs(outs, i as nat)[k], #[trigger] ms@[k]),
        decreases total - i,
    {
        let orchard = i >= ns;
        let o = if orchard { &txd.oouts[i - ns] } else { &txd.souts[i] };
        proof {
            assert(outs[i as int] == (*o, orchard));
        }
        let ghost before = ms@;
        if let Some(n) = &o.note {
            match memo_from_bytes(n.memo.0.as_slice()) {
                Err(e) => {
                    proof {
                        assert(bad_memo_at(outs, i as int));
                        assert(outs[i as int].0.note matches Some(n) && memo_of_bytes(n.memo.0@) == Err::<MemoView, MemoError>(e));
                    }
                    return Err(e);
                },
                Ok(MemoKind::Text(text)) => {
                    let recipient = if orchard {
                        crate::encoding::ua_of_orchard(*network, &n.note.address)
                    } else {
                        crate::encoding::encode_sapling(*network, &n.note.address)
                    };
                    let sender = if n.incoming { spend_address.clone() } else { Some(account_address.clone()) };
                    let m = crate::memo::parse_memo_text(
                        account, id_tx, &txd.txid, i as u32, txd.height, txd.timestamp, n.incoming,
                        sender, recipient, text.as_str(),
                    );
                    ms.push(m);
                    proof {
                        assert(text_memo_at(outs, i as int));
                        assert(message_for(*network, account_address@, crate::data::opt_str_view(*spend_address),
                            account, id_tx, *txd, i as int, m));
                        assert forall|k: int| 0 <= k < ms@.len() implies message_for(*network, account_address@,
                            crate::data::opt_str_view(*spend_address), account, id_tx, *txd,
                            text_outputs(outs, (i + 1) as nat)[k], #[trigger] ms@[k]) by {
                            if k < before.len() {
                                assert(ms@[k] == before[k]);
                            }
                        }
                    }
                },
                Ok(_) => {
                    proof {
                        assert(!text_memo_at(outs, i as int));
                    }
                },
            }
        }
        i += 1;
    }
    Ok(ms)
}

} // verus!
