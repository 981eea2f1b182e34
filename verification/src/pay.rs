//! Payment planning: pick the notes that fund a set of recipients and the
//! ZIP-317 fee, over the transparent (0), Sapling (1) and Orchard (2) pools.
//!
//! The plan keeps the balance `inputs = outputs + change + fee`, where the
//! change may be negative until the plan is adjusted and finalized.
use vstd::prelude::*;

use crate::address::{decode_address, decoded_address, receivers_text_of, AddressError};
use crate::chain::Network;
use crate::data::{RecipientT, TransactionRecipientT, TransactionSummaryT, UAReceiversT};
use crate::memo::{MemoError, MemoView, memo_bytes, recipient_memo};
use crate::fee::{FeeManager, logical_actions};
use crate::types::{PoolMask, mask_to_pool, is_single_pool, pool_bit, lemma_from_pool_single};
use crate::witness::{AuthPath, Witness};
use crate::COST_PER_ACTION;

verus! {

/// Total supply of zatoshis: no sum of amounts exceeds it.
pub const MAX_MONEY: u64 = 2_100_000_000_000_000;

/// Largest fee that 255 logical actions can cost.
pub const MAX_FEE: u64 = 1_275_000;

/// What a spent note needs to be signed for.
#[derive(Clone, Debug)]
pub enum InputNote {
    Transparent { txid: crate::witness::Hash, vout: u32, external: u32, addr_index: u32, address: String },
    Sapling { address: [u8; 43], rseed: crate::witness::Hash, witness: Witness },
    Orchard { address: [u8; 43], rseed: crate::witness::Hash, rho: crate::witness::Hash, witness: Witness },
}

/// A note that can fund the transaction; `remaining` is the part of `amount`
/// not yet assigned by the plan.
#[derive(Clone, Debug)]
pub struct TxInput {
    pub id: u32,
    pub amount: u64,
    pub remaining: u64,
    pub pool: u8,
    pub note: InputNote,
}

/// A recipient with its planning state: `remaining` is the part of `amount`
/// not funded yet, and `pool_mask` the pools it may be paid in.
#[derive(Clone, Debug)]
pub struct ExtendedRecipient {
    pub recipient: RecipientT,
    pub amount: u64,
    pub remaining: u64,
    pub pool_mask: PoolMask,
    pub is_change: bool,
    pub receivers: UAReceiversT,
}

// ---------------------------------------------------------------------------
// Sums over sequences

/// Sum of `f` over `s`.
pub open spec fn seq_sum<T>(s: Seq<T>, f: spec_fn(T) -> int) -> int
    decreases s.len(),
{
    if s.len() == 0 {
        0
    } else {
        seq_sum(s.drop_last(), f) + f(s.last())
    }
}

/// Replacing one element changes the sum by the difference of the two.
pub proof fn lemma_seq_sum_update<T>(s: Seq<T>, i: int, x: T, f: spec_fn(T) -> int)
    requires
        0 <= i < s.len(),
    ensures
        seq_sum(s.update(i, x), f) == seq_sum(s, f) - f(s[i]) + f(x),
    decreases s.len(),
{
    if i == s.len() - 1 {
        assert(s.update(i, x).drop_last() =~= s.drop_last());
    } else {
        lemma_seq_sum_update(s.drop_last(), i, x, f);
        assert(s.update(i, x).drop_last() =~= s.drop_last().update(i, x));
    }
}

/// Appending an element adds it to the sum.
pub proof fn lemma_seq_sum_push<T>(s: Seq<T>, x: T, f: spec_fn(T) -> int)
    ensures
        seq_sum(s.push(x), f) == seq_sum(s, f) + f(x),
{
    assert(s.push(x).drop_last() =~= s);
}

/// A sum of terms that are each at least `lo` and at most `hi`.
pub proof fn lemma_seq_sum_bounds<T>(s: Seq<T>, f: spec_fn(T) -> int, g: spec_fn(T) -> int)
    requires
        forall|i: int| 0 <= i < s.len() ==> 0 <= #[trigger] f(s[i]) <= g(s[i]),
    ensures
        0 <= seq_sum(s, f) <= seq_sum(s, g),
    decreases s.len(),
{
    if s.len() > 0 {
        assert forall|i: int| 0 <= i < s.drop_last().len() implies 0 <= #[trigger] f(s.drop_last()[i]) <= g(s.drop_last()[i]) by {
            assert(s.drop_last()[i] == s[i]);
        }
        lemma_seq_sum_bounds(s.drop_last(), f, g);
        assert(f(s[s.len() - 1]) <= g(s[s.len() - 1]));
    }
}

/// A term of a sum of non-negative terms is at most the sum.
pub proof fn lemma_seq_sum_elem_le<T>(s: Seq<T>, i: int, f: spec_fn(T) -> int)
    requires
        0 <= i < s.len(),
        forall|k: int| 0 <= k < s.len() ==> 0 <= #[trigger] f(s[k]),
    ensures
        f(s[i]) <= seq_sum(s, f),
    decreases s.len(),
{
    if i == s.len() - 1 {
        assert forall|k: int| 0 <= k < s.drop_last().len() implies 0 <= #[trigger] f(s.drop_last()[k]) <= f(s.drop_last()[k]) by {
            assert(s.drop_last()[k] == s[k]);
        }
        lemma_seq_sum_bounds(s.drop_last(), f, f);
    } else {
        assert forall|k: int| 0 <= k < s.drop_last().len() implies 0 <= #[trigger] f(s.drop_last()[k]) by {
            assert(s.drop_last()[k] == s[k]);
        }
        lemma_seq_sum_elem_le(s.drop_last(), i, f);
    }
}

/// Amount of an input.
pub open spec fn input_amount(n: TxInput) -> int {
    n.amount as int
}

/// Part of an input that the plan has assigned.
pub open spec fn input_consumed(n: TxInput) -> int {
    n.amount - n.remaining
}

/// Part of an input that the plan has not assigned.
pub open spec fn input_remaining(n: TxInput) -> int {
    n.remaining as int
}

/// Whether the plan spends the input.
pub open spec fn input_touched(n: TxInput) -> int {
    if n.remaining != n.amount { 1 } else { 0 }
}

/// One for every input.
pub open spec fn one_input(n: TxInput) -> int {
    1
}

/// Part of a recipient's amount that the plan has funded.
pub open spec fn output_assigned(o: ExtendedRecipient) -> int {
    o.amount - o.remaining
}

/// Amount of a recipient.
pub open spec fn output_amount(o: ExtendedRecipient) -> int {
    o.amount as int
}

/// Whether the other fields of two inputs agree, `remaining` aside.
pub open spec fn same_input(a: TxInput, b: TxInput) -> bool {
    a.id == b.id && a.amount == b.amount && a.pool == b.pool && a.note == b.note
}

/// Whether the other fields of two recipients agree, `remaining` aside.
pub open spec fn same_output(a: ExtendedRecipient, b: ExtendedRecipient) -> bool {
    a.recipient == b.recipient && a.amount == b.amount && a.pool_mask == b.pool_mask
        && a.is_change == b.is_change && a.receivers == b.receivers
}

/// Well-formed planning amounts of one pool's inputs.
pub open spec fn inputs_ok(s: Seq<TxInput>) -> bool {
    &&& forall|i: int| 0 <= i < s.len() ==> (#[trigger] s[i]).remaining <= s[i].amount
    &&& seq_sum(s, |n: TxInput| input_amount(n)) <= MAX_MONEY
}

/// Well-formed planning amounts of the recipients.
pub open spec fn outputs_ok(s: Seq<ExtendedRecipient>) -> bool {
    &&& forall|i: int| 0 <= i < s.len() ==> (#[trigger] s[i]).remaining <= s[i].amount
    &&& seq_sum(s, |o: ExtendedRecipient| output_amount(o)) <= MAX_MONEY
}


/// Sum of the three counts of a fee manager's array.
pub open spec fn sum3(s: Seq<u8>) -> int {
    s[0] + s[1] + s[2]
}

/// The logical actions never exceed the number of counted inputs and
/// outputs by more than two (one padding action per shielded bundle).
pub proof fn lemma_actions_bound(ni: Seq<u8>, no: Seq<u8>)
    requires
        ni.len() == 3,
        no.len() == 3,
    ensures
        logical_actions(ni, no) <= sum3(ni) + sum3(no) + 2,
{
}

/// The planning invariant over the inputs of the three pools `ins`.
pub open spec fn plan_inv(
    ins: Seq<Seq<TxInput>>,
    fm: FeeManager,
    fee: u64,
    used: Seq<bool>,
    outputs: Seq<ExtendedRecipient>,
    reserve: int,
) -> bool {
    &&& ins.len() == 3
    &&& used.len() == 3
    &&& forall|p: int| 0 <= p < 3 ==> inputs_ok(#[trigger] ins[p])
    &&& forall|p: int|
        0 <= p < 3 ==> fm.num_inputs@[p] as int == seq_sum(#[trigger] ins[p], |n: TxInput| input_touched(n))
    &&& forall|p: int| 0 <= p < 3 ==> (#[trigger] used[p] <==> fm.num_inputs@[p] > 0)
    &&& outputs_ok(outputs)
    &&& fm.spec_fee() == fee + total_consumed(ins) - seq_sum(outputs, |o: ExtendedRecipient| output_assigned(o))
    &&& fee <= fm.spec_fee()
    &&& sum3(fm.num_outputs@) <= reserve
    &&& sum3(fm.num_inputs@) + reserve <= 253
}

/// Part of the three pools' inputs that the plan has assigned.
pub open spec fn total_consumed(ins: Seq<Seq<TxInput>>) -> int {
    seq_sum(ins[0], |n: TxInput| input_consumed(n)) + seq_sum(ins[1], |n: TxInput| input_consumed(n))
        + seq_sum(ins[2], |n: TxInput| input_consumed(n))
}

/// Number of inputs over the three pools.
pub open spec fn total_len(ins: Seq<Seq<TxInput>>) -> int {
    (ins[0].len() + ins[1].len() + ins[2].len()) as int
}

/// Whether two lists of inputs agree element by element, `remaining` aside.
pub open spec fn same_inputs(a: Seq<TxInput>, b: Seq<TxInput>) -> bool {
    a.len() == b.len() && forall|i: int| 0 <= i < a.len() ==> same_input(#[trigger] a[i], b[i])
}

/// Whether two lists of recipients agree element by element, `remaining` aside.
pub open spec fn same_outputs(a: Seq<ExtendedRecipient>, b: Seq<ExtendedRecipient>) -> bool {
    a.len() == b.len() && forall|i: int| 0 <= i < a.len() ==> same_output(#[trigger] a[i], b[i])
}

/// The state of funding one recipient from the notes of one pool: the
/// notes, what the recipient still needs, the fee still to pay, the input
/// counts per pool, and whether the pool was used.
pub struct FundState {
    pub notes: Seq<TxInput>,
    pub out_rem: int,
    pub fee: int,
    pub ni: Seq<u8>,
    pub used: bool,
    pub reserve: int,
}

/// One funding step on note `j` of pool `src` (the output counts are `no`):
/// a note worth more than an action, with something left, pays the fee
/// first, then the recipient; the first use of a note adds its action to the
/// fee, and is made only while the inputs and the `reserve` outputs stay
/// within 253 logical actions.
pub open spec fn fund_note(st: FundState, j: int, src: u8, no: Seq<u8>) -> FundState {
    let n = st.notes[j];
    let first = n.remaining == n.amount && (st.out_rem > 0 || st.fee > 0);
    if st.out_rem > 0 && n.amount > COST_PER_ACTION && n.remaining > 0 && (!first || sum3(st.ni) + 1 + st.reserve <= 253) {
        let ni = if first { st.ni.update(src as int, (st.ni[src as int] + 1) as u8) } else { st.ni };
        let fee = if first { st.fee + crate::fee::zip317_fee(ni, no) - crate::fee::zip317_fee(st.ni, no) } else { st.fee };
        let r = if n.remaining <= st.out_rem + fee { n.remaining as int } else { st.out_rem + fee };
        let r2 = if r <= fee { r } else { fee };
        FundState {
            notes: st.notes.update(j, TxInput { remaining: (n.remaining - r) as u64, ..n }),
            out_rem: st.out_rem - (r - r2),
            fee: fee - r2,
            ni,
            used: true,
            reserve: st.reserve,
        }
    } else {
        st
    }
}

/// Funding steps on the notes from `j` to `len`, until the recipient needs
/// nothing more.
pub open spec fn fund_run(st: FundState, j: int, len: int, src: u8, no: Seq<u8>) -> FundState
    decreases len - j,
{
    if j >= len || st.out_rem == 0 {
        st
    } else {
        fund_run(fund_note(st, j, src, no), j + 1, len, src, no)
    }
}

/// A funding step moves the run on by one note; the run stops where the
/// recipient needs nothing more.
pub proof fn lemma_fund_run_step(cur: FundState, nxt: FundState, j: int, len: int, src: u8, no: Seq<u8>)
    requires
        0 <= j < len,
        nxt == fund_note(cur, j, src, no),
    ensures
        nxt.out_rem == 0 ==> fund_run(nxt, j, len, src, no) == fund_run(cur, j, len, src, no),
        nxt.out_rem != 0 ==> fund_run(nxt, j + 1, len, src, no) == fund_run(cur, j, len, src, no),
{
    if cur.out_rem == 0 {
        assert(nxt == cur);
    } else {
        assert(fund_run(cur, j, len, src, no) == fund_run(nxt, j + 1, len, src, no));
        if nxt.out_rem == 0 {
            assert(fund_run(nxt, j + 1, len, src, no) == nxt);
            assert(fund_run(nxt, j, len, src, no) == nxt);
        }
    }
}

/// The planning state of a builder: the notes of each pool, the
/// recipients, the fee still to pay, the input counts and the used pools.
pub struct PlanState {
    pub pools: Seq<Seq<TxInput>>,
    pub outputs: Seq<ExtendedRecipient>,
    pub fee: int,
    pub ni: Seq<u8>,
    pub used: Seq<bool>,
    pub reserve: int,
}

/// The planning state after funding recipient `oi` from the notes of pool
/// `src`, in their order.
pub open spec fn fund_output_plan(ps: PlanState, src: u8, oi: int, no: Seq<u8>) -> PlanState {
    let notes = ps.pools[src as int];
    let f = fund_run(
        FundState { notes, out_rem: ps.outputs[oi].remaining as int, fee: ps.fee, ni: ps.ni, used: ps.used[src as int], reserve: ps.reserve },
        0, notes.len() as int, src, no,
    );
    PlanState {
        pools: ps.pools.update(src as int, f.notes),
        outputs: ps.outputs.update(oi, ExtendedRecipient { remaining: f.out_rem as u64, ..ps.outputs[oi] }),
        fee: f.fee,
        ni: f.ni,
        used: ps.used.update(src as int, f.used),
        reserve: ps.reserve,
    }
}

/// The planning state after funding, from the notes of pool `src`, the
/// first `k` recipients of `which` that are paid in pool `dst`, in order.
pub open spec fn fill_from_plan(ps: PlanState, src: u8, dst: u8, which: Seq<usize>, k: int, no: Seq<u8>) -> PlanState
    decreases k,
{
    if k <= 0 {
        ps
    } else {
        let prev = fill_from_plan(ps, src, dst, which, k - 1, no);
        let oi = which[k - 1] as int;
        if mask_to_pool(prev.outputs[oi].pool_mask.0) == Some(dst) {
            fund_output_plan(prev, src, oi, no)
        } else {
            prev
        }
    }
}

/// The order in which pools fund recipients: source pool times three plus
/// destination pool, T->T, S->T, O->T, O->S... (T = 0, S = 1, O = 2).
pub open spec fn connection_order() -> Seq<u8> {
    seq![8u8, 4u8, 5u8, 7u8, 1u8, 2u8, 3u8, 6u8, 0u8]
}

/// The planning state after the first `t` connections of the connection
/// order have funded the recipients `which`.
pub open spec fn connect_plan(ps: PlanState, which: Seq<usize>, no: Seq<u8>, t: int) -> PlanState
    decreases t,
{
    if t <= 0 {
        ps
    } else {
        let prev = connect_plan(ps, which, no, t - 1);
        let c = connection_order()[t - 1];
        fill_from_plan(prev, c / 3, c % 3, which, which.len() as int, no)
    }
}

/// The planning state after registering the outputs of the recipients
/// `which` (the output counts were `no0`), which raises the fee, then
/// funding them through every connection in order.
pub open spec fn fill_outputs_plan(ps: PlanState, which: Seq<usize>, no0: Seq<u8>) -> PlanState {
    let no1 = registered_counts(no0, ps.outputs, which);
    let ps1 = PlanState {
        fee: ps.fee + crate::fee::zip317_fee(ps.ni, no1) - crate::fee::zip317_fee(ps.ni, no0),
        ..ps
    };
    connect_plan(ps1, which, no1, 9)
}

/// The positions below `n` of the recipients that accept a single pool.
pub open spec fn single_indices(outs: Seq<ExtendedRecipient>, n: int) -> Seq<usize>
    decreases n,
{
    if n <= 0 {
        Seq::empty()
    } else {
        let p = single_indices(outs, n - 1);
        if is_single_pool(outs[n - 1].pool_mask.0) { p.push((n - 1) as usize) } else { p }
    }
}

/// The positions below `n` of the recipients that accept several pools.
pub open spec fn multiple_indices(outs: Seq<ExtendedRecipient>, n: int) -> Seq<usize>
    decreases n,
{
    if n <= 0 {
        Seq::empty()
    } else {
        let p = multiple_indices(outs, n - 1);
        if !is_single_pool(outs[n - 1].pool_mask.0) { p.push((n - 1) as usize) } else { p }
    }
}

/// The recipients with the pool mask of those at the positions `which`
/// set to `mask`.
pub open spec fn masked(outs: Seq<ExtendedRecipient>, which: Seq<usize>, mask: u8) -> Seq<ExtendedRecipient> {
    Seq::new(outs.len(), |j: int| if which.contains(j as usize) {
        ExtendedRecipient { pool_mask: PoolMask(mask), ..outs[j] }
    } else {
        outs[j]
    })
}

/// What the notes of pool `p` have left.
pub open spec fn pool_left(ps: PlanState, p: int) -> int {
    seq_sum(ps.pools[p], |n: TxInput| input_remaining(n))
}

/// The shielded pool that pays the recipients accepting several pools:
/// Sapling where it has more left than Orchard, else Orchard.
pub open spec fn multi_of(ps: PlanState) -> u8 {
    if pool_left(ps, 1) > pool_left(ps, 2) { 1u8 } else { 2u8 }
}

/// The recipients that accept several shielded pools are paid in the one
/// with more funds left: Sapling only where it has strictly more left than
/// Orchard.
pub proof fn lemma_multi_pool_richest(ps: PlanState)
    ensures
        multi_of(ps) == 1 || multi_of(ps) == 2,
        pool_left(ps, multi_of(ps) as int) >= pool_left(ps, 3 - multi_of(ps)),
        multi_of(ps) == 1 <==> pool_left(ps, 1) > pool_left(ps, 2),
{
}

/// In a plan, the shielded pool chosen for the recipients that accept
/// several is the one with more funds left once the recipients of a single
/// pool are paid (Orchard on a tie).
pub proof fn lemma_outputs_plan_pool(ps: PlanState, no0: Seq<u8>)
    ensures
        ({
            let psa = fill_outputs_plan(ps, single_indices(ps.outputs, ps.outputs.len() as int), no0);
            let r = outputs_plan(ps, no0).1;
            &&& r == 1 || r == 2
            &&& pool_left(psa, r as int) >= pool_left(psa, 3 - r)
            &&& (r == 1 <==> pool_left(psa, 1) > pool_left(psa, 2))
        }),
{
    let psa = fill_outputs_plan(ps, single_indices(ps.outputs, ps.outputs.len() as int), no0);
    lemma_multi_pool_richest(psa);
}

/// The planning state after funding the recipients that accept a single
/// pool, then those that accept several (all paid in the pool `multi_of`
/// chooses after the first round), and that pool.
pub open spec fn outputs_plan(ps: PlanState, no0: Seq<u8>) -> (PlanState, u8) {
    let n = ps.outputs.len() as int;
    let single = single_indices(ps.outputs, n);
    let multiple = multiple_indices(ps.outputs, n);
    let psa = fill_outputs_plan(ps, single, no0);
    let noa = registered_counts(no0, ps.outputs, single);
    let multi = multi_of(psa);
    let mask = if multi == 1 { 2u8 } else { 4u8 };
    let psb = PlanState { outputs: masked(psa.outputs, multiple, mask), ..psa };
    (fill_outputs_plan(psb, multiple, noa), multi)
}

/// The notes with nothing assigned yet.
pub open spec fn unspent_notes(s: Seq<TxInput>) -> Seq<TxInput> {
    Seq::new(s.len(), |i: int| TxInput { remaining: s[i].amount, ..s[i] })
}

/// The plan of a ready builder: its notes unspent, nothing paid, then
/// `outputs_plan` over its recipients.
pub open spec fn prepare_plan(b: PaymentBuilder) -> (PlanState, u8) {
    outputs_plan(start_state(b), seq![0u8, 0u8, 0u8])
}

/// The output counts per pool after `outputs_plan`.
pub open spec fn outputs_counts(ps: PlanState, no0: Seq<u8>) -> Seq<u8> {
    let n = ps.outputs.len() as int;
    let single = single_indices(ps.outputs, n);
    let multiple = multiple_indices(ps.outputs, n);
    let psa = fill_outputs_plan(ps, single, no0);
    let noa = registered_counts(no0, ps.outputs, single);
    let mask = if multi_of(psa) == 1 { 2u8 } else { 4u8 };
    registered_counts(noa, masked(psa.outputs, multiple, mask), multiple)
}

/// The planning state of a ready builder once its notes are unspent and
/// nothing is paid.
pub open spec fn start_state(b: PaymentBuilder) -> PlanState {
    let p = b.pools();
    PlanState {
        pools: seq![unspent_notes(p[0]), unspent_notes(p[1]), unspent_notes(p[2])],
        outputs: b.outputs@,
        fee: 0,
        ni: seq![0u8, 0u8, 0u8],
        used: seq![false, false, false],
        reserve: b.outputs@.len() + (if b.use_change { 1int } else { 0int }),
    }
}

/// The output counts of the plan of a ready builder, the change output
/// included where one is asked for and a pool was used.
pub open spec fn prepare_counts(b: PaymentBuilder) -> Seq<u8> {
    let c = outputs_counts(start_state(b), seq![0u8, 0u8, 0u8]);
    let used = prepare_plan(b).0.used;
    if b.use_change && change_pool_of(used) is Some {
        let cp = change_pool_of(used)->0 as int;
        c.update(cp, (c[cp] + 1) as u8)
    } else {
        c
    }
}

/// The fee of the plan of a ready builder.
pub open spec fn prepare_fee(b: PaymentBuilder) -> int {
    crate::fee::zip317_fee(prepare_plan(b).0.ni, prepare_counts(b))
}

/// What the recipients ask for.
pub open spec fn recipients_total(rs: Seq<ExtendedRecipient>) -> int {
    seq_sum(rs, |o: ExtendedRecipient| o.recipient.amount as int)
}

/// The change of the plan of a ready builder: the spent notes less the
/// recipients' amounts and the fee (negative when funds are short).
pub open spec fn prepare_change(b: PaymentBuilder) -> int {
    notes_total(spent_of(prepare_plan(b).0.pools)) - recipients_total(b.outputs@) - prepare_fee(b)
}

/// Whether a ready builder's plan succeeds: there are recipients, their
/// memos are valid, and a pool was used where change is asked for.
pub open spec fn prepare_ok(b: PaymentBuilder) -> bool {
    &&& b.outputs@.len() > 0
    &&& (b.use_change ==> change_pool_of(prepare_plan(b).0.used) is Some)
    &&& forall|i: int| 0 <= i < b.outputs@.len() ==> recipient_memo((#[trigger] b.outputs@[i]).recipient) is Ok
}

/// Whether a builder with the recipients `outputs` is in the planning state
/// `ps`.
pub open spec fn in_plan_state(b: PaymentBuilder, outputs: Seq<ExtendedRecipient>, ps: PlanState) -> bool {
    &&& b.pools() == ps.pools
    &&& outputs == ps.outputs
    &&& b.fee == ps.fee
    &&& b.fee_manager.num_inputs@ == ps.ni
    &&& b.used@ == ps.used
    &&& b.reserve == ps.reserve
}


/// Builder of a payment plan: the candidate inputs of each pool, the
/// recipients, and the running fee.
pub struct PaymentBuilder {
    pub height: u32,
    pub account: u32,
    pub account_name: String,
    pub account_addresses: UAReceiversT,
    pub inputs: [Vec<TxInput>; 3],
    pub outputs: Vec<ExtendedRecipient>,
    pub account_pools: PoolMask,
    pub src_pools: PoolMask,
    pub fee_manager: FeeManager,
    pub fee: u64,
    pub available: [u64; 3],
    pub used: [bool; 3],
    pub use_change: bool,
    /// The outputs the plan keeps room for among its logical actions: the
    /// recipients and the change.
    pub reserve: usize,
}

impl PaymentBuilder {
    /// The inputs of the three pools.
    pub open spec fn pools(&self) -> Seq<Seq<TxInput>> {
        seq![self.inputs@[0]@, self.inputs@[1]@, self.inputs@[2]@]
    }

    /// The planning state of the builder with the recipients `outputs`.
    pub open spec fn plan_state(&self, outputs: Seq<ExtendedRecipient>) -> PlanState {
        PlanState { pools: self.pools(), outputs, fee: self.fee as int, ni: self.fee_manager.num_inputs@, used: self.used@, reserve: self.reserve as int }
    }

    /// The planning invariant of the builder against the recipients `outputs`.
    pub open spec fn inv(&self, outputs: Seq<ExtendedRecipient>) -> bool {
        plan_inv(self.pools(), self.fee_manager, self.fee, self.used@, outputs, self.reserve as int)
    }

    /// Funds recipient `oi` from the inputs of pool `src`, in order, paying
    /// the fee first out of each input.
    #[verifier::rlimit(40)]
    fn fund_output(&mut self, src: u8, outputs: &mut Vec<ExtendedRecipient>, oi: usize)
        requires
            src < 3,
            oi < old(outputs).len(),
            old(self).inv(old(outputs)@),
        ensures
            final(self).inv(final(outputs)@),
            same_outputs(final(outputs)@, old(outputs)@),
            forall|i: int| 0 <= i < old(outputs)@.len() && i != oi ==> final(outputs)@[i] == old(outputs)@[i],
            forall|p: int| 0 <= p < 3 ==> same_inputs(#[trigger] final(self).pools()[p], old(self).pools()[p]),
            final(self).fee_manager.num_outputs@ == old(self).fee_manager.num_outputs@,
            final(self).height == old(self).height,
            final(self).account == old(self).account,
            final(self).account_name == old(self).account_name,
            final(self).account_addresses == old(self).account_addresses,
            final(self).outputs == old(self).outputs,
            final(self).account_pools == old(self).account_pools,
            final(self).src_pools == old(self).src_pools,
            final(self).available == old(self).available,
            final(self).use_change == old(self).use_change,
            final(self).reserve == old(self).reserve,
            old(outputs)@[oi as int].remaining == 0 ==> {
                &&& final(self).pools() == old(self).pools()
                &&& final(self).used == old(self).used
                &&& final(self).fee_manager == old(self).fee_manager
                &&& final(outputs)@ == old(outputs)@
            },
            in_plan_state(*final(self), final(outputs)@,
                fund_output_plan(old(self).plan_state(old(outputs)@), src, oi as int, old(self).fee_manager.num_outputs@)),
    {
        let s = src as usize;
        let ghost no0 = old(self).fee_manager.num_outputs@;
        let ghost init = FundState {
            notes: old(self).pools()[src as int],
            out_rem: old(outputs)@[oi as int].remaining as int,
            fee: old(self).fee as int,
            ni: old(self).fee_manager.num_inputs@,
            used: old(self).used@[src as int],
            reserve: old(self).reserve as int,
        };
        let ghost target = fund_run(init, 0, init.notes.len() as int, src, no0);
        let ghost ins0 = self.pools();
        let mut v: Vec<TxInput> = Vec::new();
        std::mem::swap(&mut v, &mut self.inputs[s]);
        let len = v.len();
        let mut j: usize = 0;
        while j < len
            invariant_except_break
                j <= len,
            invariant
                len == v.len(),
                s == src as usize,
                src < 3,
                oi < outputs.len(),
                plan_inv(ins0.update(s as int, v@), self.fee_manager, self.fee, self.used@, outputs@, self.reserve as int),
                same_inputs(v@, ins0[s as int]),
                same_outputs(outputs@, old(outputs)@),
                forall|i: int| 0 <= i < old(outputs)@.len() && i != oi ==> outputs@[i] == old(outputs)@[i],
                self.fee_manager.num_outputs@ == old(self).fee_manager.num_outputs@,
                self.height == old(self).height,
                self.account == old(self).account,
                self.account_name == old(self).account_name,
                self.account_addresses == old(self).account_addresses,
                self.outputs == old(self).outputs,
                self.account_pools == old(self).account_pools,
                self.src_pools == old(self).src_pools,
                self.available == old(self).available,
                self.use_change == old(self).use_change,
                self.reserve == old(self).reserve,
                forall|p: int| 0 <= p < 3 && p != s ==> self.inputs@[p]@ == ins0[p],
                ins0.len() == 3,
                ins0 == old(self).pools(),
                old(outputs)@[oi as int].remaining == 0 ==> {
                    &&& v@ == ins0[s as int]
                    &&& self.used == old(self).used
                    &&& self.fee_manager == old(self).fee_manager
                    &&& outputs@ == old(outputs)@
                },
                no0 == old(self).fee_manager.num_outputs@,
                init.notes.len() == len,
                target == fund_run(init, 0, len as int, src, no0),
                fund_run(FundState { notes: v@, out_rem: outputs@[oi as int].remaining as int, fee: self.fee as int,
                    ni: self.fee_manager.num_inputs@, used: self.used@[s as int], reserve: self.reserve as int }, j as int, len as int, src, no0) == target,
                outputs@ == old(outputs)@.update(oi as int, ExtendedRecipient { remaining: outputs@[oi as int].remaining, ..old(outputs)@[oi as int] }),
                self.used@ == old(self).used@.update(s as int, self.used@[s as int]),
            ensures
                j >= len || outputs@[oi as int].remaining == 0,
            decreases len - j,
        {
            let ghost cur = FundState { notes: v@, out_rem: outputs@[oi as int].remaining as int, fee: self.fee as int,
                ni: self.fee_manager.num_inputs@, used: self.used@[s as int], reserve: self.reserve as int };
            let ghost ins = ins0.update(s as int, v@);
            let ghost outs = outputs@;
            let ghost fee_before = self.fee;
            let ghost fm_before = self.fee_manager;
            proof {
                lemma_plan_fee_bound(ins, self.fee_manager, self.fee, self.used@, outputs@, self.reserve as int);
                lemma_output_amount_le(outputs@, oi as int);
            }
            let out_rem = outputs[oi].remaining;
            let n_amount = v[j].amount;
            let n_rem = v[j].remaining;
            let ghost stepped = false;
            let ghost first_g = false;
            let ghost r_g: int = 0;
            let ghost r2_g: int = 0;
            let ghost fee_mid_g: int = 0;
            let ghost ni_mid = self.fee_manager.num_inputs@;
            let first_use = n_rem == n_amount && (out_rem > 0 || self.fee > 0);
            let counted: usize = self.fee_manager.num_inputs[0] as usize + self.fee_manager.num_inputs[1] as usize
                + self.fee_manager.num_inputs[2] as usize;
            proof {
                assert(counted == sum3(self.fee_manager.num_inputs@));
            }
            if out_rem > 0 && n_amount > COST_PER_ACTION && n_rem > 0 && (!first_use || counted + 1 + self.reserve <= 253) {
                self.used[s] = true;
                if first_use {
                    proof {
                        assert(ins[s as int] == v@);
                        lemma_actions_bound(
                            self.fee_manager.num_inputs@.update(s as int, (self.fee_manager.num_inputs@[s as int] + 1) as u8),
                            self.fee_manager.num_outputs@,
                        );
                    }
                    let d = self.fee_manager.add_input(src);
                    self.fee = self.fee + d;
                }
                let ghost fee_mid = self.fee;
                proof {
                    assert(self.fee <= self.fee_manager.spec_fee());
                    assert(self.fee_manager.spec_fee() <= MAX_FEE);
                }
                let r = if n_rem <= out_rem + self.fee { n_rem } else { out_rem + self.fee };
                let r2 = if r <= self.fee { r } else { self.fee };
                proof {
                    stepped = true;
                    first_g = first_use;
                    r_g = r as int;
                    r2_g = r2 as int;
                    fee_mid_g = self.fee as int;
                    ni_mid = self.fee_manager.num_inputs@;
                }
                self.fee = self.fee - r2;
                let ghost old_n = v@[j as int];
                let n = &mut v[j];
                n.remaining = n_rem - r;
                let ghost old_o = outputs@[oi as int];
                let o = &mut outputs[oi];
                o.remaining = out_rem - (r - r2);
                proof {
                    let new_n = v@[j as int];
                    let new_o = outputs@[oi as int];
                    let vin = ins[s as int];
                    assert(v@ == vin.update(j as int, new_n));
                    assert(outputs@ == outs.update(oi as int, new_o));
                    lemma_seq_sum_update(vin, j as int, new_n, |n: TxInput| input_touched(n));
                    lemma_seq_sum_update(vin, j as int, new_n, |n: TxInput| input_consumed(n));
                    lemma_seq_sum_update(vin, j as int, new_n, |n: TxInput| input_amount(n));
                    lemma_seq_sum_update(outs, oi as int, new_o, |o: ExtendedRecipient| output_assigned(o));
                    lemma_seq_sum_update(outs, oi as int, new_o, |o: ExtendedRecipient| output_amount(o));
                    let ins2 = ins0.update(s as int, v@);
                    assert(ins2 =~= ins.update(s as int, v@));
                    assert(ins2[s as int] == v@);
                    assert forall|p: int| 0 <= p < 3 && p != s implies ins2[p] == ins[p] by {}
                    assert(forall|i: int| 0 <= i < v@.len() ==> (#[trigger] v@[i]).remaining <= v@[i].amount);
                    assert(inputs_ok(v@));
                    assert forall|p: int| 0 <= p < 3 implies inputs_ok(#[trigger] ins2[p]) by {
                        if p != s { assert(ins2[p] == ins[p]); }
                    }
                    assert forall|p: int| 0 <= p < 3 implies self.fee_manager.num_inputs@[p] as int == seq_sum(#[trigger] ins2[p], |n: TxInput| input_touched(n)) by {
                        if p != s { assert(ins2[p] == ins[p]); }
                    }
                    assert(total_consumed(ins2) == total_consumed(ins) + r);
                    assert(forall|i: int| 0 <= i < outputs@.len() ==> (#[trigger] outputs@[i]).remaining <= outputs@[i].amount);
                    lemma_seq_sum_elem_le(v@, j as int, |n: TxInput| input_touched(n));
                    assert(forall|p: int| 0 <= p < 3 ==> (#[trigger] self.used@[p] <==> self.fee_manager.num_inputs@[p] > 0));
                    assert(outputs_ok(outputs@));
                    assert(self.fee_manager.spec_fee() == self.fee + total_consumed(ins2) - seq_sum(outputs@, |o: ExtendedRecipient| output_assigned(o)));
                    assert(self.fee <= self.fee_manager.spec_fee());
                    assert(sum3(self.fee_manager.num_inputs@) + self.reserve <= 253);
                    assert(plan_inv(ins2, self.fee_manager, self.fee, self.used@, outputs@, self.reserve as int));
                }
            }
            proof {
                let nxt = FundState { notes: v@, out_rem: outputs@[oi as int].remaining as int, fee: self.fee as int,
                    ni: self.fee_manager.num_inputs@, used: self.used@[s as int], reserve: self.reserve as int };
                let n0 = cur.notes[j as int];
                if stepped {
                    let first = n0.remaining == n0.amount && (cur.out_rem > 0 || cur.fee > 0);
                    assert(first == first_g);
                    let ni1 = if first { cur.ni.update(src as int, (cur.ni[src as int] + 1) as u8) } else { cur.ni };
                    assert(ni_mid =~= ni1);
                    assert(fee_mid_g == if first { cur.fee + crate::fee::zip317_fee(ni1, no0) - crate::fee::zip317_fee(cur.ni, no0) } else { cur.fee });
                    assert(v@ =~= cur.notes.update(j as int, TxInput { remaining: (n0.remaining - r_g) as u64, ..n0 }));
                    assert(nxt == fund_note(cur, j as int, src, no0));
                } else {
                    assert(nxt == cur);
                    assert(fund_note(cur, j as int, src, no0) == cur);
                }
                lemma_fund_run_step(cur, nxt, j as int, len as int, src, no0);
            }
            if outputs[oi].remaining == 0 {
                break;
            }
            j = j + 1;
        }
        std::mem::swap(&mut v, &mut self.inputs[s]);
        proof {
            assert(self.pools() =~= ins0.update(s as int, self.inputs@[s as int]@));
            if old(outputs)@[oi as int].remaining == 0 {
                assert(self.pools() =~= ins0);
            }
            let fin = FundState { notes: self.inputs@[s as int]@, out_rem: outputs@[oi as int].remaining as int, fee: self.fee as int,
                ni: self.fee_manager.num_inputs@, used: self.used@[s as int], reserve: self.reserve as int };
            assert(fund_run(fin, j as int, len as int, src, no0) == fin);
            assert(fin == target);
            let ps = fund_output_plan(old(self).plan_state(old(outputs)@), src, oi as int, no0);
            assert(self.pools() =~= ps.pools);
            assert(outputs@ =~= ps.outputs);
            assert(self.used@ =~= ps.used);
        }
    }
}

impl PaymentBuilder {
    /// Frame of the planning steps: everything but the planning state stays.
    pub open spec fn same_setup(&self, other: &PaymentBuilder) -> bool {
        &&& self.height == other.height
        &&& self.account == other.account
        &&& self.account_name == other.account_name
        &&& self.account_addresses == other.account_addresses
        &&& self.outputs == other.outputs
        &&& self.account_pools == other.account_pools
        &&& self.src_pools == other.src_pools
        &&& self.use_change == other.use_change
        &&& self.reserve == other.reserve
        &&& forall|p: int| 0 <= p < 3 ==> same_inputs(#[trigger] self.pools()[p], other.pools()[p])
    }

    /// Sums what each pool's inputs have left to assign.
    fn calculate_available(&mut self)
        requires
            forall|p: int| 0 <= p < 3 ==> inputs_ok(#[trigger] old(self).pools()[p]),
        ensures
            forall|p: int| 0 <= p < 3 ==> #[trigger] final(self).available@[p] == seq_sum(old(self).pools()[p], |n: TxInput| input_remaining(n)),
            final(self).inputs == old(self).inputs,
            final(self).fee_manager == old(self).fee_manager,
            final(self).fee == old(self).fee,
            final(self).used == old(self).used,
            final(self).same_setup(old(self)),
    {
        let mut i: usize = 0;
        while i < 3
            invariant
                i <= 3,
                forall|p: int| 0 <= p < 3 ==> inputs_ok(#[trigger] self.pools()[p]),
                forall|p: int| 0 <= p < i ==> #[trigger] self.available@[p] == seq_sum(old(self).pools()[p], |n: TxInput| input_remaining(n)),
                self.inputs == old(self).inputs,
                self.fee_manager == old(self).fee_manager,
                self.fee == old(self).fee,
                self.used == old(self).used,
                self.same_setup(old(self)),
            decreases 3 - i,
        {
            let ghost sq = self.pools()[i as int];
            assert(sq == self.inputs@[i as int]@);
            let mut total: u64 = 0;
            let mut k: usize = 0;
            let n = self.inputs[i].len();
            while k < n
                invariant
                    k <= n,
                    i < 3,
                    n == sq.len(),
                    sq == self.inputs@[i as int]@,
                    inputs_ok(sq),
                    total == seq_sum(sq.take(k as int), |n: TxInput| input_remaining(n)),
                decreases n - k,
            {
                proof {
                    assert(sq.take(k + 1).drop_last() =~= sq.take(k as int));
                    let f = |n: TxInput| input_remaining(n);
                    let g = |n: TxInput| input_amount(n);
                    assert forall|m: int| 0 <= m < sq.take(k + 1).len() implies 0 <= #[trigger] f(sq.take(k + 1)[m]) <= g(sq.take(k + 1)[m]) by {
                        assert(sq.take(k + 1)[m] == sq[m]);
                    }
                    lemma_seq_sum_bounds(sq.take(k + 1), f, g);
                    lemma_seq_sum_prefix_le(sq, k + 1, g);
                }
                total = total + self.inputs[i][k].remaining;
                k = k + 1;
            }
            proof {
                assert(sq.take(n as int) =~= sq);
            }
            self.available[i] = total;
            i = i + 1;
        }
    }

    /// Registers the recipients `which` (pays for their outputs), then funds
    /// them from the pools in the order T->T, S->T, O->T, O->S, S->S, O->S
    /// ... as the connection order lists.
    fn fill_outputs(&mut self, outputs: &mut Vec<ExtendedRecipient>, which: &Vec<usize>)
        requires
            old(self).inv(old(outputs)@),
            sum3(old(self).fee_manager.num_outputs@) + which@.len() <= old(self).reserve,
            forall|k: int| 0 <= k < which@.len() ==> #[trigger] which@[k] < old(outputs)@.len(),
            forall|k: int| 0 <= k < which@.len() ==> (#[trigger] old(outputs)@[which@[k] as int]).pool_mask.0 & 7 != 0,
        ensures
            final(self).inv(final(outputs)@),
            same_outputs(final(outputs)@, old(outputs)@),
            forall|i: int| 0 <= i < old(outputs)@.len() && !which@.contains(i as usize) ==> final(outputs)@[i] == old(outputs)@[i],
            final(self).same_setup(old(self)),
            final(self).fee_manager.num_outputs@ == registered_counts(old(self).fee_manager.num_outputs@, old(outputs)@, which@),
            (forall|k: int| 0 <= k < which@.len() ==> (#[trigger] old(outputs)@[which@[k] as int]).remaining == 0) ==> {
                &&& final(self).pools() == old(self).pools()
                &&& final(self).used == old(self).used
                &&& final(self).fee_manager.num_inputs == old(self).fee_manager.num_inputs
                &&& final(outputs)@ == old(outputs)@
            },
            in_plan_state(*final(self), final(outputs)@,
                fill_outputs_plan(old(self).plan_state(old(outputs)@), which@, old(self).fee_manager.num_outputs@)),
    {
        let ghost no0 = old(self).fee_manager.num_outputs@;
        let ghost ps0 = old(self).plan_state(old(outputs)@);
        let mut k: usize = 0;
        while k < which.len()
            invariant
                k <= which@.len(),
                self.inv(outputs@),
                outputs@ == old(outputs)@,
                sum3(self.fee_manager.num_outputs@) + (which@.len() - k) <= self.reserve,
                forall|k: int| 0 <= k < which@.len() ==> #[trigger] which@[k] < old(outputs)@.len(),
                forall|k: int| 0 <= k < which@.len() ==> (#[trigger] old(outputs)@[which@[k] as int]).pool_mask.0 & 7 != 0,
                self.same_setup(old(self)),
                self.pools() == old(self).pools(),
                self.used == old(self).used,
                self.fee_manager.num_inputs == old(self).fee_manager.num_inputs,
                self.fee_manager.num_outputs@ == registered_counts(old(self).fee_manager.num_outputs@, old(outputs)@, which@.take(k as int)),
                self.fee as int == old(self).fee + crate::fee::zip317_fee(self.fee_manager.num_inputs@, self.fee_manager.num_outputs@)
                    - crate::fee::zip317_fee(old(self).fee_manager.num_inputs@, no0),
                no0 == old(self).fee_manager.num_outputs@,
            decreases which@.len() - k,
        {
            let oi = which[k];
            let m = outputs[oi].pool_mask.0;
            proof {
                assert(m & 7 != 0 ==> (m & 4 != 0 || m & 2 != 0 || m & 1 != 0)) by (bit_vector);
            }
            let pool = outputs[oi].pool_mask.to_pool().unwrap();
            proof {
                lemma_plan_fee_bound(self.pools(), self.fee_manager, self.fee, self.used@, outputs@, self.reserve as int);
                lemma_touched_le_len(self.pools()[0]);
                lemma_touched_le_len(self.pools()[1]);
                lemma_touched_le_len(self.pools()[2]);
                lemma_actions_bound(
                    self.fee_manager.num_inputs@,
                    self.fee_manager.num_outputs@.update(pool as int, (self.fee_manager.num_outputs@[pool as int] + 1) as u8),
                );
                assert(which@.take(k + 1).drop_last() =~= which@.take(k as int));
            }
            let d = self.fee_manager.add_output(pool);
            self.fee = self.fee + d;
            k = k + 1;
        }
        proof {
            assert(which@.take(which@.len() as int) =~= which@);
        }
        let ghost no1 = self.fee_manager.num_outputs@;
        let ghost ps1 = PlanState { fee: self.fee as int, ..ps0 };
        proof {
            assert(ps1 == PlanState {
                fee: ps0.fee + crate::fee::zip317_fee(ps0.ni, no1) - crate::fee::zip317_fee(ps0.ni, no0),
                ..ps0
            });
            assert(self.plan_state(outputs@) == ps1);
        }
        let order: [u8; 9] = [8, 4, 5, 7, 1, 2, 3, 6, 0];
        let mut t: usize = 0;
        while t < 9
            invariant
                t <= 9,
                no1 == registered_counts(no0, old(outputs)@, which@),
                no1 == self.fee_manager.num_outputs@,
                ps1 == (PlanState { fee: ps1.fee, ..old(self).plan_state(old(outputs)@) }),
                ps1.fee == ps0.fee + crate::fee::zip317_fee(ps0.ni, no1) - crate::fee::zip317_fee(ps0.ni, no0),
                ps0 == old(self).plan_state(old(outputs)@),
                no0 == old(self).fee_manager.num_outputs@,
                in_plan_state(*self, outputs@, connect_plan(ps1, which@, no1, t as int)),
                order@ == seq![8u8, 4u8, 5u8, 7u8, 1u8, 2u8, 3u8, 6u8, 0u8],
                self.inv(outputs@),
                same_outputs(outputs@, old(outputs)@),
                forall|i: int| 0 <= i < old(outputs)@.len() && !which@.contains(i as usize) ==> outputs@[i] == old(outputs)@[i],
                forall|k: int| 0 <= k < which@.len() ==> #[trigger] which@[k] < old(outputs)@.len(),
                forall|k: int| 0 <= k < which@.len() ==> (#[trigger] old(outputs)@[which@[k] as int]).pool_mask.0 & 7 != 0,
                self.same_setup(old(self)),
                self.fee_manager.num_outputs@ == registered_counts(old(self).fee_manager.num_outputs@, old(outputs)@, which@),
                (forall|k: int| 0 <= k < which@.len() ==> (#[trigger] old(outputs)@[which@[k] as int]).remaining == 0) ==> {
                    &&& self.pools() == old(self).pools()
                    &&& self.used == old(self).used
                    &&& self.fee_manager.num_inputs == old(self).fee_manager.num_inputs
                    &&& outputs@ == old(outputs)@
                },
            decreases 9 - t,
        {
            let c = order[t];
            proof {
                assert(self.plan_state(outputs@) == connect_plan(ps1, which@, no1, t as int));
                assert(c == connection_order()[t as int]);
            }
            self.fill_outputs_from(c / 3, c % 3, outputs, which);
            t = t + 1;
        }
    }

    /// Funds the recipients `which` that are paid in pool `dst` from the
    /// inputs of pool `src`.
    fn fill_outputs_from(&mut self, src: u8, dst: u8, outputs: &mut Vec<ExtendedRecipient>, which: &Vec<usize>)
        requires
            src < 3,
            dst < 3,
            old(self).inv(old(outputs)@),
            forall|k: int| 0 <= k < which@.len() ==> #[trigger] which@[k] < old(outputs)@.len(),
            forall|k: int| 0 <= k < which@.len() ==> (#[trigger] old(outputs)@[which@[k] as int]).pool_mask.0 & 7 != 0,
        ensures
            final(self).inv(final(outputs)@),
            same_outputs(final(outputs)@, old(outputs)@),
            forall|i: int| 0 <= i < old(outputs)@.len() && !which@.contains(i as usize) ==> final(outputs)@[i] == old(outputs)@[i],
            final(self).same_setup(old(self)),
            final(self).fee_manager.num_outputs@ == old(self).fee_manager.num_outputs@,
            (forall|k: int| 0 <= k < which@.len() ==> (#[trigger] old(outputs)@[which@[k] as int]).remaining == 0) ==> {
                &&& final(self).pools() == old(self).pools()
                &&& final(self).used == old(self).used
                &&& final(self).fee_manager == old(self).fee_manager
                &&& final(outputs)@ == old(outputs)@
            },
            in_plan_state(*final(self), final(outputs)@, fill_from_plan(old(self).plan_state(old(outputs)@), src, dst, which@,
                which@.len() as int, old(self).fee_manager.num_outputs@)),
            forall|p: int| 0 <= p < 3 ==> #[trigger] final(self).available@[p] == seq_sum(old(self).pools()[p], |n: TxInput| input_remaining(n)),
    {
        let ghost ps0 = old(self).plan_state(old(outputs)@);
        let ghost no0 = old(self).fee_manager.num_outputs@;
        self.calculate_available();
        let ghost avail = self.available;
        proof {
            assert(in_plan_state(*self, outputs@, fill_from_plan(ps0, src, dst, which@, 0, no0)));
        }
        let mut k: usize = 0;
        while k < which.len()
            invariant
                k <= which@.len(),
                src < 3,
                self.inv(outputs@),
                same_outputs(outputs@, old(outputs)@),
                forall|i: int| 0 <= i < old(outputs)@.len() && !which@.contains(i as usize) ==> outputs@[i] == old(outputs)@[i],
                forall|k: int| 0 <= k < which@.len() ==> #[trigger] which@[k] < old(outputs)@.len(),
                forall|k: int| 0 <= k < which@.len() ==> (#[trigger] old(outputs)@[which@[k] as int]).pool_mask.0 & 7 != 0,
                self.same_setup(old(self)),
                self.fee_manager.num_outputs@ == old(self).fee_manager.num_outputs@,
                (forall|k: int| 0 <= k < which@.len() ==> (#[trigger] old(outputs)@[which@[k] as int]).remaining == 0) ==> {
                    &&& self.pools() == old(self).pools()
                    &&& self.used == old(self).used
                    &&& self.fee_manager == old(self).fee_manager
                    &&& outputs@ == old(outputs)@
                },
                ps0 == old(self).plan_state(old(outputs)@),
                no0 == old(self).fee_manager.num_outputs@,
                in_plan_state(*self, outputs@, fill_from_plan(ps0, src, dst, which@, k as int, no0)),
                self.available == avail,
                forall|p: int| 0 <= p < 3 ==> #[trigger] avail@[p] == seq_sum(old(self).pools()[p], |n: TxInput| input_remaining(n)),
            decreases which@.len() - k,
        {
            let ghost prev = fill_from_plan(ps0, src, dst, which@, k as int, no0);
            proof {
                assert(self.plan_state(outputs@) == prev);
            }
            let oi = which[k];
            let m = outputs[oi].pool_mask.0;
            proof {
                assert(outputs@[oi as int].pool_mask == old(outputs)@[oi as int].pool_mask);
                assert(m & 7 != 0 ==> (m & 4 != 0 || m & 2 != 0 || m & 1 != 0)) by (bit_vector);
            }
            let pool = outputs[oi].pool_mask.to_pool().unwrap();
            if pool == dst {
                proof {
                    assert(which@.contains(oi));
                }
                self.fund_output(src, outputs, oi);
            }
            proof {
                assert(fill_from_plan(ps0, src, dst, which@, k + 1, no0) == (if mask_to_pool(prev.outputs[oi as int].pool_mask.0) == Some(dst) {
                    fund_output_plan(prev, src, oi as int, no0)
                } else {
                    prev
                }));
            }
            k = k + 1;
        }
    }
}

/// The output counts after registering the recipients `which` in their
/// preferred pools.
pub open spec fn registered_counts(no: Seq<u8>, outputs: Seq<ExtendedRecipient>, which: Seq<usize>) -> Seq<u8>
    decreases which.len(),
{
    if which.len() == 0 {
        no
    } else {
        let prev = registered_counts(no, outputs, which.drop_last());
        let p = mask_to_pool(outputs[which.last() as int].pool_mask.0).unwrap() as int;
        prev.update(p, (prev[p] + 1) as u8)
    }
}

/// A prefix sum of non-negative terms is at most the whole sum.
pub proof fn lemma_seq_sum_prefix_le<T>(s: Seq<T>, k: int, f: spec_fn(T) -> int)
    requires
        0 <= k <= s.len(),
        forall|m: int| 0 <= m < s.len() ==> 0 <= #[trigger] f(s[m]),
    ensures
        seq_sum(s.take(k), f) <= seq_sum(s, f),
    decreases s.len(),
{
    if k < s.len() {
        assert(s.drop_last().take(k) =~= s.take(k));
        assert forall|m: int| 0 <= m < s.drop_last().len() implies 0 <= #[trigger] f(s.drop_last()[m]) by {
            assert(s.drop_last()[m] == s[m]);
        }
        lemma_seq_sum_prefix_le(s.drop_last(), k, f);
    } else {
        assert(s.take(k) =~= s);
    }
}

/// No more inputs are spent than there are.
pub proof fn lemma_touched_le_len(s: Seq<TxInput>)
    ensures
        0 <= seq_sum(s, |n: TxInput| input_touched(n)) <= s.len(),
{
    lemma_seq_sum_bounds(s, |n: TxInput| input_touched(n), |n: TxInput| one_input(n));
    lemma_one_sum(s);
}

/// Under the planning invariant, the fee stays within what 255 actions cost.
pub proof fn lemma_plan_fee_bound(
    ins: Seq<Seq<TxInput>>,
    fm: FeeManager,
    fee: u64,
    used: Seq<bool>,
    outputs: Seq<ExtendedRecipient>,
    reserve: int,
)
    requires
        plan_inv(ins, fm, fee, used, outputs, reserve),
    ensures
        fm.spec_actions() <= 255,
        fm.spec_fee() <= MAX_FEE,
        fee <= MAX_FEE,
{
    lemma_touched_le_len(ins[0]);
    lemma_touched_le_len(ins[1]);
    lemma_touched_le_len(ins[2]);
    lemma_actions_bound(fm.num_inputs@, fm.num_outputs@);
}

/// A recipient's amount is at most the sum of all amounts.
pub proof fn lemma_output_amount_le(s: Seq<ExtendedRecipient>, i: int)
    requires
        0 <= i < s.len(),
    ensures
        s[i].amount <= seq_sum(s, |o: ExtendedRecipient| output_amount(o)),
    decreases s.len(),
{
    let f = |o: ExtendedRecipient| output_amount(o);
    if i == s.len() - 1 {
        lemma_seq_sum_bounds(s.drop_last(), f, f);
    } else {
        lemma_output_amount_le(s.drop_last(), i);
    }
}

/// Summing one per input counts the inputs.
pub proof fn lemma_one_sum(s: Seq<TxInput>)
    ensures
        seq_sum(s, |n: TxInput| one_input(n)) == s.len(),
    decreases s.len(),
{
    if s.len() > 0 {
        lemma_one_sum(s.drop_last());
    }
}

/// An input that is not spent yet leaves room for one more spent input.
pub proof fn lemma_touched_lt_len(s: Seq<TxInput>, j: int)
    requires
        0 <= j < s.len(),
        s[j].remaining == s[j].amount,
    ensures
        seq_sum(s, |n: TxInput| input_touched(n)) < s.len(),
    decreases s.len(),
{
    let f = |n: TxInput| input_touched(n);
    if j == s.len() - 1 {
        lemma_seq_sum_bounds(s.drop_last(), f, |n: TxInput| one_input(n));
        lemma_one_sum(s.drop_last());
    } else {
        lemma_touched_lt_len(s.drop_last(), j);
    }
}


/// Why a payment cannot be planned.
#[derive(Clone, Copy, Debug, PartialEq, Eq)]
pub enum Error {
    /// The change would be negative: this much more is needed.
    NotEnoughFunds(u64),
    /// The first recipient cannot pay this much out of its amount.
    FeesTooHighForRecipient(u64),
    NoRecipient,
    NoChangeOutput,
    /// No input could be used, so there is no pool for the change.
    NoFunds,
    /// A recipient's memo is no valid memo.
    InvalidMemo(MemoError),
}

/// An output of the planned transaction, paid to a single receiver.
#[derive(Debug)]
pub struct TxOutput {
    pub address_string: String,
    pub pool: u8,
    pub amount: u64,
    pub memo: Vec<u8>,
    pub is_change: bool,
}

/// A planned transaction whose first recipient's amount can still be
/// traded against the change.
#[derive(Debug)]
pub struct AdjustableUnsignedTransaction {
    pub tx_notes: Vec<TxInput>,
    pub tx_outputs: Vec<TxOutput>,
    pub sum_ins: u64,
    pub sum_outs: u64,
    pub change: i64,
}

/// Amount of an output.
pub open spec fn tx_output_amount(o: TxOutput) -> int {
    o.amount as int
}

/// Sum of the amounts of the spent notes.
pub open spec fn notes_total(s: Seq<TxInput>) -> int {
    seq_sum(s, |n: TxInput| input_amount(n))
}

/// Sum of the amounts of the outputs.
pub open spec fn outputs_total(s: Seq<TxOutput>) -> int {
    seq_sum(s, |o: TxOutput| tx_output_amount(o))
}

impl AdjustableUnsignedTransaction {
    /// The balance of the plan against the fee `fee`: inputs = outputs +
    /// change + fee.
    pub open spec fn balanced(&self, fee: int) -> bool {
        self.change == notes_total(self.tx_notes@) - outputs_total(self.tx_outputs@) - fee
    }
}

/// The inputs that the plan spends, in order.
pub open spec fn spent_inputs(s: Seq<TxInput>) -> Seq<TxInput>
    decreases s.len(),
{
    if s.len() == 0 {
        s
    } else {
        let p = spent_inputs(s.drop_last());
        if s.last().remaining != s.last().amount { p.push(s.last()) } else { p }
    }
}

/// The single-receiver address of a recipient in `pool`.
pub open spec fn receiver_at(r: UAReceiversT, pool: int) -> Option<String> {
    if pool == 0 {
        r.transparent
    } else if pool == 1 {
        r.sapling
    } else {
        r.orchard
    }
}

/// Whether a recipient can be planned: its amounts agree and it has a
/// receiver in every pool it may end up paid in.
pub open spec fn recipient_ready(o: ExtendedRecipient) -> bool {
    &&& o.remaining == o.amount
    &&& o.recipient.amount == o.amount
    &&& o.pool_mask.0 < 8
    &&& !o.is_change
    &&& if is_single_pool(o.pool_mask.0) {
        o.pool_mask.0 & 7 != 0 && receiver_at(o.receivers, mask_to_pool(o.pool_mask.0).unwrap() as int) is Some
    } else {
        o.receivers.sapling is Some && o.receivers.orchard is Some
    }
}

/// The pool in which a recipient gets paid, when the recipients that accept
/// several pools are paid in `multi`.
pub open spec fn paid_pool(o: ExtendedRecipient, multi: u8) -> u8 {
    if is_single_pool(o.pool_mask.0) { mask_to_pool(o.pool_mask.0).unwrap() } else { multi }
}


impl InputNote {
    /// A copy of the note.
    pub fn copy_of(&self) -> (r: InputNote)
        ensures
            r == *self,
    {
        match self {
            InputNote::Transparent { txid, vout, external, addr_index, address } => InputNote::Transparent {
                txid: *txid,
                vout: *vout,
                external: *external,
                addr_index: *addr_index,
                address: address.clone(),
            },
            InputNote::Sapling { address, rseed, witness } => InputNote::Sapling {
                address: *address,
                rseed: *rseed,
                witness: *witness,
            },
            InputNote::Orchard { address, rseed, rho, witness } => InputNote::Orchard {
                address: *address,
                rseed: *rseed,
                rho: *rho,
                witness: *witness,
            },
        }
    }
}

impl TxInput {
    /// A copy of the input.
    pub fn copy_of(&self) -> (r: TxInput)
        ensures
            r == *self,
    {
        TxInput {
            id: self.id,
            amount: self.amount,
            remaining: self.remaining,
            pool: self.pool,
            note: self.note.copy_of(),
        }
    }
}

/// No input is spent.
pub open spec fn all_unspent(s: Seq<TxInput>) -> bool {
    forall|i: int| 0 <= i < s.len() ==> (#[trigger] s[i]).remaining == s[i].amount
}

/// Nothing of unspent inputs is spent or consumed.
pub proof fn lemma_unspent_sums(s: Seq<TxInput>)
    requires
        all_unspent(s),
    ensures
        seq_sum(s, |n: TxInput| input_touched(n)) == 0,
        seq_sum(s, |n: TxInput| input_consumed(n)) == 0,
    decreases s.len(),
{
    if s.len() > 0 {
        assert(all_unspent(s.drop_last())) by {
            assert forall|i: int| 0 <= i < s.drop_last().len() implies (#[trigger] s.drop_last()[i]).remaining == s.drop_last()[i].amount by {
                assert(s.drop_last()[i] == s[i]);
            }
        }
        lemma_unspent_sums(s.drop_last());
    }
}

/// Sum over equal-amount inputs.
pub proof fn lemma_same_inputs_amount(a: Seq<TxInput>, b: Seq<TxInput>)
    requires
        same_inputs(a, b),
    ensures
        seq_sum(a, |n: TxInput| input_amount(n)) == seq_sum(b, |n: TxInput| input_amount(n)),
    decreases a.len(),
{
    if a.len() > 0 {
        assert(same_inputs(a.drop_last(), b.drop_last())) by {
            assert forall|i: int| 0 <= i < a.drop_last().len() implies same_input(#[trigger] a.drop_last()[i], b.drop_last()[i]) by {
                assert(a.drop_last()[i] == a[i]);
                assert(b.drop_last()[i] == b[i]);
            }
        }
        lemma_same_inputs_amount(a.drop_last(), b.drop_last());
        assert(same_input(a[a.len() - 1], b[b.len() - 1]));
    }
}

/// Sum over equal-amount recipients.
pub proof fn lemma_same_outputs_amount(a: Seq<ExtendedRecipient>, b: Seq<ExtendedRecipient>)
    requires
        same_outputs(a, b),
    ensures
        seq_sum(a, |o: ExtendedRecipient| output_amount(o)) == seq_sum(b, |o: ExtendedRecipient| output_amount(o)),
    decreases a.len(),
{
    if a.len() > 0 {
        assert(same_outputs(a.drop_last(), b.drop_last())) by {
            assert forall|i: int| 0 <= i < a.drop_last().len() implies same_output(#[trigger] a.drop_last()[i], b.drop_last()[i]) by {
                assert(a.drop_last()[i] == a[i]);
                assert(b.drop_last()[i] == b[i]);
            }
        }
        lemma_same_outputs_amount(a.drop_last(), b.drop_last());
        assert(same_output(a[a.len() - 1], b[b.len() - 1]));
    }
}

/// Nothing is assigned to recipients that are not funded at all.
pub proof fn lemma_unfunded_assigned(s: Seq<ExtendedRecipient>)
    requires
        forall|i: int| 0 <= i < s.len() ==> (#[trigger] s[i]).remaining == s[i].amount,
    ensures
        seq_sum(s, |o: ExtendedRecipient| output_assigned(o)) == 0,
    decreases s.len(),
{
    if s.len() > 0 {
        assert forall|i: int| 0 <= i < s.drop_last().len() implies (#[trigger] s.drop_last()[i]).remaining == s.drop_last()[i].amount by {
            assert(s.drop_last()[i] == s[i]);
        }
        lemma_unfunded_assigned(s.drop_last());
    }
}

impl PaymentBuilder {
    /// Makes every input of pool `p` unspent again.
    fn reset_pool(&mut self, p: usize)
        requires
            p < 3,
        ensures
            all_unspent(final(self).pools()[p as int]),
            same_inputs(final(self).pools()[p as int], old(self).pools()[p as int]),
            forall|q: int| 0 <= q < 3 && q != p ==> final(self).pools()[q] == old(self).pools()[q],
            final(self).fee_manager == old(self).fee_manager,
            final(self).fee == old(self).fee,
            final(self).used == old(self).used,
            final(self).outputs == old(self).outputs,
            final(self).height == old(self).height,
            final(self).account == old(self).account,
            final(self).account_name == old(self).account_name,
            final(self).account_addresses == old(self).account_addresses,
            final(self).account_pools == old(self).account_pools,
            final(self).src_pools == old(self).src_pools,
            final(self).use_change == old(self).use_change,
            final(self).available == old(self).available,
    {
        let ghost before = self.pools();
        let mut v: Vec<TxInput> = Vec::new();
        std::mem::swap(&mut v, &mut self.inputs[p]);
        let mut j: usize = 0;
        while j < v.len()
            invariant
                j <= v.len(),
                p < 3,
                v@.len() == before[p as int].len(),
                same_inputs(v@, before[p as int]),
                forall|i: int| 0 <= i < j ==> (#[trigger] v@[i]).remaining == v@[i].amount,
                forall|q: int| 0 <= q < 3 && q != p ==> self.inputs@[q]@ == before[q],
                self.fee_manager == old(self).fee_manager,
                self.fee == old(self).fee,
                self.used == old(self).used,
                self.outputs == old(self).outputs,
                self.height == old(self).height,
                self.account == old(self).account,
                self.account_name == old(self).account_name,
                self.account_addresses == old(self).account_addresses,
                self.account_pools == old(self).account_pools,
                self.src_pools == old(self).src_pools,
                self.use_change == old(self).use_change,
                self.available == old(self).available,
                before == old(self).pools(),
            decreases v.len() - j,
        {
            let a = v[j].amount;
            let n = &mut v[j];
            n.remaining = a;
            j = j + 1;
        }
        std::mem::swap(&mut v, &mut self.inputs[p]);
    }

    /// Copies the spent inputs of pool `p` after `notes`.
    fn collect_spent(&self, p: usize, notes: &mut Vec<TxInput>)
        requires
            p < 3,
        ensures
            final(notes)@ == old(notes)@ + spent_inputs(self.pools()[p as int]),
    {
        let v = &self.inputs[p];
        let mut j: usize = 0;
        while j < v.len()
            invariant
                j <= v.len(),
                p < 3,
                v@ == self.pools()[p as int],
                notes@ == old(notes)@ + spent_inputs(v@.take(j as int)),
            decreases v.len() - j,
        {
            proof {
                assert(v@.take(j + 1).drop_last() =~= v@.take(j as int));
            }
            if v[j].remaining != v[j].amount {
                let c = v[j].copy_of();
                notes.push(c);
            }
            proof {
                assert(notes@ =~= old(notes)@ + spent_inputs(v@.take(j + 1)));
            }
            j = j + 1;
        }
        proof {
            assert(v@.take(v.len() as int) =~= v@);
        }
    }
}


/// The spent inputs are as many as the inputs counted as spent.
pub proof fn lemma_spent_len(s: Seq<TxInput>)
    ensures
        spent_inputs(s).len() == seq_sum(s, |n: TxInput| input_touched(n)),
    decreases s.len(),
{
    if s.len() > 0 {
        lemma_spent_len(s.drop_last());
    }
}

/// The spent inputs amount to at most all inputs.
pub proof fn lemma_spent_total(s: Seq<TxInput>)
    ensures
        0 <= notes_total(spent_inputs(s)) <= notes_total(s),
    decreases s.len(),
{
    if s.len() > 0 {
        lemma_spent_total(s.drop_last());
        let p = spent_inputs(s.drop_last());
        if s.last().remaining != s.last().amount {
            lemma_seq_sum_push(p, s.last(), |n: TxInput| input_amount(n));
        }
    }
}

/// Sum over a concatenation.
pub proof fn lemma_seq_sum_concat<T>(a: Seq<T>, b: Seq<T>, f: spec_fn(T) -> int)
    ensures
        seq_sum(a + b, f) == seq_sum(a, f) + seq_sum(b, f),
    decreases b.len(),
{
    if b.len() == 0 {
        assert(a + b =~= a);
    } else {
        assert((a + b).drop_last() =~= a + b.drop_last());
        lemma_seq_sum_concat(a, b.drop_last(), f);
    }
}

/// The highest pool in which an input is spent.
pub open spec fn change_pool_of(used: Seq<bool>) -> Option<u8> {
    if used[2] {
        Some(2u8)
    } else if used[1] {
        Some(1u8)
    } else if used[0] {
        Some(0u8)
    } else {
        None
    }
}

/// The change goes to the highest pool (Orchard, then Sapling, then
/// transparent) in which an input is spent; there is none where no input
/// is spent.
pub proof fn lemma_change_pool_highest(used: Seq<bool>)
    requires
        used.len() == 3,
    ensures
        change_pool_of(used) is None <==> (!used[0] && !used[1] && !used[2]),
        change_pool_of(used) matches Some(p) ==> {
            &&& p < 3
            &&& used[p as int]
            &&& forall|q: int| p < q < 3 ==> !#[trigger] used[q]
        },
{
}

impl PaymentBuilder {
    /// Makes all inputs unspent and takes the recipients out of the builder.
    fn start_plan(&mut self) -> (outputs: Vec<ExtendedRecipient>)
        requires
            old(self).fee == 0,
            old(self).fee_manager.num_inputs@ == seq![0u8, 0u8, 0u8],
            old(self).fee_manager.num_outputs@ == seq![0u8, 0u8, 0u8],
            old(self).used@ == seq![false, false, false],
            forall|p: int| 0 <= p < 3 ==> seq_sum(#[trigger] old(self).pools()[p], |n: TxInput| input_amount(n)) <= MAX_MONEY,
            seq_sum(old(self).outputs@, |o: ExtendedRecipient| output_amount(o)) <= MAX_MONEY,
            forall|i: int| 0 <= i < old(self).outputs@.len() ==> recipient_ready(#[trigger] old(self).outputs@[i]),
            old(self).outputs@.len() + 1 <= 253,
        ensures
            final(self).reserve == old(self).outputs@.len() + (if old(self).use_change { 1int } else { 0int }),
            outputs@ == old(self).outputs@,
            final(self).outputs@.len() == 0,
            final(self).inv(outputs@),
            forall|p: int| 0 <= p < 3 ==> same_inputs(#[trigger] final(self).pools()[p], old(self).pools()[p]),
            final(self).fee_manager.num_outputs@ == seq![0u8, 0u8, 0u8],
            final(self).height == old(self).height,
            final(self).account == old(self).account,
            final(self).account_name == old(self).account_name,
            final(self).account_addresses == old(self).account_addresses,
            final(self).account_pools == old(self).account_pools,
            final(self).src_pools == old(self).src_pools,
            final(self).use_change == old(self).use_change,
            final(self).fee == old(self).fee,
            final(self).fee_manager.num_inputs@ == old(self).fee_manager.num_inputs@,
            final(self).used@ == old(self).used@,
            final(self).pools() == seq![unspent_notes(old(self).pools()[0]), unspent_notes(old(self).pools()[1]), unspent_notes(old(self).pools()[2])],
    {
        self.reset_pool(0);
        self.reset_pool(1);
        self.reset_pool(2);
        let mut outputs: Vec<ExtendedRecipient> = Vec::new();
        std::mem::swap(&mut outputs, &mut self.outputs);
        self.reserve = if self.use_change { outputs.len() + 1 } else { outputs.len() };
        proof {
            let ins = self.pools();
            assert forall|p: int| 0 <= p < 3 implies inputs_ok(#[trigger] ins[p]) by {
                lemma_same_inputs_amount(ins[p], old(self).pools()[p]);
            }
            lemma_unspent_sums(ins[0]);
            lemma_unspent_sums(ins[1]);
            lemma_unspent_sums(ins[2]);
            lemma_unfunded_assigned(outputs@);
            assert(self.fee_manager.spec_fee() == 0);
            assert forall|p: int| 0 <= p < 3 implies #[trigger] ins[p] =~= unspent_notes(old(self).pools()[p]) by {
                assert forall|i: int| 0 <= i < ins[p].len() implies ins[p][i] == unspent_notes(old(self).pools()[p])[i] by {
                    assert(same_input(ins[p][i], old(self).pools()[p][i]));
                }
            }
            assert(ins =~= seq![unspent_notes(old(self).pools()[0]), unspent_notes(old(self).pools()[1]), unspent_notes(old(self).pools()[2])]);
        }
        outputs
    }

    /// Funds the recipients that accept a single pool, then those that
    /// accept several, paid in the shielded pool with the most funds left
    /// (Orchard on a tie); returns that pool.
    #[verifier::rlimit(60)]
    fn plan_outputs(&mut self, outputs: &mut Vec<ExtendedRecipient>) -> (multi: u8)
        requires
            old(self).inv(old(outputs)@),
            sum3(old(self).fee_manager.num_outputs@) == 0,
            old(outputs)@.len() <= old(self).reserve,
            forall|i: int| 0 <= i < old(outputs)@.len() ==> recipient_ready(#[trigger] old(outputs)@[i]),
        ensures
            multi == 1 || multi == 2,
            final(self).inv(final(outputs)@),
            final(outputs)@.len() == old(outputs)@.len(),
            forall|i: int| 0 <= i < old(outputs)@.len() ==> {
                let o = #[trigger] final(outputs)@[i];
                let o0 = old(outputs)@[i];
                &&& o.recipient == o0.recipient
                &&& o.amount == o0.amount
                &&& o.is_change == o0.is_change
                &&& o.receivers == o0.receivers
                &&& o.pool_mask.0 == pool_bit(paid_pool(o0, multi))
            },
            final(self).same_setup(old(self)),
            sum3(final(self).fee_manager.num_outputs@) == old(outputs)@.len(),
            in_plan_state(*final(self), final(outputs)@,
                outputs_plan(old(self).plan_state(old(outputs)@), old(self).fee_manager.num_outputs@).0),
            multi == outputs_plan(old(self).plan_state(old(outputs)@), old(self).fee_manager.num_outputs@).1,
            final(self).fee_manager.num_outputs@ == outputs_counts(old(self).plan_state(old(outputs)@), old(self).fee_manager.num_outputs@),
    {
        let mut single: Vec<usize> = Vec::new();
        let mut multiple: Vec<usize> = Vec::new();
        let mut i: usize = 0;
        while i < outputs.len()
            invariant
                i <= outputs.len(),
                single@.len() + multiple@.len() == i,
                forall|k: int| 0 <= k < single@.len() ==> #[trigger] single@[k] < i && is_single_pool(outputs@[single@[k] as int].pool_mask.0),
                forall|k: int| 0 <= k < multiple@.len() ==> #[trigger] multiple@[k] < i && !is_single_pool(outputs@[multiple@[k] as int].pool_mask.0),
                forall|j: int| 0 <= j < i ==> (is_single_pool(outputs@[j].pool_mask.0) ==> single@.contains(j as usize)),
                forall|j: int| 0 <= j < i ==> (!is_single_pool(outputs@[j].pool_mask.0) ==> multiple@.contains(j as usize)),
                outputs@ == old(outputs)@,
                single@ == single_indices(outputs@, i as int),
                multiple@ == multiple_indices(outputs@, i as int),
            decreases outputs.len() - i,
        {
            let ghost s0 = single@;
            let ghost m0 = multiple@;
            if outputs[i].pool_mask.single_pool() {
                single.push(i);
            } else {
                multiple.push(i);
            }
            proof {
                assert forall|j: int| 0 <= j < i + 1 implies (is_single_pool(outputs@[j].pool_mask.0) ==> single@.contains(j as usize)) by {
                    if j < i && is_single_pool(outputs@[j].pool_mask.0) {
                        let k = choose|k: int| 0 <= k < s0.len() && s0[k] == j as usize;
                        assert(single@[k] == j as usize);
                    } else if j == i && is_single_pool(outputs@[j].pool_mask.0) {
                        assert(single@[single@.len() - 1] == j as usize);
                    }
                }
                assert forall|j: int| 0 <= j < i + 1 implies (!is_single_pool(outputs@[j].pool_mask.0) ==> multiple@.contains(j as usize)) by {
                    if j < i && !is_single_pool(outputs@[j].pool_mask.0) {
                        let k = choose|k: int| 0 <= k < m0.len() && m0[k] == j as usize;
                        assert(multiple@[k] == j as usize);
                    } else if j == i && !is_single_pool(outputs@[j].pool_mask.0) {
                        assert(multiple@[multiple@.len() - 1] == j as usize);
                    }
                }
            }
            i = i + 1;
        }
        proof {
            assert forall|k: int| 0 <= k < single@.len() implies (#[trigger] outputs@[single@[k] as int]).pool_mask.0 & 7 != 0 by {
                assert(recipient_ready(outputs@[single@[k] as int]));
            }
        }
        let ghost before_single = outputs@;
        let ghost no0 = self.fee_manager.num_outputs@;
        let ghost ps0 = old(self).plan_state(old(outputs)@);
        proof {
            assert(self.plan_state(outputs@) == ps0);
        }
        self.fill_outputs(outputs, &single);
        proof {
            lemma_registered_sum(no0, before_single, single@);
        }
        let ghost psa = fill_outputs_plan(ps0, single@, no0);
        let ghost noa = self.fee_manager.num_outputs@;
        self.calculate_available();
        proof {
            assert(in_plan_state(*self, outputs@, psa));
            assert(self.available@[1] == pool_left(psa, 1));
            assert(self.available@[2] == pool_left(psa, 2));
        }
        let mask: u8 = if self.available[1] > self.available[2] { 2 } else { 4 };
        let multi: u8 = if mask == 2 { 1 } else { 2 };
        let ghost mid = outputs@;
        let mut k: usize = 0;
        while k < multiple.len()
            invariant
                k <= multiple@.len(),
                outputs@.len() == mid.len(),
                forall|k: int| 0 <= k < multiple@.len() ==> #[trigger] multiple@[k] < outputs@.len(),
                forall|j: int| 0 <= j < outputs@.len() ==> {
                    let o = #[trigger] outputs@[j];
                    &&& o.recipient == mid[j].recipient
                    &&& o.amount == mid[j].amount
                    &&& o.remaining == mid[j].remaining
                    &&& o.is_change == mid[j].is_change
                    &&& o.receivers == mid[j].receivers
                    &&& (in_prefix(multiple@, k as int, j) ==> o.pool_mask.0 == mask)
                    &&& (!in_prefix(multiple@, k as int, j) ==> o.pool_mask == mid[j].pool_mask)
                },
            decreases multiple@.len() - k,
        {
            let j = multiple[k];
            let ghost before = outputs@;
            let o = &mut outputs[j];
            o.pool_mask = PoolMask(mask);
            proof {
                assert forall|j2: int| 0 <= j2 < outputs@.len() implies {
                    let o = #[trigger] outputs@[j2];
                    &&& o.recipient == mid[j2].recipient
                    &&& o.amount == mid[j2].amount
                    &&& o.remaining == mid[j2].remaining
                    &&& o.is_change == mid[j2].is_change
                    &&& o.receivers == mid[j2].receivers
                    &&& (in_prefix(multiple@, k + 1, j2) ==> o.pool_mask.0 == mask)
                    &&& (!in_prefix(multiple@, k + 1, j2) ==> o.pool_mask == mid[j2].pool_mask)
                } by {
                    if j2 != j as int {
                        assert(outputs@[j2] == before[j2]);
                        if in_prefix(multiple@, k + 1, j2) {
                            let w = choose|w: int| 0 <= w < k + 1 && #[trigger] multiple@[w] as int == j2;
                            assert(w != k);
                        }
                        if in_prefix(multiple@, k as int, j2) {
                            let w = choose|w: int| 0 <= w < k && #[trigger] multiple@[w] as int == j2;
                            assert(0 <= w < k + 1 && multiple@[w] as int == j2);
                        }
                    } else {
                        assert(0 <= k < k + 1 && multiple@[k as int] as int == j2);
                    }
                }
            }
            k = k + 1;
        }
        proof {
            lemma_seq_sum_congruent(outputs@, mid, |o: ExtendedRecipient| output_amount(o));
            lemma_seq_sum_congruent(outputs@, mid, |o: ExtendedRecipient| output_assigned(o));
            assert(outputs_ok(outputs@));
            assert forall|k2: int| 0 <= k2 < multiple@.len() implies (#[trigger] outputs@[multiple@[k2] as int]).pool_mask.0 & 7 != 0 by {
                assert(0 <= k2 < multiple@.len() && multiple@[k2] as int == multiple@[k2] as int);
                assert(in_prefix(multiple@, multiple@.len() as int, multiple@[k2] as int));
                assert(2u8 & 7 != 0 && 4u8 & 7 != 0) by (bit_vector);
            }
        }
        let ghost before_multi = outputs@;
        let ghost no1 = self.fee_manager.num_outputs@;
        let ghost psb = PlanState { outputs: masked(psa.outputs, multiple@, mask), ..psa };
        proof {
            assert(mid == psa.outputs);
            assert forall|j: int| 0 <= j < outputs@.len() implies #[trigger] outputs@[j] == masked(psa.outputs, multiple@, mask)[j] by {
                if multiple@.contains(j as usize) {
                    let w = choose|w: int| 0 <= w < multiple@.len() && multiple@[w] == j as usize;
                    assert(multiple@[w] as int == j);
                    assert(in_prefix(multiple@, multiple@.len() as int, j));
                } else {
                    if in_prefix(multiple@, multiple@.len() as int, j) {
                        let w = choose|w: int| 0 <= w < multiple@.len() && #[trigger] multiple@[w] as int == j;
                        assert(multiple@[w] == j as usize);
                        assert(multiple@.contains(j as usize));
                    }
                }
            }
            assert(outputs@ =~= masked(psa.outputs, multiple@, mask));
            assert(self.plan_state(outputs@) == psb);
            assert(noa == registered_counts(no0, ps0.outputs, single@));
        }
        self.fill_outputs(outputs, &multiple);
        proof {
            lemma_registered_sum(no1, before_multi, multiple@);
            assert(multiple@.take(multiple@.len() as int) =~= multiple@);
            assert forall|i: int| 0 <= i < old(outputs)@.len() implies {
                let o = #[trigger] outputs@[i];
                let o0 = old(outputs)@[i];
                &&& o.recipient == o0.recipient
                &&& o.amount == o0.amount
                &&& o.is_change == o0.is_change
                &&& o.receivers == o0.receivers
                &&& o.pool_mask.0 == pool_bit(paid_pool(o0, multi))
            } by {
                let o0 = old(outputs)@[i];
                assert(recipient_ready(o0));
                assert(same_output(outputs@[i], before_multi[i]));
                if is_single_pool(o0.pool_mask.0) {
                    assert(single@.contains(i as usize));
                    if in_prefix(multiple@, multiple@.len() as int, i) {
                        let k2 = choose|k2: int| 0 <= k2 < multiple@.len() && #[trigger] multiple@[k2] as int == i;
                        assert(!is_single_pool(mid[multiple@[k2] as int].pool_mask.0));
                    }
                    lemma_single_mask(o0.pool_mask.0);
                } else {
                    assert(multiple@.contains(i as usize));
                    let k2 = choose|k2: int| 0 <= k2 < multiple@.len() && multiple@[k2] == i as usize;
                    assert(in_prefix(multiple@, multiple@.len() as int, i));
                    assert(mask == 2 ==> multi == 1);
                }
            }
        }
        multi
    }
}


/// Whether `j` is among the first `k` indices of `which`.
pub open spec fn in_prefix(which: Seq<usize>, k: int, j: int) -> bool {
    exists|w: int| 0 <= w < k && #[trigger] which[w] as int == j
}

/// Sums that agree term by term are equal.
pub proof fn lemma_seq_sum_congruent<T>(a: Seq<T>, b: Seq<T>, f: spec_fn(T) -> int)
    requires
        a.len() == b.len(),
        forall|i: int| 0 <= i < a.len() ==> f(#[trigger] a[i]) == f(b[i]),
    ensures
        seq_sum(a, f) == seq_sum(b, f),
    decreases a.len(),
{
    if a.len() > 0 {
        assert forall|i: int| 0 <= i < a.drop_last().len() implies f(#[trigger] a.drop_last()[i]) == f(b.drop_last()[i]) by {
            assert(a.drop_last()[i] == a[i]);
            assert(b.drop_last()[i] == b[i]);
        }
        lemma_seq_sum_congruent(a.drop_last(), b.drop_last(), f);
        assert(f(a[a.len() - 1]) == f(b[b.len() - 1]));
    }
}

/// Sums of matched terms over two sequences of the same length agree.
pub proof fn lemma_seq_sum_matched<A, B>(a: Seq<A>, b: Seq<B>, f: spec_fn(A) -> int, g: spec_fn(B) -> int)
    requires
        a.len() == b.len(),
        forall|i: int| 0 <= i < a.len() ==> f(#[trigger] a[i]) == g(b[i]),
    ensures
        seq_sum(a, f) == seq_sum(b, g),
    decreases a.len(),
{
    if a.len() > 0 {
        assert forall|i: int| 0 <= i < a.drop_last().len() implies f(#[trigger] a.drop_last()[i]) == g(b.drop_last()[i]) by {
            assert(a.drop_last()[i] == a[i]);
            assert(b.drop_last()[i] == b[i]);
        }
        lemma_seq_sum_matched(a.drop_last(), b.drop_last(), f, g);
        assert(f(a[a.len() - 1]) == g(b[b.len() - 1]));
    }
}

/// Outputs that pay the recipients, and maybe a change output of nothing,
/// total what the recipients ask for.
pub proof fn lemma_paid_total(outs: Seq<TxOutput>, rs: Seq<ExtendedRecipient>, multi: u8, extra: bool)
    requires
        all_paid(outs, rs, multi),
        outs.len() == rs.len() + (if extra { 1int } else { 0int }),
        extra ==> outs[rs.len() as int].amount == 0,
    ensures
        outputs_total(outs) == recipients_total(rs),
{
    let n = rs.len() as int;
    let head = outs.take(n);
    assert forall|i: int| 0 <= i < head.len() implies tx_output_amount(#[trigger] head[i]) == rs[i].recipient.amount as int by {
        assert(head[i] == outs[i]);
        assert(paid_output(outs[i], rs[i], paid_pool(rs[i], multi), recipient_memo_bytes(rs[i])));
    }
    lemma_seq_sum_matched(head, rs, |o: TxOutput| tx_output_amount(o), |o: ExtendedRecipient| o.recipient.amount as int);
    if extra {
        assert(outs =~= head.push(outs[n]));
        lemma_seq_sum_push(head, outs[n], |o: TxOutput| tx_output_amount(o));
    } else {
        assert(outs =~= head);
    }
}

/// Registering recipients counts each of them once.
pub proof fn lemma_registered_sum(no: Seq<u8>, outputs: Seq<ExtendedRecipient>, which: Seq<usize>)
    requires
        no.len() == 3,
        sum3(no) + which.len() <= 253,
        forall|k: int| 0 <= k < which.len() ==> #[trigger] which[k] < outputs.len(),
        forall|k: int| 0 <= k < which.len() ==> (#[trigger] outputs[which[k] as int]).pool_mask.0 & 7 != 0,
    ensures
        registered_counts(no, outputs, which).len() == 3,
        sum3(registered_counts(no, outputs, which)) == sum3(no) + which.len(),
    decreases which.len(),
{
    if which.len() > 0 {
        lemma_registered_sum(no, outputs, which.drop_last());
        let m = outputs[which.last() as int].pool_mask.0;
        assert(which.last() == which[which.len() - 1]);
        assert(m & 7 != 0 ==> (m & 4 != 0 || m & 2 != 0 || m & 1 != 0)) by (bit_vector);
    }
}

/// A single-pool mask within the three pools is the mask of its pool.
pub proof fn lemma_single_mask(m: u8)
    requires
        is_single_pool(m),
        m & 7 != 0,
    ensures
        m == 1 || m == 2 || m == 4,
        mask_to_pool(m) is Some,
        pool_bit(mask_to_pool(m).unwrap()) == m,
{
    assert(is_single_pool(m) && m & 7 != 0 ==> (m == 1 || m == 2 || m == 4)) by (bit_vector)
        requires is_single_pool(m) == (m == 1 || m == 2 || m == 4 || m == 8 || m == 16 || m == 32 || m == 64 || m == 128);
    assert(1u8 & 4 == 0 && 1u8 & 2 == 0 && 1u8 & 1 != 0) by (bit_vector);
    assert(2u8 & 4 == 0 && 2u8 & 2 != 0) by (bit_vector);
    assert(4u8 & 4 != 0) by (bit_vector);
}


/// A copy of the account's address in `pool`.
fn account_address(a: &UAReceiversT, pool: u8) -> (r: String)
    requires
        pool < 3,
        receiver_at(*a, pool as int) is Some,
    ensures
        r == receiver_at(*a, pool as int)->0,
{
    if pool == 0 {
        a.transparent.as_ref().unwrap().clone()
    } else if pool == 1 {
        a.sapling.as_ref().unwrap().clone()
    } else {
        a.orchard.as_ref().unwrap().clone()
    }
}

/// The receivers of an address that is only in `pool`.
pub open spec fn only_receiver(pool: u8, addr: String) -> UAReceiversT {
    UAReceiversT {
        tex: false,
        transparent: if pool == 0 { Some(addr) } else { None },
        sapling: if pool == 1 { Some(addr) } else { None },
        orchard: if pool == 2 { Some(addr) } else { None },
    }
}

/// The change output of a plan, paid to the account in `pool`.
pub open spec fn change_recipient(pool: u8, addr: String) -> ExtendedRecipient {
    ExtendedRecipient {
        recipient: RecipientT {
            address: Some(addr),
            amount: 0,
            pools: pool_bit(pool),
            memo: None,
            memo_bytes: None,
        },
        amount: 0,
        remaining: 0,
        pool_mask: PoolMask(pool_bit(pool)),
        is_change: true,
        receivers: only_receiver(pool, addr),
    }
}

impl PaymentBuilder {
    /// Adds the change output, in the highest pool from which an input is
    /// spent, paid to the account's address in that pool.
    fn add_change(&mut self, outputs: &mut Vec<ExtendedRecipient>) -> (r: Result<(), Error>)
        requires
            old(self).inv(old(outputs)@),
            sum3(old(self).fee_manager.num_outputs@) + 1 <= old(self).reserve,
            forall|p: int| 0 <= p < 3 && old(self).used@[p] ==> receiver_at(old(self).account_addresses, p) is Some,
        ensures
            match r {
                Ok(()) => {
                    let cp = change_pool_of(old(self).used@)->0;
                    &&& change_pool_of(old(self).used@) is Some
                    &&& final(outputs)@ == old(outputs)@.push(change_recipient(cp, receiver_at(old(self).account_addresses, cp as int)->0))
                    &&& final(self).inv(final(outputs)@)
                    &&& final(self).pools() == old(self).pools()
                    &&& final(self).used == old(self).used
                    &&& final(self).fee_manager.num_inputs == old(self).fee_manager.num_inputs
                    &&& sum3(final(self).fee_manager.num_outputs@) == sum3(old(self).fee_manager.num_outputs@) + 1
                    &&& final(self).fee_manager.num_outputs@ == old(self).fee_manager.num_outputs@.update(cp as int,
                        (old(self).fee_manager.num_outputs@[cp as int] + 1) as u8)
                    &&& final(self).same_setup(old(self))
                },
                Err(e) => {
                    &&& e == Error::NoFunds
                    &&& change_pool_of(old(self).used@) is None
                    &&& final(outputs)@ == old(outputs)@
                    &&& *final(self) == *old(self)
                },
            },
    {
        let cp: u8 = if self.used[2] {
            2
        } else if self.used[1] {
            1
        } else if self.used[0] {
            0
        } else {
            return Err(Error::NoFunds);
        };
        let addr = account_address(&self.account_addresses, cp);
        let mask = PoolMask::from_pool(cp);
        let receivers = UAReceiversT {
            tex: false,
            transparent: if cp == 0 { Some(addr.clone()) } else { None },
            sapling: if cp == 1 { Some(addr.clone()) } else { None },
            orchard: if cp == 2 { Some(addr.clone()) } else { None },
        };
        let change = ExtendedRecipient {
            recipient: RecipientT {
                address: Some(addr),
                amount: 0,
                pools: mask.0,
                memo: None,
                memo_bytes: None,
            },
            amount: 0,
            remaining: 0,
            pool_mask: mask,
            is_change: true,
            receivers,
        };
        let ghost before = outputs@;
        outputs.push(change);
        proof {
            lemma_seq_sum_push(before, change, |o: ExtendedRecipient| output_amount(o));
            lemma_seq_sum_push(before, change, |o: ExtendedRecipient| output_assigned(o));
            assert(outputs_ok(outputs@));
            lemma_from_pool_single(cp);
        }
        let mut w: Vec<usize> = Vec::new();
        w.push(outputs.len() - 1);
        proof {
            assert(w@[0] as int == before.len());
            assert(outputs@[w@[0] as int] == change);
            assert(1u8 & 7 != 0 && 2u8 & 7 != 0 && 4u8 & 7 != 0) by (bit_vector);
            assert(change.pool_mask.0 == pool_bit(cp));
        }
        let ghost no0 = self.fee_manager.num_outputs@;
        self.fill_outputs(outputs, &w);
        proof {
            lemma_registered_sum(no0, before.push(change), w@);
            assert(w@.drop_last() =~= Seq::<usize>::empty());
            assert(registered_counts(no0, before.push(change), w@.drop_last()) == no0);
            assert(w@.last() as int == before.len());
            assert(mask_to_pool(change.pool_mask.0) == Some(cp));
        }
        Ok(())
    }
}

/// The output that pays recipient `o` in pool `pool` with memo `memo`.
pub open spec fn paid_output(o: TxOutput, r: ExtendedRecipient, pool: u8, memo: Seq<u8>) -> bool {
    &&& o.address_string == receiver_at(r.receivers, pool as int)->0
    &&& o.pool == pool
    &&& o.amount == r.recipient.amount
    &&& o.memo@ == memo
    &&& o.is_change == r.is_change
}

/// Whether recipient `i` is the first whose memo is invalid, failing with `e`.
pub open spec fn memo_fails_at(outputs: Seq<ExtendedRecipient>, i: int, e: Error) -> bool {
    &&& 0 <= i < outputs.len()
    &&& (forall|j: int| 0 <= j < i ==> recipient_memo((#[trigger] outputs[j]).recipient) is Ok)
    &&& recipient_memo(outputs[i].recipient) matches Err(me)
    &&& e == Error::InvalidMemo(me)
}

/// The memo bytes of a recipient whose memo is valid.
pub open spec fn recipient_memo_bytes(r: ExtendedRecipient) -> Seq<u8> {
    memo_bytes(recipient_memo(r.recipient)->Ok_0)
}

/// Turns funded recipients into outputs, each paid to its single receiver in
/// the pool of its mask, with its memo encoded.
fn build_outputs(outputs: &Vec<ExtendedRecipient>) -> (r: Result<Vec<TxOutput>, Error>)
    requires
        forall|i: int| 0 <= i < outputs@.len() ==> {
            let o = #[trigger] outputs@[i];
            &&& (o.pool_mask.0 == 1 || o.pool_mask.0 == 2 || o.pool_mask.0 == 4)
            &&& receiver_at(o.receivers, mask_to_pool(o.pool_mask.0).unwrap() as int) is Some
        },
    ensures
        match r {
            Ok(v) => {
                &&& v@.len() == outputs@.len()
                &&& forall|i: int| 0 <= i < outputs@.len() ==> recipient_memo((#[trigger] outputs@[i]).recipient) is Ok
                &&& forall|i: int| 0 <= i < outputs@.len() ==> paid_output(
                    #[trigger] v@[i],
                    outputs@[i],
                    mask_to_pool(outputs@[i].pool_mask.0).unwrap(),
                    recipient_memo_bytes(outputs@[i]),
                )
            },
            Err(e) => exists|i: int| #[trigger] memo_fails_at(outputs@, i, e),
        },
{
    let mut v: Vec<TxOutput> = Vec::new();
    let mut i: usize = 0;
    while i < outputs.len()
        invariant
            i <= outputs@.len(),
            v@.len() == i,
            forall|i: int| 0 <= i < outputs@.len() ==> {
                let o = #[trigger] outputs@[i];
                &&& (o.pool_mask.0 == 1 || o.pool_mask.0 == 2 || o.pool_mask.0 == 4)
                &&& receiver_at(o.receivers, mask_to_pool(o.pool_mask.0).unwrap() as int) is Some
            },
            forall|j: int| 0 <= j < i ==> recipient_memo((#[trigger] outputs@[j]).recipient) is Ok,
            forall|j: int| 0 <= j < i ==> paid_output(
                #[trigger] v@[j],
                outputs@[j],
                mask_to_pool(outputs@[j].pool_mask.0).unwrap(),
                recipient_memo_bytes(outputs@[j]),
            ),
        decreases outputs@.len() - i,
    {
        let n = &outputs[i];
        let pi = match n.recipient.normalize_memo() {
            Ok(pi) => pi,
            Err(e) => {
                proof {
                    assert(memo_fails_at(outputs@, i as int, Error::InvalidMemo(e)));
                }
                return Err(Error::InvalidMemo(e));
            },
        };
        let m = n.pool_mask.0;
        proof {
            assert(m == 1 || m == 2 || m == 4);
            assert(1u8 & 4 == 0 && 1u8 & 2 == 0 && 1u8 & 1 != 0) by (bit_vector);
            assert(2u8 & 4 == 0 && 2u8 & 2 != 0) by (bit_vector);
            assert(4u8 & 4 != 0) by (bit_vector);
        }
        let pool = n.pool_mask.to_pool().unwrap();
        let address = account_address(&n.receivers, pool);
        let memo = match pi.memo_bytes {
            Some(b) => b,
            None => Vec::new(),
        };
        v.push(TxOutput { address_string: address, pool, amount: pi.amount, memo, is_change: n.is_change });
        i = i + 1;
    }
    Ok(v)
}

impl PaymentBuilder {
    /// Copies the spent inputs of the three pools, in pool order.
    fn spent_notes(&self) -> (r: Vec<TxInput>)
        ensures
            r@ == spent_inputs(self.pools()[0]) + spent_inputs(self.pools()[1]) + spent_inputs(self.pools()[2]),
    {
        let mut notes: Vec<TxInput> = Vec::new();
        self.collect_spent(0, &mut notes);
        self.collect_spent(1, &mut notes);
        self.collect_spent(2, &mut notes);
        proof {
            assert(notes@ =~= Seq::<TxInput>::empty() + spent_inputs(self.pools()[0]) + spent_inputs(self.pools()[1]) + spent_inputs(self.pools()[2]));
        }
        notes
    }
}


/// Outputs that carry the recipients' amounts sum to the recipients' total.
pub proof fn lemma_outputs_total_eq(v: Seq<TxOutput>, o: Seq<ExtendedRecipient>)
    requires
        v.len() == o.len(),
        forall|i: int| 0 <= i < v.len() ==> (#[trigger] v[i]).amount == o[i].amount,
    ensures
        outputs_total(v) == seq_sum(o, |x: ExtendedRecipient| output_amount(x)),
    decreases v.len(),
{
    if v.len() > 0 {
        assert forall|i: int| 0 <= i < v.drop_last().len() implies (#[trigger] v.drop_last()[i]).amount == o.drop_last()[i].amount by {
            assert(v.drop_last()[i] == v[i]);
            assert(o.drop_last()[i] == o[i]);
        }
        lemma_outputs_total_eq(v.drop_last(), o.drop_last());
        assert(v[v.len() - 1].amount == o[o.len() - 1].amount);
    }
}

/// Sum of the amounts of the spent notes.
fn notes_sum(notes: &Vec<TxInput>) -> (r: u64)
    requires
        notes_total(notes@) <= 3 * MAX_MONEY,
        forall|i: int| 0 <= i < notes@.len() ==> 0 <= #[trigger] input_amount(notes@[i]),
    ensures
        r == notes_total(notes@),
{
    let mut t: u64 = 0;
    let mut i: usize = 0;
    while i < notes.len()
        invariant
            i <= notes@.len(),
            notes_total(notes@) <= 3 * MAX_MONEY,
            t == seq_sum(notes@.take(i as int), |n: TxInput| input_amount(n)),
        decreases notes@.len() - i,
    {
        proof {
            assert(notes@.take(i + 1).drop_last() =~= notes@.take(i as int));
            lemma_seq_sum_prefix_le(notes@, i + 1, |n: TxInput| input_amount(n));
        }
        t = t + notes[i].amount;
        i = i + 1;
    }
    proof {
        assert(notes@.take(notes@.len() as int) =~= notes@);
    }
    t
}

/// Sum of the amounts of the outputs.
fn outputs_sum(outs: &Vec<TxOutput>) -> (r: u64)
    requires
        outputs_total(outs@) <= MAX_MONEY,
    ensures
        r == outputs_total(outs@),
{
    let mut t: u64 = 0;
    let mut i: usize = 0;
    while i < outs.len()
        invariant
            i <= outs@.len(),
            outputs_total(outs@) <= MAX_MONEY,
            t == seq_sum(outs@.take(i as int), |o: TxOutput| tx_output_amount(o)),
        decreases outs@.len() - i,
    {
        proof {
            assert(outs@.take(i + 1).drop_last() =~= outs@.take(i as int));
            lemma_seq_sum_prefix_le(outs@, i + 1, |o: TxOutput| tx_output_amount(o));
        }
        t = t + outs[i].amount;
        i = i + 1;
    }
    proof {
        assert(outs@.take(outs@.len() as int) =~= outs@);
    }
    t
}

/// Whether the first outputs pay the recipients `rs`, in order, the
/// recipients that accept several pools being paid in `multi`.
pub open spec fn all_paid(outs: Seq<TxOutput>, rs: Seq<ExtendedRecipient>, multi: u8) -> bool {
    &&& multi == 1 || multi == 2
    &&& outs.len() >= rs.len()
    &&& forall|i: int| 0 <= i < rs.len() ==> paid_output(
        #[trigger] outs[i],
        rs[i],
        paid_pool(rs[i], multi),
        recipient_memo_bytes(rs[i]),
    )
}

/// The spent inputs of the three pools, in pool order.
pub open spec fn spent_of(pools: Seq<Seq<TxInput>>) -> Seq<TxInput> {
    spent_inputs(pools[0]) + spent_inputs(pools[1]) + spent_inputs(pools[2])
}

impl PaymentBuilder {
    /// Whether the builder is ready to plan: nothing planned yet, amounts
    /// within the supply, every recipient payable, and an account address
    /// for the change in every pool that has inputs.
    pub open spec fn ready(&self) -> bool {
        &&& self.fee == 0
        &&& self.fee_manager.num_inputs@ == seq![0u8, 0u8, 0u8]
        &&& self.fee_manager.num_outputs@ == seq![0u8, 0u8, 0u8]
        &&& self.used@ == seq![false, false, false]
        &&& forall|p: int| 0 <= p < 3 ==> seq_sum(#[trigger] self.pools()[p], |n: TxInput| input_amount(n)) <= MAX_MONEY
        &&& seq_sum(self.outputs@, |o: ExtendedRecipient| output_amount(o)) <= MAX_MONEY
        &&& forall|i: int| 0 <= i < self.outputs@.len() ==> recipient_ready(#[trigger] self.outputs@[i])
        &&& self.outputs@.len() + 1 <= 253
        &&& self.use_change ==> forall|p: int|
            0 <= p < 3 && self.pools()[p].len() > 0 ==> receiver_at(self.account_addresses, p) is Some
    }

    /// Plans the transaction: funds the recipients and the fee from the
    /// inputs, adds a change output when asked to, and returns the spent
    /// notes, the outputs and the change (negative when funds are short).
    #[verifier::rlimit(60)]
    pub fn prepare(&mut self) -> (r: Result<AdjustableUnsignedTransaction, Error>)
        requires
            old(self).outputs@.len() == 0 || old(self).ready(),
        ensures
            old(self).outputs@.len() == 0 ==> r == Err::<AdjustableUnsignedTransaction, Error>(Error::NoRecipient)
                && *final(self) == *old(self),
            old(self).outputs@.len() > 0 ==> final(self).outputs@.len() == 0,
            forall|p: int| 0 <= p < 3 ==> same_inputs(#[trigger] final(self).pools()[p], old(self).pools()[p]),
            old(self).outputs@.len() > 0 ==> forall|p: int| 0 <= p < 3 ==> #[trigger] final(self).fee_manager.num_inputs@[p] == spent_inputs(final(self).pools()[p]).len(),
            old(self).outputs@.len() > 0 ==> forall|p: int| 0 <= p < 3 ==> (#[trigger] final(self).used@[p] <==> spent_inputs(final(self).pools()[p]).len() > 0),
            old(self).outputs@.len() > 0 ==> final(self).fee_manager.spec_actions() <= 255,
            old(self).outputs@.len() > 0 ==> {
                let pl = prepare_plan(*old(self)).0;
                &&& final(self).pools() == pl.pools
                &&& final(self).used@ == pl.used
                &&& final(self).fee_manager.num_inputs@ == pl.ni
            },
            final(self).height == old(self).height,
            final(self).account == old(self).account,
            final(self).account_name == old(self).account_name,
            final(self).account_addresses == old(self).account_addresses,
            final(self).use_change == old(self).use_change,
            r is Ok <==> {
                &&& old(self).outputs@.len() > 0
                &&& (old(self).use_change ==> change_pool_of(final(self).used@) is Some)
                &&& forall|i: int| 0 <= i < old(self).outputs@.len() ==> recipient_memo((#[trigger] old(self).outputs@[i]).recipient) is Ok
            },
            match r {
                Ok(utx) => {
                    let n = old(self).outputs@.len();
                    let fee = final(self).fee_manager.spec_fee();
                    &&& utx.tx_notes@ == spent_of(final(self).pools())
                    &&& utx.balanced(fee)
                    &&& notes_total(utx.tx_notes@) <= 3 * MAX_MONEY
                    &&& 0 <= outputs_total(utx.tx_outputs@) <= MAX_MONEY
                    &&& fee <= MAX_FEE
                    &&& utx.sum_ins == notes_total(utx.tx_notes@)
                    &&& utx.sum_outs == outputs_total(utx.tx_outputs@) + fee
                    &&& utx.tx_outputs@.len() == n + (if old(self).use_change { 1int } else { 0int })
                    &&& sum3(final(self).fee_manager.num_outputs@) == utx.tx_outputs@.len()
                    &&& all_paid(utx.tx_outputs@, old(self).outputs@, prepare_plan(*old(self)).1)
                    &&& final(self).fee_manager.num_outputs@ == prepare_counts(*old(self))
                    &&& utx.change == prepare_change(*old(self))
                    &&& old(self).use_change ==> {
                        let cp = change_pool_of(final(self).used@)->0;
                        paid_output(
                            utx.tx_outputs@[n as int],
                            change_recipient(cp, receiver_at(old(self).account_addresses, cp as int)->0),
                            cp,
                            memo_bytes(MemoView::Empty),
                        )
                    }
                },
                Err(e) => {
                    ||| old(self).outputs@.len() == 0 && e == Error::NoRecipient
                    ||| old(self).use_change && change_pool_of(final(self).used@) is None && e == Error::NoFunds
                    ||| exists|i: int| #[trigger] memo_fails_at(old(self).outputs@, i, e)
                },
            },
    {
        if self.outputs.len() == 0 {
            return Err(Error::NoRecipient);
        }
        let ghost old_outputs = self.outputs@;
        let mut outputs = self.start_plan();
        proof {
            let p = old(self).pools();
            assert(self.plan_state(outputs@) == (PlanState {
                pools: seq![unspent_notes(p[0]), unspent_notes(p[1]), unspent_notes(p[2])],
                outputs: old(self).outputs@,
                fee: 0,
                ni: seq![0u8, 0u8, 0u8],
                used: seq![false, false, false],
                reserve: old(self).outputs@.len() + (if old(self).use_change { 1int } else { 0int }),
            }));
        }
        let ghost no_start = self.fee_manager.num_outputs@;
        let multi = self.plan_outputs(&mut outputs);
        let ghost counts0 = self.fee_manager.num_outputs@;
        proof {
            assert(no_start == seq![0u8, 0u8, 0u8]);
            assert(counts0 == outputs_counts(start_state(*old(self)), seq![0u8, 0u8, 0u8]));
        }
        let ghost planned = outputs@;
        let ghost used_before_change = self.used@;
        if self.use_change {
            proof {
                assert forall|p: int| 0 <= p < 3 && self.used@[p] implies receiver_at(self.account_addresses, p) is Some by {
                    lemma_touched_le_len(self.pools()[p]);
                    assert(self.pools()[p].len() == old(self).pools()[p].len());
                }
            }
            match self.add_change(&mut outputs) {
                Err(e) => {
                    proof {
                        assert forall|p: int| 0 <= p < 3 implies (#[trigger] self.used@[p] <==> spent_inputs(self.pools()[p]).len() > 0) by {
                            lemma_spent_len(self.pools()[p]);
                        }
                    }
                    return Err(e);
                },
                Ok(()) => {},
            }
        }
        proof {
            assert forall|p: int| 0 <= p < 3 implies (#[trigger] self.used@[p] <==> spent_inputs(self.pools()[p]).len() > 0) by {
                lemma_spent_len(self.pools()[p]);
            }
            assert forall|p: int| 0 <= p < 3 implies #[trigger] self.fee_manager.num_inputs@[p] == spent_inputs(self.pools()[p]).len() by {
                lemma_spent_len(self.pools()[p]);
            }
            assert(1u8 & 4 == 0 && 1u8 & 2 == 0 && 1u8 & 1 != 0) by (bit_vector);
            assert(2u8 & 4 == 0 && 2u8 & 2 != 0) by (bit_vector);
            assert(4u8 & 4 != 0) by (bit_vector);
            assert forall|i: int| 0 <= i < outputs@.len() implies {
                let o = #[trigger] outputs@[i];
                &&& (o.pool_mask.0 == 1 || o.pool_mask.0 == 2 || o.pool_mask.0 == 4)
                &&& receiver_at(o.receivers, mask_to_pool(o.pool_mask.0).unwrap() as int) is Some
            } by {
                if i < old_outputs.len() {
                    let o0 = old_outputs[i];
                    assert(recipient_ready(o0));
                    if is_single_pool(o0.pool_mask.0) {
                        lemma_single_mask(o0.pool_mask.0);
                    }
                    lemma_from_pool_single(paid_pool(o0, multi));
                }
            }
        }
        proof {
            lemma_plan_fee_bound(self.pools(), self.fee_manager, self.fee, self.used@, outputs@, self.reserve as int);
            assert forall|j: int| 0 <= j < old_outputs.len() implies (#[trigger] outputs@[j]).recipient == old_outputs[j].recipient by {
                assert(planned[j].recipient == old_outputs[j].recipient);
                if self.use_change {
                    assert(outputs@[j] == planned[j]);
                }
            }
        }
        let tx_notes = self.spent_notes();
        let tx_outputs = match build_outputs(&outputs) {
            Ok(v) => v,
            Err(e) => {
                proof {
                    let i = choose|i: int| #[trigger] memo_fails_at(outputs@, i, e);
                    if i >= old_outputs.len() {
                        assert(outputs@[i].recipient.memo is None);
                        assert(outputs@[i].recipient.memo_bytes is None);
                        assert(recipient_memo(outputs@[i].recipient) is Ok);
                    }
                    assert(i < old_outputs.len());
                    assert(recipient_memo(old_outputs[i].recipient) == recipient_memo(outputs@[i].recipient));
                    assert forall|j: int| 0 <= j < i implies recipient_memo((#[trigger] old_outputs[j]).recipient) is Ok by {
                        assert(recipient_memo(outputs@[j].recipient) is Ok);
                    }
                    assert(memo_fails_at(old_outputs, i, e));
                }
                return Err(e);
            },
        };
        proof {
            let ps = self.pools();
            lemma_spent_total(ps[0]);
            lemma_spent_total(ps[1]);
            lemma_spent_total(ps[2]);
            lemma_seq_sum_concat(spent_inputs(ps[0]), spent_inputs(ps[1]), |n: TxInput| input_amount(n));
            lemma_seq_sum_concat(spent_inputs(ps[0]) + spent_inputs(ps[1]), spent_inputs(ps[2]), |n: TxInput| input_amount(n));
            assert forall|i: int| 0 <= i < tx_notes@.len() implies 0 <= #[trigger] input_amount(tx_notes@[i]) by {}
            assert forall|i: int| 0 <= i < tx_outputs@.len() implies (#[trigger] tx_outputs@[i]).amount == outputs@[i].amount by {
                if i < old_outputs.len() {
                    assert(recipient_ready(old_outputs[i]));
                }
            }
            lemma_outputs_total_eq(tx_outputs@, outputs@);
            lemma_plan_fee_bound(self.pools(), self.fee_manager, self.fee, self.used@, outputs@, self.reserve as int);
        }
        let sum_ins = notes_sum(&tx_notes);
        let outs = outputs_sum(&tx_outputs);
        let fee = self.fee_manager.fee();
        let sum_outs = outs + fee;
        let change = (sum_ins as i64) - (sum_outs as i64);
        proof {
            assert forall|i: int| 0 <= i < old_outputs.len() implies paid_output(
                #[trigger] tx_outputs@[i],
                old_outputs[i],
                paid_pool(old_outputs[i], multi),
                recipient_memo_bytes(old_outputs[i]),
            ) by {
                let o0 = old_outputs[i];
                assert(recipient_ready(o0));
                lemma_from_pool_single(paid_pool(o0, multi));
            }
            assert(all_paid(tx_outputs@, old_outputs, multi));
            assert forall|i: int| 0 <= i < old_outputs.len() implies recipient_memo((#[trigger] old_outputs[i]).recipient) is Ok by {
                assert(recipient_memo(outputs@[i].recipient) is Ok);
            }
            if self.use_change {
                let n = old_outputs.len() as int;
                let cp = change_pool_of(self.used@)->0;
                lemma_from_pool_single(cp);
                assert(outputs@[n] == change_recipient(cp, receiver_at(old(self).account_addresses, cp as int)->0));
                assert(recipient_memo(outputs@[n].recipient) == Ok::<MemoView, MemoError>(MemoView::Empty));
                assert(paid_output(tx_outputs@[n], outputs@[n], mask_to_pool(outputs@[n].pool_mask.0).unwrap(), recipient_memo_bytes(outputs@[n])));
                assert(mask_to_pool(outputs@[n].pool_mask.0).unwrap() == cp);
            }
            assert(change == notes_total(tx_notes@) - outputs_total(tx_outputs@) - self.fee_manager.spec_fee());
            assert(tx_outputs@.len() == old_outputs.len() + (if self.use_change { 1int } else { 0int }));
            assert(sum3(self.fee_manager.num_outputs@) == tx_outputs@.len());
            lemma_seq_sum_bounds(tx_outputs@, |o: TxOutput| tx_output_amount(o), |o: TxOutput| tx_output_amount(o));
        }
        proof {
            assert(self.fee_manager.num_outputs@ == prepare_counts(*old(self)));
            lemma_paid_total(tx_outputs@, old_outputs, multi, self.use_change);
            assert(change == prepare_change(*old(self)));
        }
        Ok(AdjustableUnsignedTransaction { tx_notes, tx_outputs, sum_ins, sum_outs, change })
    }
}


impl AdjustableUnsignedTransaction {
    /// Moves `offset` from the first recipient to the change (a negative
    /// offset moves funds from the change to the first recipient).
    pub fn add_to_change(&mut self, offset: i64) -> (r: Result<(), Error>)
        requires
            offset > i64::MIN,
            old(self).tx_outputs@.len() > 0 && offset > 0 && offset <= old(self).tx_outputs@[0].amount
                ==> old(self).change + offset <= i64::MAX,
            old(self).tx_outputs@.len() > 0 && offset <= 0 ==> {
                &&& old(self).tx_outputs@[0].amount - offset <= u64::MAX
                &&& old(self).change + offset >= i64::MIN
            },
        ensures
            r is Ok <==> old(self).tx_outputs@.len() > 0 && (offset <= 0 || offset <= old(self).tx_outputs@[0].amount),
            old(self).tx_outputs@.len() == 0 ==> r == Err::<(), Error>(Error::NoRecipient),
            old(self).tx_outputs@.len() > 0 && offset > old(self).tx_outputs@[0].amount
                ==> r == Err::<(), Error>(Error::FeesTooHighForRecipient(offset as u64)),
            r is Err ==> final(self).tx_outputs@ == old(self).tx_outputs@ && final(self).change == old(self).change,
            r is Ok ==> {
                &&& final(self).tx_outputs@.len() == old(self).tx_outputs@.len()
                &&& final(self).tx_outputs@[0].amount == old(self).tx_outputs@[0].amount - offset
                &&& final(self).tx_outputs@[0].address_string == old(self).tx_outputs@[0].address_string
                &&& final(self).tx_outputs@[0].pool == old(self).tx_outputs@[0].pool
                &&& final(self).tx_outputs@[0].memo == old(self).tx_outputs@[0].memo
                &&& final(self).tx_outputs@[0].is_change == old(self).tx_outputs@[0].is_change
                &&& forall|i: int| 1 <= i < old(self).tx_outputs@.len() ==> #[trigger] final(self).tx_outputs@[i] == old(self).tx_outputs@[i]
                &&& final(self).change == old(self).change + offset
            },
            final(self).tx_notes == old(self).tx_notes,
            final(self).sum_ins == old(self).sum_ins,
            final(self).sum_outs == old(self).sum_outs,
            forall|fee: int| old(self).balanced(fee) ==> final(self).balanced(fee),
    {
        if self.tx_outputs.len() == 0 {
            return Err(Error::NoRecipient);
        }
        let ghost before = self.tx_outputs@;
        let amount = self.tx_outputs[0].amount;
        if offset > 0 {
            let o = offset as u64;
            if o > amount {
                return Err(Error::FeesTooHighForRecipient(o));
            }
            let payee = &mut self.tx_outputs[0];
            payee.amount = amount - o;
            self.change = self.change + o as i64;
        } else {
            let o = -offset;
            let payee = &mut self.tx_outputs[0];
            payee.amount = amount + o as u64;
            self.change = self.change - o;
        }
        proof {
            let f = |o: TxOutput| tx_output_amount(o);
            lemma_seq_sum_update(before, 0, self.tx_outputs@[0], f);
            assert(self.tx_outputs@ == before.update(0, self.tx_outputs@[0]));
        }
        Ok(())
    }
}

/// A transaction plan ready to be signed.
#[derive(Debug)]
pub struct UnsignedTransaction {
    pub account: u32,
    pub account_name: String,
    pub height: u32,
    pub tx_notes: Vec<TxInput>,
    pub tx_outputs: Vec<TxOutput>,
    pub roots: [crate::witness::Hash; 2],
    pub edges: [AuthPath; 2],
    pub fees: FeeManager,
    pub redirect: Option<String>,
}

/// Once the change is set in the last output (or is zero without change
/// output), the spent notes pay exactly for the outputs and the fee.
pub proof fn lemma_finalized_balance(notes: Seq<TxInput>, outs: Seq<TxOutput>, change: int, fee: int, last: TxOutput)
    requires
        change == notes_total(notes) - outputs_total(outs) - fee,
        outs.len() > 0,
        outs[outs.len() - 1].amount == 0,
        last.amount == change,
    ensures
        notes_total(notes) == outputs_total(outs.update(outs.len() - 1, last)) + fee,
{
    lemma_seq_sum_update(outs, outs.len() - 1, last, |o: TxOutput| tx_output_amount(o));
}

impl PaymentBuilder {
    /// Checks the change of a plan and sets it in the change output: the
    /// plan fails when funds are short, or when there is change but no
    /// change output.
    pub fn finalize(
        self,
        utx: AdjustableUnsignedTransaction,
        redirect: Option<String>,
        roots: [crate::witness::Hash; 2],
        edges: [AuthPath; 2],
    ) -> (r: Result<UnsignedTransaction, Error>)
        requires
            self.use_change ==> utx.tx_outputs@.len() > 0,
            utx.change > i64::MIN,
        ensures
            utx.change < 0 ==> r == Err::<UnsignedTransaction, Error>(Error::NotEnoughFunds((-utx.change) as u64)),
            utx.change >= 0 && !self.use_change && utx.change != 0 ==> r == Err::<UnsignedTransaction, Error>(Error::NoChangeOutput),
            r is Ok <==> utx.change >= 0 && (self.use_change || utx.change == 0),
            match r {
                Ok(u) => {
                    &&& u.account == self.account
                    &&& u.account_name == self.account_name
                    &&& u.height == self.height
                    &&& u.tx_notes == utx.tx_notes
                    &&& u.tx_outputs@ == (if self.use_change {
                        let l = utx.tx_outputs@.len() - 1;
                        utx.tx_outputs@.update(l, TxOutput { amount: utx.change as u64, ..utx.tx_outputs@[l] })
                    } else {
                        utx.tx_outputs@
                    })
                    &&& u.roots == roots
                    &&& u.edges == edges
                    &&& u.fees == self.fee_manager
                    &&& u.redirect == redirect
                    &&& (utx.balanced(self.fee_manager.spec_fee()) && (self.use_change ==> utx.tx_outputs@.last().amount == 0))
                        ==> notes_total(u.tx_notes@) == outputs_total(u.tx_outputs@) + u.fees.spec_fee()
                },
                Err(_) => true,
            },
    {
        let ghost utx0 = utx;
        let mut utx = utx;
        let change = utx.change;
        if change < 0 {
            return Err(Error::NotEnoughFunds((-change) as u64));
        }
        if self.use_change {
            let l = utx.tx_outputs.len() - 1;
            let ghost before = utx.tx_outputs@;
            let last = &mut utx.tx_outputs[l];
            last.amount = change as u64;
            proof {
                if utx0.balanced(self.fee_manager.spec_fee()) && before.last().amount == 0 {
                    lemma_finalized_balance(utx.tx_notes@, before, change as int, self.fee_manager.spec_fee(), utx.tx_outputs@[l as int]);
                    assert(utx.tx_outputs@ == before.update(l as int, utx.tx_outputs@[l as int]));
                }
            }
        } else if change != 0 {
            return Err(Error::NoChangeOutput);
        }
        Ok(UnsignedTransaction {
            account: self.account,
            account_name: self.account_name,
            height: self.height,
            tx_notes: utx.tx_notes,
            tx_outputs: utx.tx_outputs,
            roots,
            edges,
            fees: self.fee_manager,
            redirect,
        })
    }
}


/// Change below this amount is not worth an output: it is left to the fee.
pub const DUST: u64 = 54;

/// Whether an output goes into the transaction: all but change under `DUST`.
pub open spec fn output_built(o: TxOutput) -> bool {
    !(o.is_change && o.amount < DUST)
}

/// Whether a note is spent from the Orchard pool.
pub open spec fn orchard_note(n: TxInput) -> bool {
    n.note is Orchard
}

impl UnsignedTransaction {
    /// The positions, in order, of the outputs that the signed transaction
    /// holds: every output but change below `DUST`.
    pub fn built_outputs(&self) -> (r: Vec<usize>)
        ensures
            forall|k: int| 0 <= k < r@.len() ==> r@[k] < self.tx_outputs@.len(),
            forall|k: int, l: int| 0 <= k < l < r@.len() ==> r@[k] < r@[l],
            forall|i: int| 0 <= i < self.tx_outputs@.len() ==>
                (output_built(self.tx_outputs@[i]) <==> exists|k: int| 0 <= k < r@.len() && r@[k] == i),
    {
        let mut r: Vec<usize> = Vec::new();
        let mut i: usize = 0;
        while i < self.tx_outputs.len()
            invariant
                i <= self.tx_outputs@.len(),
                forall|k: int| 0 <= k < r@.len() ==> r@[k] < i,
                forall|k: int, l: int| 0 <= k < l < r@.len() ==> r@[k] < r@[l],
                forall|j: int| 0 <= j < i ==>
                    (output_built(self.tx_outputs@[j]) <==> exists|k: int| 0 <= k < r@.len() && r@[k] == j),
            decreases self.tx_outputs@.len() - i,
        {
            let o = &self.tx_outputs[i];
            if !(o.is_change && o.amount < DUST) {
                let ghost before = r@;
                r.push(i);
                proof {
                    assert forall|j: int| 0 <= j < i + 1 implies
                        (output_built(self.tx_outputs@[j]) <==> exists|k: int| 0 <= k < r@.len() && r@[k] == j) by {
                        if j < i {
                            if exists|k: int| 0 <= k < before.len() && before[k] == j {
                                let k = choose|k: int| 0 <= k < before.len() && before[k] == j;
                                assert(r@[k] == j);
                            }
                            if exists|k: int| 0 <= k < r@.len() && r@[k] == j {
                                let k = choose|k: int| 0 <= k < r@.len() && r@[k] == j;
                                assert(k < before.len());
                                assert(before[k] == j);
                            }
                        } else {
                            assert(r@[before.len() as int] == j);
                        }
                    }
                }
            } else {
                proof {
                    assert(forall|k: int| 0 <= k < r@.len() ==> r@[k] != i);
                }
            }
            i += 1;
        }
        r
    }

    /// Whether the transaction needs an Orchard bundle: a note is spent from,
    /// or an output paid to, the Orchard pool.
    pub fn has_orchard(&self) -> (r: bool)
        ensures
            r <==> (exists|i: int| 0 <= i < self.tx_notes@.len() && orchard_note(#[trigger] self.tx_notes@[i]))
                || (exists|i: int| 0 <= i < self.tx_outputs@.len() && (#[trigger] self.tx_outputs@[i]).pool == 2),
    {
        let mut i: usize = 0;
        while i < self.tx_notes.len()
            invariant
                i <= self.tx_notes@.len(),
                forall|j: int| 0 <= j < i ==> !orchard_note(#[trigger] self.tx_notes@[j]),
            decreases self.tx_notes@.len() - i,
        {
            if let InputNote::Orchard { .. } = &self.tx_notes[i].note {
                assert(orchard_note(self.tx_notes@[i as int]));
                return true;
            }
            i += 1;
        }
        let mut j: usize = 0;
        while j < self.tx_outputs.len()
            invariant
                j <= self.tx_outputs@.len(),
                forall|k: int| 0 <= k < self.tx_notes@.len() ==> !orchard_note(#[trigger] self.tx_notes@[k]),
                forall|k: int| 0 <= k < j ==> (#[trigger] self.tx_outputs@[k]).pool != 2,
            decreases self.tx_outputs@.len() - j,
        {
            if self.tx_outputs[j].pool == 2 {
                assert(self.tx_outputs@[j as int].pool == 2);
                return true;
            }
            j += 1;
        }
        false
    }
}

/// Why a planned transaction cannot be signed with the account's keys.
#[derive(Clone, Copy, Debug, PartialEq, Eq, Structural)]
pub enum BuildError {
    /// The account information is that of another account than the plan's.
    InvalidAccount,
    /// The account has no Sapling spending key.
    NoSecretKeys,
    /// No secret key is known for the address of the transparent input at
    /// this position.
    NoTransparentKey(usize),
    /// A note is spent from the Orchard pool of an account without one.
    NoOrchardAccount,
    /// The Orchard bundle must be signed, but the account has no Orchard
    /// spending key.
    NoOrchardKey,
}

/// Whether the address of a transparent input is among `known`.
pub open spec fn key_known(known: Seq<String>, address: String) -> bool {
    exists|k: int| 0 <= k < known.len() && known[k]@ == address@
}

/// Whether the input `n` can be signed: a transparent one whose address
/// has a known key, a Sapling one (the Sapling key is there), or an
/// Orchard one of an account with Orchard keys.
pub open spec fn input_signable(n: TxInput, known: Seq<String>, has_orchard_account: bool) -> bool {
    match n.note {
        InputNote::Transparent { address, .. } => key_known(known, address),
        InputNote::Sapling { .. } => true,
        InputNote::Orchard { .. } => has_orchard_account,
    }
}

/// The error of an input that cannot be signed.
pub open spec fn input_error(n: TxInput, i: int) -> BuildError {
    match n.note {
        InputNote::Transparent { .. } => BuildError::NoTransparentKey(i as usize),
        _ => BuildError::NoOrchardAccount,
    }
}

/// The addresses of a store of transparent secret keys.
pub open spec fn store_addresses(store: Seq<(String, [u8; 32])>) -> Seq<String> {
    store.map_values(|e: (String, [u8; 32])| e.0)
}

/// The key a store holds for `address`: the last one entered for it.
pub open spec fn store_key(store: Seq<(String, [u8; 32])>, address: Seq<char>) -> Option<[u8; 32]>
    decreases store.len(),
{
    if store.len() == 0 {
        None
    } else if store.last().0@ == address {
        Some(store.last().1)
    } else {
        store_key(store.drop_last(), address)
    }
}

/// A store holds a key for an address exactly when the address is among
/// its addresses.
pub proof fn lemma_store_key_known(store: Seq<(String, [u8; 32])>, address: String)
    ensures
        store_key(store, address@) is Some <==> key_known(store_addresses(store), address),
    decreases store.len(),
{
    let a = store_addresses(store);
    if store.len() > 0 {
        let d = store.drop_last();
        lemma_store_key_known(d, address);
        assert(store_addresses(d) =~= a.drop_last());
        if key_known(a, address) && store.last().0@ != address@ {
            let k = choose|k: int| 0 <= k < a.len() && a[k]@ == address@;
            assert(k < a.len() - 1);
            assert(a.drop_last()[k] == a[k]);
        }
        if key_known(store_addresses(d), address) {
            let k = choose|k: int| 0 <= k < a.len() - 1 && a.drop_last()[k]@ == address@;
            assert(a[k] == a.drop_last()[k]);
        }
        if store.last().0@ == address@ {
            assert(a[a.len() - 1]@ == address@);
        }
    }
}

/// The secret key that signs the input `n`: for a transparent one, the
/// key the store holds for its address; none for a shielded one.
pub open spec fn input_key(n: TxInput, store: Seq<(String, [u8; 32])>) -> Option<[u8; 32]> {
    match n.note {
        InputNote::Transparent { address, .. } => store_key(store, address@),
        _ => None,
    }
}

/// The store once the transparent keys of the account are entered: they
/// are entered where the account has a transparent part.
pub open spec fn filled_store(
    store: Seq<(String, [u8; 32])>,
    ai: crate::account::AccountInfo,
    account_keys: Seq<(String, [u8; 32])>,
) -> Seq<(String, [u8; 32])> {
    if ai.transparent is Some { store + account_keys } else { store }
}

/// What signing a plan takes: the secret key of each transparent input
/// (none for a shielded one), the positions of the outputs that are built
/// (a change below the dust limit is not), and whether there is an Orchard
/// bundle.
#[derive(Clone, Debug)]
pub struct SigningPlan {
    pub input_keys: Vec<Option<[u8; 32]>>,
    pub outputs: Vec<usize>,
    pub orchard: bool,
}

/// Whether every key that signing needs is there (the Sapling spending
/// key aside): the key of each input, and an Orchard spending key where
/// there is an Orchard bundle.
pub open spec fn keys_ready(t: UnsignedTransaction, ai: crate::account::AccountInfo, known: Seq<String>) -> bool {
    &&& forall|i: int| 0 <= i < t.tx_notes@.len() ==> input_signable(#[trigger] t.tx_notes@[i], known, ai.orchard is Some)
    &&& (t.has_orchard_spec() ==> (ai.orchard matches Some(oi) && oi.sk is Some))
}

/// Whether `e` is the first missing key: that of the first input that
/// cannot be signed, else the Orchard spending key.
pub open spec fn keys_error(t: UnsignedTransaction, ai: crate::account::AccountInfo, known: Seq<String>, e: BuildError) -> bool {
    let notes = t.tx_notes@;
    let has_oa = ai.orchard is Some;
    ||| (exists|i: int| 0 <= i < notes.len() && !input_signable(notes[i], known, has_oa)
        && e == input_error(notes[i], i)
        && forall|j: int| 0 <= j < i ==> input_signable(#[trigger] notes[j], known, has_oa))
    ||| (e == BuildError::NoOrchardKey
        && (forall|i: int| 0 <= i < notes.len() ==> input_signable(#[trigger] notes[i], known, has_oa))
        && t.has_orchard_spec() && !(ai.orchard matches Some(oi) && oi.sk is Some))
}

/// Whether the account has its Sapling spending key.
pub open spec fn has_sapling_sk(ai: crate::account::AccountInfo) -> bool {
    ai.sapling matches Some(si) && si.sk is Some
}

/// The key the store holds for `address`, the last one entered for it.
fn store_lookup(store: &Vec<(String, [u8; 32])>, address: &String) -> (r: Option<[u8; 32]>)
    ensures
        r == store_key(store@, address@),
{
    let mut k: usize = store.len();
    proof {
        assert(store@.take(k as int) =~= store@);
    }
    while k > 0
        invariant
            k <= store@.len(),
            store_key(store@, address@) == store_key(store@.take(k as int), address@),
        decreases k,
    {
        proof {
            assert(store@.take(k as int).last() == store@[k - 1]);
            assert(store@.take(k as int).drop_last() =~= store@.take(k - 1));
        }
        if store[k - 1].0 == *address {
            return Some(store[k - 1].1);
        }
        k -= 1;
    }
    None
}

impl UnsignedTransaction {
    /// Checks that the account `ai`, whose transparent secret keys are
    /// known for the addresses `known`, has every key that signing the
    /// transaction needs: its Sapling spending key, the key of each
    /// transparent input, Orchard keys for Orchard inputs, and an Orchard
    /// spending key where there is an Orchard bundle. The first missing
    /// one, in that order, is the error.
    pub fn check_keys(&self, ai: &crate::account::AccountInfo, known: &Vec<String>) -> (r: Result<(), BuildError>)
        ensures
            !has_sapling_sk(*ai) ==> r == Err::<(), BuildError>(BuildError::NoSecretKeys),
            has_sapling_sk(*ai) ==> match r {
                Ok(()) => keys_ready(*self, *ai, known@),
                Err(e) => keys_error(*self, *ai, known@, e),
            },
    {
        let has_sk = match &ai.sapling {
            Some(si) => si.sk.is_some(),
            None => false,
        };
        if !has_sk {
            return Err(BuildError::NoSecretKeys);
        }
        let has_oa = ai.orchard.is_some();
        let mut i: usize = 0;
        while i < self.tx_notes.len()
            invariant
                i <= self.tx_notes@.len(),
                has_oa == ai.orchard is Some,
                ai.sapling matches Some(si) && si.sk is Some,
                forall|j: int| 0 <= j < i ==> input_signable(#[trigger] self.tx_notes@[j], known@, has_oa),
            decreases self.tx_notes@.len() - i,
        {
            match &self.tx_notes[i].note {
                InputNote::Transparent { address, .. } => {
                    let mut k: usize = 0;
                    let mut found = false;
                    while k < known.len()
                        invariant
                            k <= known@.len(),
                            found ==> exists|m: int| 0 <= m < known@.len() && known@[m]@ == address@,
                            !found ==> forall|m: int| 0 <= m < k ==> known@[m]@ != address@,
                        decreases known@.len() - k,
                    {
                        if known[k] == *address {
                            found = true;
                        }
                        k += 1;
                    }
                    if !found {
                        assert(!input_signable(self.tx_notes@[i as int], known@, has_oa));
                        return Err(BuildError::NoTransparentKey(i));
                    }
                },
                InputNote::Sapling { .. } => {},
                InputNote::Orchard { .. } => {
                    if !has_oa {
                        assert(!input_signable(self.tx_notes@[i as int], known@, has_oa));
                        return Err(BuildError::NoOrchardAccount);
                    }
                },
            }
            i += 1;
        }
        if self.has_orchard() {
            let has_osk = match &ai.orchard {
                Some(oi) => oi.sk.is_some(),
                None => false,
            };
            if !has_osk {
                return Err(BuildError::NoOrchardKey);
            }
        }
        Ok(())
    }

    /// Decides how the transaction is signed. For the information of another
    /// account than the plan's, or without the Sapling spending key of the
    /// account, nothing is done. Otherwise the transparent secret
    /// keys of the account (`account_keys`) enter the store where the account
    /// has a transparent part, every key that signing needs is checked
    /// against the store (see `check_keys`), and the plan gives the key of
    /// each transparent input, the outputs that are built and whether there
    /// is an Orchard bundle.
    pub fn build(
        &self,
        ai: &crate::account::AccountInfo,
        tsk_store: &mut Vec<(String, [u8; 32])>,
        account_keys: &Vec<(String, [u8; 32])>,
    ) -> (r: Result<SigningPlan, BuildError>)
        ensures
            ai.account != self.account ==> r == Err::<SigningPlan, BuildError>(BuildError::InvalidAccount)
                && final(tsk_store)@ == old(tsk_store)@,
            ai.account == self.account && !has_sapling_sk(*ai) ==> r == Err::<SigningPlan, BuildError>(BuildError::NoSecretKeys)
                && final(tsk_store)@ == old(tsk_store)@,
            ai.account == self.account && has_sapling_sk(*ai) ==> final(tsk_store)@ == filled_store(old(tsk_store)@, *ai, account_keys@),
            ai.account == self.account && has_sapling_sk(*ai) ==> match r {
                Ok(plan) => {
                    let store = final(tsk_store)@;
                    let notes = self.tx_notes@;
                    &&& keys_ready(*self, *ai, store_addresses(store))
                    &&& plan.input_keys@ == Seq::new(notes.len(), |i: int| input_key(notes[i], store))
                    &&& forall|i: int| 0 <= i < notes.len() && (#[trigger] notes[i]).note is Transparent
                        ==> plan.input_keys@[i] is Some
                    &&& plan.orchard == self.has_orchard_spec()
                    &&& forall|k: int| 0 <= k < plan.outputs@.len() ==> plan.outputs@[k] < self.tx_outputs@.len()
                    &&& forall|k: int, l: int| 0 <= k < l < plan.outputs@.len() ==> plan.outputs@[k] < plan.outputs@[l]
                    &&& forall|i: int| 0 <= i < self.tx_outputs@.len() ==>
                        (output_built(self.tx_outputs@[i]) <==> exists|k: int| 0 <= k < plan.outputs@.len() && plan.outputs@[k] == i)
                },
                Err(e) => keys_error(*self, *ai, store_addresses(final(tsk_store)@), e),
            },
    {
        if ai.account != self.account {
            return Err(BuildError::InvalidAccount);
        }
        let has_sk = match &ai.sapling {
            Some(si) => si.sk.is_some(),
            None => false,
        };
        if !has_sk {
            return Err(BuildError::NoSecretKeys);
        }
        if ai.transparent.is_some() {
            let ghost start = tsk_store@;
            let mut k: usize = 0;
            while k < account_keys.len()
                invariant
                    k <= account_keys@.len(),
                    tsk_store@ == start + account_keys@.take(k as int),
                decreases account_keys@.len() - k,
            {
                let e = (account_keys[k].0.clone(), account_keys[k].1);
                tsk_store.push(e);
                proof {
                    assert(account_keys@.take(k + 1) =~= account_keys@.take(k as int).push(account_keys@[k as int]));
                }
                k += 1;
            }
            proof {
                assert(account_keys@.take(account_keys@.len() as int) =~= account_keys@);
            }
        }
        let mut known: Vec<String> = Vec::new();
        let mut k: usize = 0;
        while k < tsk_store.len()
            invariant
                k <= tsk_store@.len(),
                known@ == store_addresses(tsk_store@.take(k as int)),
            decreases tsk_store@.len() - k,
        {
            known.push(tsk_store[k].0.clone());
            proof {
                assert(store_addresses(tsk_store@.take(k + 1)) =~= store_addresses(tsk_store@.take(k as int)).push(tsk_store@[k as int].0));
            }
            k += 1;
        }
        proof {
            assert(tsk_store@.take(tsk_store@.len() as int) =~= tsk_store@);
        }
        match self.check_keys(ai, &known) {
            Err(e) => {
                return Err(e);
            },
            Ok(()) => {},
        }
        let mut input_keys: Vec<Option<[u8; 32]>> = Vec::new();
        let mut i: usize = 0;
        while i < self.tx_notes.len()
            invariant
                i <= self.tx_notes@.len(),
                keys_ready(*self, *ai, store_addresses(tsk_store@)),
                input_keys@ == Seq::new(i as nat, |j: int| input_key(self.tx_notes@[j], tsk_store@)),
            decreases self.tx_notes@.len() - i,
        {
            let key = match &self.tx_notes[i].note {
                InputNote::Transparent { address, .. } => store_lookup(tsk_store, address),
                _ => None,
            };
            input_keys.push(key);
            proof {
                assert(input_keys@ =~= Seq::new((i + 1) as nat, |j: int| input_key(self.tx_notes@[j], tsk_store@)));
            }
            i += 1;
        }
        proof {
            assert forall|i: int| 0 <= i < self.tx_notes@.len() && (#[trigger] self.tx_notes@[i]).note is Transparent
                implies input_keys@[i] is Some by {
                match self.tx_notes@[i].note {
                    InputNote::Transparent { address, .. } => {
                        assert(input_signable(self.tx_notes@[i], store_addresses(tsk_store@), ai.orchard is Some));
                        lemma_store_key_known(tsk_store@, address);
                        assert(input_keys@[i] == input_key(self.tx_notes@[i], tsk_store@));
                    },
                    _ => {},
                }
            }
        }
        let outputs = self.built_outputs();
        let orchard = self.has_orchard();
        let plan = SigningPlan { input_keys, outputs, orchard };
        assert forall|i: int| 0 <= i < self.tx_outputs@.len() implies
            (output_built(self.tx_outputs@[i]) <==> exists|k: int| 0 <= k < plan.outputs@.len() && plan.outputs@[k] == i) by {
            if output_built(self.tx_outputs@[i]) {
                let k = choose|k: int| 0 <= k < outputs@.len() && outputs@[k] == i;
                assert(plan.outputs@[k] == i);
            }
        }
        Ok(plan)
    }

    /// Whether the transaction needs an Orchard bundle (see `has_orchard`).
    pub open spec fn has_orchard_spec(&self) -> bool {
        (exists|i: int| 0 <= i < self.tx_notes@.len() && orchard_note(#[trigger] self.tx_notes@[i]))
            || (exists|i: int| 0 <= i < self.tx_outputs@.len() && (#[trigger] self.tx_outputs@[i]).pool == 2)
    }
}

/// Plans a payment with a ready builder: prepares the plan, lets the first
/// recipient pay the fee unless the sender pays it, and finalizes the plan.
pub fn make_payment(
    pb: PaymentBuilder,
    sender_pay_fees: bool,
    redirect: Option<String>,
    roots: [crate::witness::Hash; 2],
    edges: [AuthPath; 2],
) -> (r: Result<UnsignedTransaction, Error>)
    requires
        pb.outputs@.len() == 0 || pb.ready(),
    ensures
        pb.outputs@.len() == 0 ==> r == Err::<UnsignedTransaction, Error>(Error::NoRecipient),
        !prepare_ok(pb) ==> (r matches Err(e) && {
            ||| pb.outputs@.len() == 0 && e == Error::NoRecipient
            ||| pb.use_change && change_pool_of(prepare_plan(pb).0.used) is None && e == Error::NoFunds
            ||| exists|i: int| #[trigger] memo_fails_at(pb.outputs@, i, e)
        }),
        ({
            let fee = prepare_fee(pb);
            let fees_ok = sender_pay_fees || fee <= pb.outputs@[0].recipient.amount;
            let change = prepare_change(pb) + (if sender_pay_fees { 0int } else { fee });
            &&& r is Ok <==> prepare_ok(pb) && fees_ok && change >= 0 && (pb.use_change || change == 0)
            &&& prepare_ok(pb) && !fees_ok ==> r == Err::<UnsignedTransaction, Error>(Error::FeesTooHighForRecipient(fee as u64))
            &&& prepare_ok(pb) && fees_ok && change < 0 ==> r == Err::<UnsignedTransaction, Error>(Error::NotEnoughFunds((-change) as u64))
            &&& prepare_ok(pb) && fees_ok && change > 0 && !pb.use_change ==> r == Err::<UnsignedTransaction, Error>(Error::NoChangeOutput)
            &&& r matches Ok(u) ==> {
                let n = pb.outputs@.len() as int;
                let pl = prepare_plan(pb);
                &&& u.tx_notes@ == spent_of(pl.0.pools)
                &&& u.fees.num_inputs@ == pl.0.ni
                &&& u.fees.num_outputs@ == prepare_counts(pb)
                &&& u.tx_outputs@.len() == n + (if pb.use_change { 1int } else { 0int })
                &&& all_paid(u.tx_outputs@.update(0, (TxOutput { amount: pb.outputs@[0].recipient.amount, ..u.tx_outputs@[0] })), pb.outputs@, pl.1)
                &&& u.tx_outputs@[0].amount == pb.outputs@[0].recipient.amount - (if sender_pay_fees { 0int } else { fee })
                &&& pb.use_change ==> u.tx_outputs@[n].amount == change && u.tx_outputs@[n].is_change
                &&& notes_total(u.tx_notes@) == outputs_total(u.tx_outputs@) + u.fees.spec_fee()
                &&& u.account == pb.account
                &&& u.height == pb.height
                &&& u.redirect == redirect
            }
        }),
{
    let mut pb = pb;
    let mut utx = match pb.prepare() {
        Ok(u) => u,
        Err(e) => {
            return Err(e);
        },
    };
    let ghost fee = pb.fee_manager.spec_fee();
    if !sender_pay_fees {
        let f = pb.fee_manager.fee();
        match utx.add_to_change(f as i64) {
            Ok(()) => {},
            Err(e) => {
                return Err(e);
            },
        }
    }
    proof {
        if pb.use_change {
            assert(utx.tx_outputs@.len() > 0);
        }
    }
    pb.finalize(utx, redirect, roots, edges)
}


/// An unspent transparent output of the account.
#[derive(Debug)]
pub struct UTXO {
    pub is_new: bool,
    pub id: u32,
    pub account: u32,
    pub external: u32,
    pub addr_index: u32,
    pub height: u32,
    pub timestamp: u32,
    pub txid: crate::witness::Hash,
    pub vout: u32,
    pub address: String,
    pub value: u64,
}

/// A shielded note received by the account.
#[derive(Debug)]
pub struct ReceivedNote {
    pub id: u32,
    pub account: u32,
    pub position: u32,
    pub height: u32,
    pub vout: u32,
    pub address: [u8; 43],
    pub value: u64,
    pub rcm: crate::witness::Hash,
    pub nf: crate::witness::Hash,
    pub rho: Option<crate::witness::Hash>,
    pub spent: Option<u32>,
    pub witness: Witness,
}

impl TxInput {
    /// The input that spends a transparent output.
    pub fn from_utxo(utxo: &UTXO) -> (r: TxInput)
        ensures
            r.id == utxo.id,
            r.amount == utxo.value,
            r.remaining == utxo.value,
            r.pool == 0,
            r.note == (InputNote::Transparent {
                txid: utxo.txid,
                vout: utxo.vout,
                external: utxo.external,
                addr_index: utxo.addr_index,
                address: utxo.address,
            }),
    {
        TxInput {
            id: utxo.id,
            amount: utxo.value,
            remaining: utxo.value,
            pool: 0,
            note: InputNote::Transparent {
                txid: utxo.txid,
                vout: utxo.vout,
                external: utxo.external,
                addr_index: utxo.addr_index,
                address: utxo.address.clone(),
            },
        }
    }

    /// The input that spends a Sapling note.
    pub fn from_sapling(note: &ReceivedNote) -> (r: TxInput)
        ensures
            r.id == note.id,
            r.amount == note.value,
            r.remaining == note.value,
            r.pool == 1,
            r.note == (InputNote::Sapling { address: note.address, rseed: note.rcm, witness: note.witness }),
    {
        TxInput {
            id: note.id,
            amount: note.value,
            remaining: note.value,
            pool: 1,
            note: InputNote::Sapling { address: note.address, rseed: note.rcm, witness: note.witness },
        }
    }

    /// The input that spends an Orchard note.
    pub fn from_orchard(note: &ReceivedNote) -> (r: TxInput)
        requires
            note.rho is Some,
        ensures
            r.id == note.id,
            r.amount == note.value,
            r.remaining == note.value,
            r.pool == 2,
            r.note == (InputNote::Orchard {
                address: note.address,
                rseed: note.rcm,
                rho: note.rho->0,
                witness: note.witness,
            }),
    {
        let rho = match note.rho {
            Some(r) => r,
            None => [0u8; 32],
        };
        TxInput {
            id: note.id,
            amount: note.value,
            remaining: note.value,
            pool: 2,
            note: InputNote::Orchard { address: note.address, rseed: note.rcm, rho, witness: note.witness },
        }
    }
}

/// Mask of the pools in which decoded receivers exist.
pub open spec fn receivers_mask(r: UAReceiversT) -> u8 {
    (if r.transparent is Some { 1u8 } else { 0u8 }) | (if r.sapling is Some { 2u8 } else { 0u8 }) | (
    if r.orchard is Some { 4u8 } else { 0u8 })
}

/// The pools a recipient may be paid in: those its address has and it
/// accepts, keeping transparent only when it is the sole choice.
pub open spec fn recipient_pools(r: UAReceiversT, accepted: u8) -> u8 {
    let pools = receivers_mask(r) & accepted;
    if pools != 1 { pools & 6 } else { pools }
}

impl ExtendedRecipient {
    /// The recipient itself.
    pub fn to_inner(self) -> (r: RecipientT)
        ensures
            r == self.recipient,
    {
        self.recipient
    }

    /// The planning state of a recipient whose address decodes to
    /// `decoded`: its amount is still to be funded, in the pools that its
    /// address has and that it accepts (transparent only when it is the
    /// sole choice). A TEX address is paid as itself.
    pub fn with_receivers(recipient: RecipientT, decoded: UAReceiversT) -> (r: ExtendedRecipient)
        requires
            recipient.address is Some,
        ensures
            r.pool_mask.0 == recipient_pools(decoded, recipient.pools),
            r.amount == recipient.amount,
            r.remaining == recipient.amount,
            !r.is_change,
            r.recipient == recipient,
            r.receivers.transparent == (if decoded.tex { recipient.address } else { decoded.transparent }),
            r.receivers.sapling == decoded.sapling,
            r.receivers.orchard == decoded.orchard,
            r.receivers.tex == decoded.tex,
    {
        let t: u8 = if decoded.transparent.is_some() { 1 } else { 0 };
        let s: u8 = if decoded.sapling.is_some() { 2 } else { 0 };
        let o: u8 = if decoded.orchard.is_some() { 4 } else { 0 };
        let pools = (t | s | o) & recipient.pools;
        let pools = if pools != 1 { pools & 6 } else { pools };
        let transparent = if decoded.tex {
            match &recipient.address {
                Some(a) => Some(a.clone()),
                None => None,
            }
        } else {
            decoded.transparent
        };
        let amount = recipient.amount;
        ExtendedRecipient {
            recipient,
            amount,
            remaining: amount,
            pool_mask: PoolMask(pools),
            is_change: false,
            receivers: UAReceiversT { tex: decoded.tex, transparent, sapling: decoded.sapling, orchard: decoded.orchard },
        }
    }

    /// The planning state of a recipient (see `with_receivers`), its
    /// address decoded on the chain.
    pub fn to_extended(network: Network, recipient: RecipientT) -> (r: Result<ExtendedRecipient, AddressError>)
        requires
            recipient.address is Some,
        ensures
            match decoded_address(network == Network::Main, recipient.address->0@) {
                Some(a) => r matches Ok(x) && exists|d: UAReceiversT| #[trigger] receivers_text_of(network, a, d) && {
                    &&& x.pool_mask.0 == recipient_pools(d, recipient.pools)
                    &&& x.amount == recipient.amount
                    &&& x.remaining == recipient.amount
                    &&& !x.is_change
                    &&& x.recipient == recipient
                    &&& x.receivers.transparent == (if d.tex { recipient.address } else { d.transparent })
                    &&& x.receivers.sapling == d.sapling
                    &&& x.receivers.orchard == d.orchard
                    &&& x.receivers.tex == d.tex
                },
                None => r == Err::<ExtendedRecipient, AddressError>(AddressError::InvalidAddress),
            },
    {
        let decoded = match &recipient.address {
            Some(a) => decode_address(network, a.as_str()),
            None => Err(AddressError::InvalidAddress),
        };
        match decoded {
            Ok(d) => Ok(ExtendedRecipient::with_receivers(recipient, d)),
            Err(e) => Err(e),
        }
    }
}

/// A recipient built by `with_receivers` can be planned, unless no pool is
/// left for it and its address lacks a shielded receiver.
pub proof fn lemma_extended_ready(r: ExtendedRecipient, decoded: UAReceiversT, accepted: u8)
    requires
        r.pool_mask.0 == recipient_pools(decoded, accepted),
        r.remaining == r.amount,
        r.recipient.amount == r.amount,
        !r.is_change,
        r.receivers.transparent is Some <==> decoded.transparent is Some,
        r.receivers.sapling == decoded.sapling,
        r.receivers.orchard == decoded.orchard,
        r.pool_mask.0 != 0 || (decoded.sapling is Some && decoded.orchard is Some),
    ensures
        recipient_ready(r),
{
    let t: u8 = if decoded.transparent is Some { 1u8 } else { 0u8 };
    let s: u8 = if decoded.sapling is Some { 2u8 } else { 0u8 };
    let o: u8 = if decoded.orchard is Some { 4u8 } else { 0u8 };
    let m = r.pool_mask.0;
    assert((t == 0 || t == 1) && (s == 0 || s == 2) && (o == 0 || o == 4) ==> {
        let p = (t | s | o) & accepted;
        let m2 = if p != 1 { p & 6 } else { p };
        &&& m2 < 8
        &&& (m2 == 1 || m2 == 2 || m2 == 4 || m2 == 0 || m2 == 6)
        &&& (m2 == 1 ==> t == 1)
        &&& (m2 == 2 ==> s == 2)
        &&& (m2 == 4 ==> o == 4)
        &&& (m2 == 6 ==> s == 2 && o == 4)
    }) by (bit_vector);
    assert(1u8 & 4 == 0 && 1u8 & 2 == 0 && 1u8 & 1 != 0 && 1u8 & 7 != 0) by (bit_vector);
    assert(2u8 & 4 == 0 && 2u8 & 2 != 0 && 2u8 & 7 != 0) by (bit_vector);
    assert(4u8 & 4 != 0 && 4u8 & 7 != 0) by (bit_vector);
}


/// Whether a recipient has a TEX address.
pub open spec fn outputs_have_tex(outputs: Seq<ExtendedRecipient>) -> bool {
    exists|i: int| 0 <= i < outputs.len() && (#[trigger] outputs[i]).receivers.tex
}

/// Pools whose keys an account has: all three for an account made from a
/// seed, else those of its viewing keys.
pub open spec fn key_pools(seed: bool, tvk: bool, svk: bool, ovk: bool) -> u8 {
    if seed {
        7u8
    } else {
        (if tvk { 1u8 } else { 0u8 }) | (if svk { 2u8 } else { 0u8 }) | (if ovk { 4u8 } else { 0u8 })
    }
}

impl PaymentBuilder {
    /// A builder for paying `outputs` from the account, with no funds yet.
    pub fn new(
        height: u32,
        account: u32,
        account_name: String,
        account_addresses: UAReceiversT,
        outputs: Vec<ExtendedRecipient>,
        src_pools: PoolMask,
    ) -> (r: PaymentBuilder)
        ensures
            r.height == height,
            r.account == account,
            r.account_name == account_name,
            r.account_addresses == account_addresses,
            r.outputs == outputs,
            r.src_pools == src_pools,
            r.account_pools.0 == 0,
            r.fee == 0,
            r.fee_manager.num_inputs@ == seq![0u8, 0u8, 0u8],
            r.fee_manager.num_outputs@ == seq![0u8, 0u8, 0u8],
            r.used@ == seq![false, false, false],
            r.available@ == seq![0u64, 0u64, 0u64],
            r.use_change,
            forall|p: int| 0 <= p < 3 ==> (#[trigger] r.pools()[p]).len() == 0,
    {
        let r = PaymentBuilder {
            height,
            account,
            account_name,
            account_addresses,
            inputs: [Vec::new(), Vec::new(), Vec::new()],
            outputs,
            account_pools: PoolMask(0),
            src_pools,
            fee_manager: FeeManager::new(),
            fee: 0,
            available: [0u64; 3],
            used: [false; 3],
            use_change: true,
            reserve: 0,
        };
        proof {
            assert(r.used@ =~= seq![false, false, false]);
            assert(r.available@ =~= seq![0u64, 0u64, 0u64]);
        }
        r
    }

    /// Whether the plan gets a change output.
    pub fn set_use_change(&mut self, use_change: bool) -> (r: Result<(), Error>)
        ensures
            r is Ok,
            *final(self) == (PaymentBuilder { use_change, ..*old(self) }),
    {
        self.use_change = use_change;
        Ok(())
    }

    /// Appends inputs to the candidates of `pool`.
    fn append_inputs(&mut self, pool: usize, inputs: Vec<TxInput>)
        requires
            pool < 3,
        ensures
            final(self).pools() == old(self).pools().update(pool as int, old(self).pools()[pool as int] + inputs@),
            final(self).outputs == old(self).outputs,
            final(self).use_change == old(self).use_change,
            final(self).fee == old(self).fee,
            final(self).fee_manager == old(self).fee_manager,
            final(self).used == old(self).used,
            final(self).account_pools == old(self).account_pools,
            final(self).src_pools == old(self).src_pools,
            final(self).account_addresses == old(self).account_addresses,
    {
        let ghost added = inputs@;
        let mut inputs = inputs;
        let mut v: Vec<TxInput> = Vec::new();
        std::mem::swap(&mut v, &mut self.inputs[pool]);
        v.append(&mut inputs);
        std::mem::swap(&mut v, &mut self.inputs[pool]);
        proof {
            assert(self.pools() =~= old(self).pools().update(pool as int, old(self).pools()[pool as int] + added));
        }
    }

    /// Adds transparent outputs as candidate inputs.
    pub fn add_utxos(&mut self, utxos: &Vec<UTXO>) -> (r: Result<(), Error>)
        ensures
            r is Ok,
            final(self).pools()[0].len() == old(self).pools()[0].len() + utxos@.len(),
            forall|i: int| 0 <= i < old(self).pools()[0].len() ==> #[trigger] final(self).pools()[0][i] == old(self).pools()[0][i],
            forall|i: int| 0 <= i < utxos@.len() ==> {
                let n = #[trigger] final(self).pools()[0][old(self).pools()[0].len() + i];
                n.amount == utxos@[i].value && n.remaining == utxos@[i].value && n.pool == 0 && n.id == utxos@[i].id
            },
            final(self).pools()[1] == old(self).pools()[1],
            final(self).pools()[2] == old(self).pools()[2],
            final(self).outputs == old(self).outputs,
    {
        let mut v: Vec<TxInput> = Vec::new();
        let mut i: usize = 0;
        while i < utxos.len()
            invariant
                i <= utxos@.len(),
                v@.len() == i,
                forall|k: int| 0 <= k < i ==> {
                    let n = #[trigger] v@[k];
                    n.amount == utxos@[k].value && n.remaining == utxos@[k].value && n.pool == 0 && n.id == utxos@[k].id
                },
            decreases utxos@.len() - i,
        {
            v.push(TxInput::from_utxo(&utxos[i]));
            i = i + 1;
        }
        self.append_inputs(0, v);
        Ok(())
    }

    /// Whether a recipient has a TEX address.
    pub fn has_tex(&self) -> (r: bool)
        ensures
            r == outputs_have_tex(self.outputs@),
    {
        let mut i: usize = 0;
        while i < self.outputs.len()
            invariant
                i <= self.outputs@.len(),
                forall|k: int| 0 <= k < i ==> !(#[trigger] self.outputs@[k]).receivers.tex,
            decreases self.outputs@.len() - i,
        {
            if self.outputs[i].receivers.tex {
                return true;
            }
            i = i + 1;
        }
        false
    }

    /// Records the pools the account may spend from (its key pools within
    /// the source pools) and adds the candidate inputs of those pools; no
    /// shielded input is used when a recipient has a TEX address.
    pub fn add_account_funds(
        &mut self,
        key_pools: u8,
        transparent: Vec<TxInput>,
        sapling: Vec<TxInput>,
        orchard: Vec<TxInput>,
    ) -> (r: Result<(), Error>)
        ensures
            r is Ok,
            final(self).account_pools.0 == key_pools & old(self).src_pools.0,
            final(self).pools()[0] == old(self).pools()[0] + (if final(self).account_pools.0 & 1 != 0 { transparent@ } else { seq![] }),
            final(self).pools()[1] == old(self).pools()[1] + (if final(self).account_pools.0 & 2 != 0 && !outputs_have_tex(old(self).outputs@) { sapling@ } else { seq![] }),
            final(self).pools()[2] == old(self).pools()[2] + (if final(self).account_pools.0 & 4 != 0 && !outputs_have_tex(old(self).outputs@) { orchard@ } else { seq![] }),
            final(self).outputs == old(self).outputs,
            final(self).use_change == old(self).use_change,
            final(self).fee == old(self).fee,
            final(self).fee_manager == old(self).fee_manager,
            final(self).used == old(self).used,
            final(self).src_pools == old(self).src_pools,
    {
        let has_tex = self.has_tex();
        let account_pools = key_pools & self.src_pools.0;
        self.account_pools = PoolMask(account_pools);
        if account_pools & 1 != 0 {
            self.append_inputs(0, transparent);
        }
        if account_pools & 2 != 0 && !has_tex {
            self.append_inputs(1, sapling);
        }
        if account_pools & 4 != 0 && !has_tex {
            self.append_inputs(2, orchard);
        }
        proof {
            assert(self.pools()[0] =~= old(self).pools()[0] + (if account_pools & 1 != 0 { transparent@ } else { seq![] }));
            assert(self.pools()[1] =~= old(self).pools()[1] + (if account_pools & 2 != 0 && !has_tex { sapling@ } else { seq![] }));
            assert(self.pools()[2] =~= old(self).pools()[2] + (if account_pools & 4 != 0 && !has_tex { orchard@ } else { seq![] }));
        }
        Ok(())
    }
}

/// The pools whose keys an account has.
pub fn account_key_pools(seed: bool, tvk: bool, svk: bool, ovk: bool) -> (r: u8)
    ensures
        r == key_pools(seed, tvk, svk, ovk),
{
    if seed {
        7
    } else {
        let mut pools: u8 = 0;
        if tvk {
            pools = pools | 1;
        }
        if svk {
            pools = pools | 2;
        }
        if ovk {
            pools = pools | 4;
        }
        proof {
            assert(((0u8 | 1u8) | 2u8) | 4u8 == (1u8 | 2u8) | 4u8) by (bit_vector);
            assert(0u8 | 1u8 == 1u8 && 0u8 | 2u8 == 2u8 && 0u8 | 4u8 == 4u8) by (bit_vector);
            assert((0u8 | 1u8) | 2u8 == 1u8 | 2u8) by (bit_vector);
            assert((0u8 | 1u8) | 4u8 == (1u8 | 0u8) | 4u8) by (bit_vector);
            assert((0u8 | 2u8) | 4u8 == (0u8 | 2u8) | 4u8) by (bit_vector);
            assert(1u8 | 0u8 == 1u8 && (1u8 | 0u8) | 0u8 == 1u8 && (0u8 | 2u8) | 0u8 == 2u8) by (bit_vector);
            assert(((1u8 | 2u8) | 0u8) == (1u8 | 2u8)) by (bit_vector);
            assert(((0u8 | 0u8) | 4u8) == 4u8 && (0u8 | 0u8) | 0u8 == 0u8) by (bit_vector);
            assert(((1u8 | 0u8) | 4u8) == (1u8 | 4u8)) by (bit_vector);
        }
        pools
    }
}


/// The pool of the note an input spends.
pub open spec fn note_pool(n: TxInput) -> int {
    match n.note {
        InputNote::Transparent { .. } => 0,
        InputNote::Sapling { .. } => 1,
        InputNote::Orchard { .. } => 2,
    }
}

/// Amount of an input if it spends a note of pool `p`.
pub open spec fn input_in_pool(n: TxInput, p: int) -> int {
    if note_pool(n) == p { n.amount as int } else { 0 }
}

/// Amount of an output if it is paid in pool `p` (pools past Sapling count
/// as Orchard).
pub open spec fn output_in_pool(o: TxOutput, p: int) -> int {
    let q = if o.pool == 0 { 0int } else if o.pool == 1 { 1int } else { 2int };
    if q == p { o.amount as int } else { 0 }
}

/// What the spent notes of pool `p` amount to.
pub open spec fn pool_in(notes: Seq<TxInput>, p: int) -> int {
    seq_sum(notes, |n: TxInput| input_in_pool(n, p))
}

/// What the outputs of pool `p` amount to.
pub open spec fn pool_out(outs: Seq<TxOutput>, p: int) -> int {
    seq_sum(outs, |o: TxOutput| output_in_pool(o, p))
}

/// Absolute value.
pub open spec fn abs_int(x: int) -> int {
    if x < 0 { -x } else { x }
}

/// How private a transaction is: 0 when it has transparent inputs and
/// outputs, 1 when it has either, 2 when value crosses between pools by more
/// than the fee, 3 when it is fully shielded.
pub open spec fn privacy_level(fees: FeeManager, net_s: int, net_o: int, fee: int) -> u8 {
    if fees.num_inputs@[0] != 0 && fees.num_outputs@[0] != 0 {
        0
    } else if fees.num_inputs@[0] != 0 || fees.num_outputs@[0] != 0 {
        1
    } else if abs_int(net_s) > fee || abs_int(net_o) > fee {
        2
    } else {
        3
    }
}

/// The privacy level of a transaction: 0 with transparent inputs and
/// outputs, 1 with either; without any, 3 where neither shielded pool's net
/// value goes beyond the fee either way, else 2 (value crosses pools).
pub proof fn lemma_privacy_level(fees: FeeManager, net_s: int, net_o: int, fee: int)
    ensures
        ({
            let l = privacy_level(fees, net_s, net_o, fee);
            let ti = fees.num_inputs@[0] != 0;
            let to = fees.num_outputs@[0] != 0;
            &&& (ti && to ==> l == 0)
            &&& (ti != to ==> l == 1)
            &&& (!ti && !to ==> (l == 3 <==> (-fee <= net_s <= fee && -fee <= net_o <= fee)))
            &&& (!ti && !to ==> (l == 2 <==> !(-fee <= net_s <= fee && -fee <= net_o <= fee)))
        }),
{
}

/// Per-pool sums stay within the total.
pub proof fn lemma_pool_sum_bounds(notes: Seq<TxInput>, outs: Seq<TxOutput>, p: int)
    ensures
        0 <= pool_in(notes, p) <= notes_total(notes),
        0 <= pool_out(outs, p) <= outputs_total(outs),
{
    lemma_seq_sum_bounds(notes, |n: TxInput| input_in_pool(n, p), |n: TxInput| input_amount(n));
    lemma_seq_sum_bounds(outs, |o: TxOutput| output_in_pool(o, p), |o: TxOutput| tx_output_amount(o));
}

/// Sums per pool of the spent notes.
fn notes_per_pool(notes: &Vec<TxInput>) -> (r: (i64, i64, i64))
    requires
        notes_total(notes@) <= 3 * MAX_MONEY,
    ensures
        r.0 == pool_in(notes@, 0),
        r.1 == pool_in(notes@, 1),
        r.2 == pool_in(notes@, 2),
{
    let mut t: i64 = 0;
    let mut s: i64 = 0;
    let mut o: i64 = 0;
    let mut i: usize = 0;
    while i < notes.len()
        invariant
            i <= notes@.len(),
            notes_total(notes@) <= 3 * MAX_MONEY,
            t == pool_in(notes@.take(i as int), 0),
            s == pool_in(notes@.take(i as int), 1),
            o == pool_in(notes@.take(i as int), 2),
        decreases notes@.len() - i,
    {
        proof {
            let nt = notes@.take(i + 1);
            assert(nt.drop_last() =~= notes@.take(i as int));
            lemma_seq_sum_prefix_le(notes@, i + 1, |n: TxInput| input_amount(n));
            lemma_pool_sum_bounds(nt, Seq::<TxOutput>::empty(), 0);
            lemma_pool_sum_bounds(nt, Seq::<TxOutput>::empty(), 1);
            lemma_pool_sum_bounds(nt, Seq::<TxOutput>::empty(), 2);
            assert(nt.last() == notes@[i as int]);
            assert(notes_total(nt) <= notes_total(notes@));
            lemma_pool_sum_bounds(notes@.take(i as int), Seq::<TxOutput>::empty(), 0);
            assert(notes_total(nt) == notes_total(notes@.take(i as int)) + notes@[i as int].amount);
            assert(notes@[i as int].amount <= 3 * MAX_MONEY);
            assert(pool_in(nt, 0) == t + input_in_pool(notes@[i as int], 0));
            assert(pool_in(nt, 1) == s + input_in_pool(notes@[i as int], 1));
            assert(pool_in(nt, 2) == o + input_in_pool(notes@[i as int], 2));
        }
        let a = notes[i].amount as i64;
        match &notes[i].note {
            InputNote::Transparent { .. } => {
                t = t + a;
            },
            InputNote::Sapling { .. } => {
                s = s + a;
            },
            InputNote::Orchard { .. } => {
                o = o + a;
            },
        }
        i = i + 1;
    }
    proof {
        assert(notes@.take(notes@.len() as int) =~= notes@);
    }
    (t, s, o)
}

/// Sums per pool of the outputs.
fn outputs_per_pool(outs: &Vec<TxOutput>) -> (r: (i64, i64, i64))
    requires
        outputs_total(outs@) <= 3 * MAX_MONEY,
    ensures
        r.0 == pool_out(outs@, 0),
        r.1 == pool_out(outs@, 1),
        r.2 == pool_out(outs@, 2),
{
    let mut t: i64 = 0;
    let mut s: i64 = 0;
    let mut o: i64 = 0;
    let mut i: usize = 0;
    while i < outs.len()
        invariant
            i <= outs@.len(),
            outputs_total(outs@) <= 3 * MAX_MONEY,
            t == pool_out(outs@.take(i as int), 0),
            s == pool_out(outs@.take(i as int), 1),
            o == pool_out(outs@.take(i as int), 2),
        decreases outs@.len() - i,
    {
        proof {
            let ot = outs@.take(i + 1);
            assert(ot.drop_last() =~= outs@.take(i as int));
            lemma_seq_sum_prefix_le(outs@, i + 1, |o: TxOutput| tx_output_amount(o));
            lemma_pool_sum_bounds(Seq::<TxInput>::empty(), ot, 0);
            lemma_pool_sum_bounds(Seq::<TxInput>::empty(), ot, 1);
            lemma_pool_sum_bounds(Seq::<TxInput>::empty(), ot, 2);
            assert(ot.last() == outs@[i as int]);
            assert(outputs_total(ot) <= outputs_total(outs@));
            lemma_pool_sum_bounds(Seq::<TxInput>::empty(), outs@.take(i as int), 0);
            assert(outputs_total(ot) == outputs_total(outs@.take(i as int)) + outs@[i as int].amount);
            assert(outs@[i as int].amount <= 3 * MAX_MONEY);
            assert(pool_out(ot, 0) == t + output_in_pool(outs@[i as int], 0));
            assert(pool_out(ot, 1) == s + output_in_pool(outs@[i as int], 1));
            assert(pool_out(ot, 2) == o + output_in_pool(outs@[i as int], 2));
        }
        let a = outs[i].amount as i64;
        if outs[i].pool == 0 {
            t = t + a;
        } else if outs[i].pool == 1 {
            s = s + a;
        } else {
            o = o + a;
        }
        i = i + 1;
    }
    proof {
        assert(outs@.take(outs@.len() as int) =~= outs@);
    }
    (t, s, o)
}

impl UnsignedTransaction {
    /// Whether the amounts of the plan stay within three times the supply.
    pub open spec fn amounts_bounded(&self) -> bool {
        &&& notes_total(self.tx_notes@) <= 3 * MAX_MONEY
        &&& outputs_total(self.tx_outputs@) <= 3 * MAX_MONEY
    }

    /// The summary of the plan for the user, carrying `data`, the encoded
    /// plan, for signing later.
    pub fn to_summary(&self, data: Vec<u8>) -> (r: TransactionSummaryT)
        requires
            self.amounts_bounded(),
        ensures
            r.height == self.height,
            r.recipients matches Some(v) && v@.len() == self.tx_outputs@.len() && forall|i: int| 0 <= i < v@.len() ==> {
                let t = #[trigger] v@[i];
                &&& t.address == Some(self.tx_outputs@[i].address_string)
                &&& t.amount == self.tx_outputs@[i].amount
                &&& t.change == self.tx_outputs@[i].is_change
            },
            r.transparent_ins == pool_in(self.tx_notes@, 0),
            r.sapling_net == pool_in(self.tx_notes@, 1) - pool_out(self.tx_outputs@, 1),
            r.orchard_net == pool_in(self.tx_notes@, 2) - pool_out(self.tx_outputs@, 2),
            r.fee == (notes_total_by_pool(self.tx_notes@) - outputs_total_by_pool(self.tx_outputs@)) as u64,
            r.privacy_level == privacy_level(self.fees, r.sapling_net as int, r.orchard_net as int, r.fee as int),
            self.fees.num_inputs@[0] == 0 && self.fees.num_outputs@[0] == 0 ==> (r.privacy_level == 3 <==> (
                -(r.fee as int) <= r.sapling_net <= r.fee && -(r.fee as int) <= r.orchard_net <= r.fee)),
            self.fees.num_inputs@[0] == 0 && self.fees.num_outputs@[0] == 0 ==> (r.privacy_level == 2 || r.privacy_level == 3),
            r.transparent_ins - pool_out(self.tx_outputs@, 0) + r.sapling_net + r.orchard_net >= 0 ==>
                r.transparent_ins - pool_out(self.tx_outputs@, 0) + r.sapling_net + r.orchard_net == r.fee,
            r.num_inputs matches Some(v) && v@ == self.fees.num_inputs@,
            r.num_outputs matches Some(v) && v@ == self.fees.num_outputs@,
            r.data == Some(data),
            r.redirect == self.redirect,
    {
        let mut recipients: Vec<TransactionRecipientT> = Vec::new();
        let mut i: usize = 0;
        while i < self.tx_outputs.len()
            invariant
                i <= self.tx_outputs@.len(),
                recipients@.len() == i,
                forall|k: int| 0 <= k < i ==> {
                    let t = #[trigger] recipients@[k];
                    &&& t.address == Some(self.tx_outputs@[k].address_string)
                    &&& t.amount == self.tx_outputs@[k].amount
                    &&& t.change == self.tx_outputs@[k].is_change
                },
            decreases self.tx_outputs@.len() - i,
        {
            let o = &self.tx_outputs[i];
            recipients.push(TransactionRecipientT {
                address: Some(o.address_string.clone()),
                amount: o.amount,
                change: o.is_change,
            });
            i = i + 1;
        }
        proof {
            lemma_pool_sum_bounds(self.tx_notes@, self.tx_outputs@, 0);
            lemma_pool_sum_bounds(self.tx_notes@, self.tx_outputs@, 1);
            lemma_pool_sum_bounds(self.tx_notes@, self.tx_outputs@, 2);
        }
        let ins = notes_per_pool(&self.tx_notes);
        let outs = outputs_per_pool(&self.tx_outputs);
        let net0 = ins.0 - outs.0;
        let net1 = ins.1 - outs.1;
        let net2 = ins.2 - outs.2;
        let fee = (net0 + net1 + net2) as u64;
        let abs1: i64 = if net1 < 0 { -net1 } else { net1 };
        let abs2: i64 = if net2 < 0 { -net2 } else { net2 };
        let privacy_level: u8 = if self.fees.num_inputs[0] != 0 && self.fees.num_outputs[0] != 0 {
            0
        } else if self.fees.num_inputs[0] != 0 || self.fees.num_outputs[0] != 0 {
            1
        } else if abs1 as u64 > fee || abs2 as u64 > fee {
            2
        } else {
            3
        };
        let mut num_inputs: Vec<u8> = Vec::new();
        num_inputs.push(self.fees.num_inputs[0]);
        num_inputs.push(self.fees.num_inputs[1]);
        num_inputs.push(self.fees.num_inputs[2]);
        let mut num_outputs: Vec<u8> = Vec::new();
        num_outputs.push(self.fees.num_outputs[0]);
        num_outputs.push(self.fees.num_outputs[1]);
        num_outputs.push(self.fees.num_outputs[2]);
        proof {
            assert(num_inputs@ =~= self.fees.num_inputs@);
            assert(num_outputs@ =~= self.fees.num_outputs@);
        }
        let redirect = match &self.redirect {
            Some(r) => Some(r.clone()),
            None => None,
        };
        TransactionSummaryT {
            height: self.height,
            recipients: Some(recipients),
            transparent_ins: ins.0 as u64,
            sapling_net: net1,
            orchard_net: net2,
            fee,
            privacy_level,
            num_inputs: Some(num_inputs),
            num_outputs: Some(num_outputs),
            data: Some(data),
            redirect,
        }
    }
}

/// What the spent notes amount to, pool by pool.
pub open spec fn notes_total_by_pool(notes: Seq<TxInput>) -> int {
    pool_in(notes, 0) + pool_in(notes, 1) + pool_in(notes, 2)
}

/// What the outputs amount to, pool by pool.
pub open spec fn outputs_total_by_pool(outs: Seq<TxOutput>) -> int {
    pool_out(outs, 0) + pool_out(outs, 1) + pool_out(outs, 2)
}

impl TransactionSummaryT {
    /// Takes the encoded plan out of the summary.
    pub fn detach(&mut self) -> (r: Vec<u8>)
        requires
            old(self).data is Some,
        ensures
            r == old(self).data->0,
            final(self).data is None,
            *final(self) == (TransactionSummaryT { data: None, ..*old(self) }),
    {
        let mut data: Option<Vec<u8>> = None;
        std::mem::swap(&mut data, &mut self.data);
        match data {
            Some(d) => d,
            None => Vec::new(),
        }
    }
}

/// Whether some spent note belongs to pool `p`.
pub open spec fn has_pool(notes: Seq<TxInput>, p: int) -> bool {
    exists|i: int| 0 <= i < notes.len() && #[trigger] note_pool(notes[i]) == p
}

/// The pools of the notes, one bit per pool.
pub open spec fn pools_of_notes(notes: Seq<TxInput>) -> u8 {
    (if has_pool(notes, 0) { 1u8 } else { 0u8 })
        | (if has_pool(notes, 1) { 2u8 } else { 0u8 })
        | (if has_pool(notes, 2) { 4u8 } else { 0u8 })
}

/// The pools of the notes that a plan spends, one bit per pool.
pub fn pools_required(notes: &Vec<TxInput>) -> (r: u8)
    ensures
        r == pools_of_notes(notes@),
{
    let mut t = false;
    let mut s = false;
    let mut o = false;
    let mut i: usize = 0;
    while i < notes.len()
        invariant
            i <= notes@.len(),
            t <==> has_pool(notes@.take(i as int), 0),
            s <==> has_pool(notes@.take(i as int), 1),
            o <==> has_pool(notes@.take(i as int), 2),
        decreases notes@.len() - i,
    {
        proof {
            let prev = notes@.take(i as int);
            let next = notes@.take(i + 1);
            assert forall|p: int| has_pool(next, p) <==> (has_pool(prev, p) || note_pool(notes@[i as int]) == p) by {
                if has_pool(next, p) {
                    let k = choose|k: int| 0 <= k < next.len() && #[trigger] note_pool(next[k]) == p;
                    if k < i {
                        assert(note_pool(prev[k]) == p);
                    }
                }
                if has_pool(prev, p) {
                    let k = choose|k: int| 0 <= k < prev.len() && #[trigger] note_pool(prev[k]) == p;
                    assert(note_pool(next[k]) == p);
                }
                if note_pool(notes@[i as int]) == p {
                    assert(note_pool(next[i as int]) == p);
                }
            }
        }
        match &notes[i].note {
            InputNote::Transparent { .. } => {
                t = true;
            },
            InputNote::Sapling { .. } => {
                s = true;
            },
            InputNote::Orchard { .. } => {
                o = true;
            },
        }
        i = i + 1;
    }
    proof {
        assert(notes@.take(notes@.len() as int) =~= notes@);
    }
    (if t { 1u8 } else { 0u8 }) | (if s { 2u8 } else { 0u8 }) | (if o { 4u8 } else { 0u8 })
}

/// Whether an account whose spending keys cover the pools `available`
/// (bit per pool) can sign a plan that spends `notes`.
pub fn can_sign(notes: &Vec<TxInput>, available: u8) -> (r: bool)
    ensures
        r == ((available & pools_of_notes(notes@)) == pools_of_notes(notes@)),
{
    let required = pools_required(notes);
    (available & required) == required
}


/// Whether the amounts of the inputs add up to at most the total supply.
fn inputs_within_supply(v: &Vec<TxInput>) -> (r: bool)
    ensures
        r == (seq_sum(v@, |n: TxInput| input_amount(n)) <= MAX_MONEY),
{
    let mut s: u64 = 0;
    let mut i: usize = 0;
    while i < v.len()
        invariant
            i <= v@.len(),
            s == seq_sum(v@.take(i as int), |n: TxInput| input_amount(n)),
            s <= MAX_MONEY,
        decreases v@.len() - i,
    {
        proof {
            assert(v@.take(i + 1).drop_last() =~= v@.take(i as int));
        }
        if v[i].amount > MAX_MONEY - s {
            proof {
                lemma_seq_sum_prefix_le(v@, i + 1, |n: TxInput| input_amount(n));
            }
            return false;
        }
        s = s + v[i].amount;
        i = i + 1;
    }
    proof {
        assert(v@.take(v@.len() as int) =~= v@);
    }
    true
}

/// Whether the amounts of the recipients add up to at most the total
/// supply.
fn outputs_within_supply(v: &Vec<ExtendedRecipient>) -> (r: bool)
    ensures
        r == (seq_sum(v@, |o: ExtendedRecipient| output_amount(o)) <= MAX_MONEY),
{
    let mut s: u64 = 0;
    let mut i: usize = 0;
    while i < v.len()
        invariant
            i <= v@.len(),
            s == seq_sum(v@.take(i as int), |o: ExtendedRecipient| output_amount(o)),
            s <= MAX_MONEY,
        decreases v@.len() - i,
    {
        proof {
            assert(v@.take(i + 1).drop_last() =~= v@.take(i as int));
        }
        if v[i].amount > MAX_MONEY - s {
            proof {
                lemma_seq_sum_prefix_le(v@, i + 1, |o: ExtendedRecipient| output_amount(o));
            }
            return false;
        }
        s = s + v[i].amount;
        i = i + 1;
    }
    proof {
        assert(v@.take(v@.len() as int) =~= v@);
    }
    true
}

/// Whether a recipient can be planned.
fn is_recipient_ready(o: &ExtendedRecipient) -> (r: bool)
    ensures
        r == recipient_ready(*o),
{
    if !(o.remaining == o.amount && o.recipient.amount == o.amount && o.pool_mask.0 < 8 && !o.is_change) {
        return false;
    }
    let m = o.pool_mask.0;
    proof {
        assert(m < 8 && (m == 1 || m == 2 || m == 4) ==> m & 7 != 0) by (bit_vector);
        assert(1u8 & 4 == 0 && 1u8 & 2 == 0 && 1u8 & 1 != 0) by (bit_vector);
        assert(2u8 & 4 == 0 && 2u8 & 2 != 0) by (bit_vector);
        assert(4u8 & 4 != 0) by (bit_vector);
    }
    if o.pool_mask.single_pool() {
        match o.pool_mask.to_pool() {
            Some(p) => {
                if p == 0 {
                    o.receivers.transparent.is_some()
                } else if p == 1 {
                    o.receivers.sapling.is_some()
                } else {
                    o.receivers.orchard.is_some()
                }
            },
            None => false,
        }
    } else {
        o.receivers.sapling.is_some() && o.receivers.orchard.is_some()
    }
}

impl PaymentBuilder {
    /// Whether the builder is ready for planning: nothing planned yet,
    /// amounts within the total supply, every recipient with a receiver in
    /// the pools it may be paid in, at most 253 outputs with the change, and
    /// a change address in every pool with inputs when change
    /// is used.
    pub fn is_ready(&self) -> (r: bool)
        ensures
            r == self.ready(),
    {
        if !(self.fee == 0 && self.used[0] == false && self.used[1] == false && self.used[2] == false) {
            proof {
                if self.used@ == seq![false, false, false] {
                    assert(self.used@[0] == false && self.used@[1] == false && self.used@[2] == false);
                }
            }
            return false;
        }
        if !(self.fee_manager.num_inputs[0] == 0 && self.fee_manager.num_inputs[1] == 0 && self.fee_manager.num_inputs[2] == 0
            && self.fee_manager.num_outputs[0] == 0 && self.fee_manager.num_outputs[1] == 0 && self.fee_manager.num_outputs[2] == 0) {
            return false;
        }
        proof {
            assert(self.used@ =~= seq![false, false, false]);
            assert(self.fee_manager.num_inputs@ =~= seq![0u8, 0u8, 0u8]);
            assert(self.fee_manager.num_outputs@ =~= seq![0u8, 0u8, 0u8]);
        }
        let mut p: usize = 0;
        while p < 3
            invariant
                p <= 3,
                forall|q: int| 0 <= q < p ==> seq_sum(#[trigger] self.pools()[q], |n: TxInput| input_amount(n)) <= MAX_MONEY,
            decreases 3 - p,
        {
            if !inputs_within_supply(&self.inputs[p]) {
                proof {
                    assert(self.pools()[p as int] == self.inputs@[p as int]@);
                }
                return false;
            }
            proof {
                assert(self.pools()[p as int] == self.inputs@[p as int]@);
            }
            p = p + 1;
        }
        if !outputs_within_supply(&self.outputs) {
            return false;
        }
        let mut i: usize = 0;
        while i < self.outputs.len()
            invariant
                i <= self.outputs@.len(),
                forall|k: int| 0 <= k < i ==> recipient_ready(#[trigger] self.outputs@[k]),
            decreases self.outputs@.len() - i,
        {
            if !is_recipient_ready(&self.outputs[i]) {
                return false;
            }
            i = i + 1;
        }
        let n0 = self.inputs[0].len();
        let n1 = self.inputs[1].len();
        let n2 = self.inputs[2].len();
        proof {
            assert(self.pools()[0] == self.inputs@[0]@);
            assert(self.pools()[1] == self.inputs@[1]@);
            assert(self.pools()[2] == self.inputs@[2]@);
        }
        if self.outputs.len() > 252 {
            return false;
        }
        if self.use_change {
            if n0 > 0 && self.account_addresses.transparent.is_none() {
                proof {
                    assert(self.pools()[0].len() > 0 && receiver_at(self.account_addresses, 0) is None);
                }
                return false;
            }
            if n1 > 0 && self.account_addresses.sapling.is_none() {
                proof {
                    assert(self.pools()[1].len() > 0 && receiver_at(self.account_addresses, 1) is None);
                }
                return false;
            }
            if n2 > 0 && self.account_addresses.orchard.is_none() {
                proof {
                    assert(self.pools()[2].len() > 0 && receiver_at(self.account_addresses, 2) is None);
                }
                return false;
            }
        }
        proof {
            assert forall|q: int| 0 <= q < 3 && self.pools()[q].len() > 0 && self.use_change implies receiver_at(self.account_addresses, q) is Some by {
                if q == 0 {
                } else if q == 1 {
                } else {
                }
            }
        }
        true
    }
}

} // verus!
