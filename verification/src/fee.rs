//! ZIP-317 fee accounting over the three pools (0 = transparent,
//! 1 = Sapling, 2 = Orchard).
use vstd::prelude::*;

use crate::COST_PER_ACTION;

verus! {

/// Larger of two integers.
pub open spec fn max_int(a: int, b: int) -> int {
    if a >= b { a } else { b }
}

/// Logical actions of a shielded bundle: none when the bundle is unused,
/// otherwise the larger of its inputs and outputs, padded to at least two.
pub open spec fn shielded_actions(inputs: int, outputs: int) -> int {
    if inputs > 0 || outputs > 0 { max_int(max_int(inputs, outputs), 2) } else { 0 }
}

/// Logical actions of a transaction with the given counts per pool.
pub open spec fn logical_actions(inputs: Seq<u8>, outputs: Seq<u8>) -> int {
    max_int(inputs[0] as int, outputs[0] as int)
        + shielded_actions(inputs[1] as int, outputs[1] as int)
        + shielded_actions(inputs[2] as int, outputs[2] as int)
}

/// Fee in zatoshis of a transaction with the given counts per pool.
pub open spec fn zip317_fee(inputs: Seq<u8>, outputs: Seq<u8>) -> int {
    logical_actions(inputs, outputs) * COST_PER_ACTION
}

/// Counts of inputs and outputs per pool, from which the fee follows.
#[derive(Clone, Debug)]
pub struct FeeManager {
    pub num_inputs: [u8; 3],
    pub num_outputs: [u8; 3],
}

impl FeeManager {
    /// The fee that the counts call for.
    pub open spec fn spec_fee(&self) -> int {
        zip317_fee(self.num_inputs@, self.num_outputs@)
    }

    /// The logical actions that the counts call for.
    pub open spec fn spec_actions(&self) -> int {
        logical_actions(self.num_inputs@, self.num_outputs@)
    }

    /// An empty transaction: no inputs, no outputs.
    pub fn new() -> (r: Self)
        ensures
            r.num_inputs@ == seq![0u8, 0u8, 0u8],
            r.num_outputs@ == seq![0u8, 0u8, 0u8],
            r.spec_fee() == 0,
    {
        let r = FeeManager { num_inputs: [0u8; 3], num_outputs: [0u8; 3] };
        assert(r.num_inputs@ =~= seq![0u8, 0u8, 0u8]);
        assert(r.num_outputs@ =~= seq![0u8, 0u8, 0u8]);
        r
    }

    /// Records one more input in `pool` and returns by how much the fee grew.
    pub fn add_input(&mut self, pool: u8) -> (r: u64)
        requires
            pool < 3,
            old(self).num_inputs@[pool as int] < 255,
            logical_actions(
                old(self).num_inputs@.update(pool as int, (old(self).num_inputs@[pool as int] + 1) as u8),
                old(self).num_outputs@,
            ) <= 255,
        ensures
            final(self).num_inputs@ == old(self).num_inputs@.update(
                pool as int,
                (old(self).num_inputs@[pool as int] + 1) as u8,
            ),
            final(self).num_outputs@ == old(self).num_outputs@,
            r == final(self).spec_fee() - old(self).spec_fee(),
    {
        proof {
            lemma_actions_monotone_input(self.num_inputs@, self.num_outputs@, pool as int);
        }
        let fee = self.fee();
        let n = self.num_inputs[pool as usize];
        self.num_inputs[pool as usize] = n + 1;
        let new_fee = self.fee();
        new_fee - fee
    }

    /// Records one more output in `pool` and returns by how much the fee grew.
    pub fn add_output(&mut self, pool: u8) -> (r: u64)
        requires
            pool < 3,
            old(self).num_outputs@[pool as int] < 255,
            logical_actions(
                old(self).num_inputs@,
                old(self).num_outputs@.update(pool as int, (old(self).num_outputs@[pool as int] + 1) as u8),
            ) <= 255,
        ensures
            final(self).num_outputs@ == old(self).num_outputs@.update(
                pool as int,
                (old(self).num_outputs@[pool as int] + 1) as u8,
            ),
            final(self).num_inputs@ == old(self).num_inputs@,
            r == final(self).spec_fee() - old(self).spec_fee(),
    {
        proof {
            lemma_actions_monotone_output(self.num_inputs@, self.num_outputs@, pool as int);
        }
        let fee = self.fee();
        let n = self.num_outputs[pool as usize];
        self.num_outputs[pool as usize] = n + 1;
        let new_fee = self.fee();
        new_fee - fee
    }

    /// The ZIP-317 fee of the counted inputs and outputs.
    pub fn fee(&self) -> (r: u64)
        requires
            self.spec_actions() <= 255,
        ensures
            r == self.spec_fee(),
    {
        let ni = &self.num_inputs;
        let no = &self.num_outputs;
        let t = if ni[0] >= no[0] { ni[0] } else { no[0] };
        let s = if ni[1] > 0 || no[1] > 0 {
            let m = if ni[1] >= no[1] { ni[1] } else { no[1] };
            if m >= 2 { m } else { 2 }
        } else {
            0
        };
        let o = if ni[2] > 0 || no[2] > 0 {
            let m = if ni[2] >= no[2] { ni[2] } else { no[2] };
            if m >= 2 { m } else { 2 }
        } else {
            0
        };
        let f: u8 = t + s + o;
        f as u64 * COST_PER_ACTION
    }

    /// Logical actions of a bundle with `a` actions: none stays none,
    /// otherwise at least two.
    pub fn min_actions_padding(a: u8) -> (r: u8)
        ensures
            r as int == shielded_actions(a as int, 0),
    {
        if a == 0 {
            0
        } else if a >= 2 {
            a
        } else {
            2
        }
    }
}

impl Default for FeeManager {
    fn default() -> (r: Self)
        ensures
            r.num_inputs@ == seq![0u8, 0u8, 0u8],
            r.num_outputs@ == seq![0u8, 0u8, 0u8],
    {
        FeeManager::new()
    }
}

/// One more input never lowers the number of logical actions.
pub proof fn lemma_actions_monotone_input(inputs: Seq<u8>, outputs: Seq<u8>, pool: int)
    requires
        inputs.len() == 3,
        outputs.len() == 3,
        0 <= pool < 3,
        inputs[pool] < 255,
    ensures
        logical_actions(inputs, outputs) <= logical_actions(
            inputs.update(pool, (inputs[pool] + 1) as u8),
            outputs,
        ),
{
}

/// One more output never lowers the number of logical actions.
pub proof fn lemma_actions_monotone_output(inputs: Seq<u8>, outputs: Seq<u8>, pool: int)
    requires
        inputs.len() == 3,
        outputs.len() == 3,
        0 <= pool < 3,
        outputs[pool] < 255,
    ensures
        logical_actions(inputs, outputs) <= logical_actions(
            inputs,
            outputs.update(pool, (outputs[pool] + 1) as u8),
        ),
{
}

} // verus!
