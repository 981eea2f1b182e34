//! Heights of the chain: where Sapling starts, where a rescan restarts and
//! the search for the first block of a given day.
use vstd::prelude::*;

use zcash_protocol::consensus::{BlockHeight, MainNetwork, NetworkUpgrade, Parameters};
use zcash_protocol::local_consensus::LocalNetwork;

verus! {

/// The chain the wallet follows.
#[derive(Clone, Copy, Debug, PartialEq, Eq, Structural)]
pub enum Network {
    Main,
    /// A local test chain where every upgrade up to NU5 is active from
    /// height 1.
    Regtest,
}

/// The header of a block.
#[derive(Clone, Copy, Debug)]
pub struct BlockHeader {
    pub height: u32,
    pub hash: crate::witness::Hash,
    pub prev_hash: crate::witness::Hash,
    pub timestamp: u32,
}

/// Seconds in a day.
pub const SEC_PER_DAY: u32 = 86_400;

/// Sapling's activation height on the main chain.
pub const MAIN_SAPLING_HEIGHT: u32 = 419_200;

/// Sapling's activation height of a network.
pub open spec fn sapling_height(network: Network) -> u32 {
    match network {
        Network::Main => MAIN_SAPLING_HEIGHT,
        Network::Regtest => 1,
    }
}

#[verifier::external_type_specification]
#[verifier::external_body]
pub struct ExLocalNetwork(LocalNetwork);

/// The consensus parameters of the local test chain: every upgrade up to
/// NU5 active from height 1, the later ones never.
///
/// Builds a `zcash_protocol::local_consensus::LocalNetwork`; nothing is
/// stated of it, as Verus does not see inside the value.
#[verifier::external_body]
pub fn regtest() -> LocalNetwork {
    let h = Some(BlockHeight::from_u32(1));
    LocalNetwork { overwinter: h, sapling: h, blossom: h, heartwood: h, canopy: h, nu5: h,
        nu6: None, nu6_1: None, nu6_2: None, nu6_3: None, nu7: None }
}

/// Sapling's activation height on a chain.
///
/// Calls `Parameters::activation_height` for `NetworkUpgrade::Sapling` on
/// `MainNetwork`, which the crate's source gives as `BlockHeight(419_200)`,
/// or on the parameters of `regtest`, which set it to 1.
#[verifier::external_body]
fn sapling_activation(network: Network) -> (r: u32)
    ensures
        r == sapling_height(network),
{
    let h = match network {
        Network::Main => MainNetwork.activation_height(NetworkUpgrade::Sapling),
        Network::Regtest => regtest().activation_height(NetworkUpgrade::Sapling),
    };
    u32::from(h.unwrap())
}

/// The height at which Sapling activates.
pub fn get_activation_height(network: &Network) -> (r: u32)
    ensures
        r == sapling_height(*network),
{
    sapling_activation(*network)
}

/// The block whose time stands for `height`: never one before the first
/// block after Sapling's activation.
pub fn time_query_height(network: &Network, height: u32) -> (r: u32)
    ensures
        r == if height >= sapling_height(*network) + 1 { height } else { (sapling_height(*network) + 1) as u32 },
{
    let a = get_activation_height(network) + 1;
    if height >= a { height } else { a }
}

/// The height from which a reset chain is scanned again: the height asked
/// for, or with 0 the earliest birth height of the accounts (Sapling's
/// activation when there is none); never before the first block after
/// Sapling's activation.
pub fn reset_height(network: &Network, height: u32, min_birth: Option<u32>) -> (r: u32)
    ensures
        ({
            let a = sapling_height(*network);
            let h = if height != 0 {
                height
            } else {
                match min_birth {
                    Some(b) => b,
                    None => a,
                }
            };
            r == if h >= a + 1 { h } else { (a + 1) as u32 }
        }),
{
    let activation = get_activation_height(network);
    let h = if height != 0 {
        height
    } else {
        match min_birth {
            Some(b) => b,
            None => activation,
        }
    };
    if h >= activation + 1 { h } else { activation + 1 }
}

/// A binary search, over the heights from `low` to `high`, for a block of
/// the day `day` (days counted from the epoch).
#[derive(Clone, Copy, Debug)]
pub struct HeightSearch {
    pub day: u32,
    pub low: u32,
    pub high: u32,
}

/// What the search does after a block's time is known.
#[derive(Clone, Copy, Debug, PartialEq, Eq, Structural)]
pub enum SearchStep {
    /// The block is of the day searched for.
    Found(u32),
    /// The search goes on with the other bounds.
    Continue,
}

/// Whether the search can probe: bounds in order, and their sum fits.
pub open spec fn can_probe(s: HeightSearch) -> bool {
    s.low <= s.high && s.low + s.high <= u32::MAX
}

/// The height that the search probes.
pub open spec fn probe_height(s: HeightSearch) -> u32 {
    ((s.low + s.high) / 2) as u32
}

/// The search after the block at the probed height was found to be of day
/// `block_day`: the day searched for ends it; an earlier day moves the low
/// bound above the probe, a later one the high bound below it.
pub open spec fn step_spec(s: HeightSearch, block_day: u32) -> (HeightSearch, SearchStep) {
    let m = probe_height(s);
    if s.day < block_day {
        (HeightSearch { high: (m - 1) as u32, ..s }, SearchStep::Continue)
    } else if s.day == block_day {
        (s, SearchStep::Found(m))
    } else {
        (HeightSearch { low: (m + 1) as u32, ..s }, SearchStep::Continue)
    }
}

impl HeightSearch {
    /// The search for the day of `time` (seconds since the epoch) between
    /// Sapling's activation `activation` and the chain's last height.
    pub fn new(time: u32, activation: u32, last_height: u32) -> (r: Self)
        ensures
            r.day == time / SEC_PER_DAY,
            r.low == activation,
            r.high == last_height,
    {
        HeightSearch { day: time / SEC_PER_DAY, low: activation, high: last_height }
    }

    /// The height whose block the search needs next, or nothing when the
    /// bounds have crossed.
    pub fn next_height(&self) -> (r: Option<u32>)
        requires
            self.low <= self.high ==> self.low + self.high <= u32::MAX,
        ensures
            r == if self.low <= self.high { Some(probe_height(*self)) } else { None::<u32> },
    {
        if self.low <= self.high {
            Some((self.low + self.high) / 2)
        } else {
            None
        }
    }

    /// Takes in the time of the block at the probed height.
    pub fn on_block(&mut self, block_time: u32) -> (r: SearchStep)
        requires
            can_probe(*old(self)),
            probe_height(*old(self)) == 0 ==> old(self).day >= block_time / SEC_PER_DAY,
        ensures
            (*final(self), r) == step_spec(*old(self), block_time / SEC_PER_DAY),
    {
        let m = (self.low + self.high) / 2;
        let block_day = block_time / SEC_PER_DAY;
        if self.day < block_day {
            self.high = m - 1;
            SearchStep::Continue
        } else if self.day == block_day {
            SearchStep::Found(m)
        } else {
            self.low = m + 1;
            SearchStep::Continue
        }
    }

    /// The height that the search ends on when the bounds have crossed:
    /// the low bound.
    pub fn result(&self) -> (r: u32)
        ensures
            r == self.low,
    {
        self.low
    }
}

/// Whether the days of consecutive blocks never decrease.
pub open spec fn days_sorted(days: Seq<u32>) -> bool {
    forall|i: int, j: int| 0 <= i <= j < days.len() ==> days[i] <= days[j]
}

/// Whether every block from `first` up to the low bound is of an earlier
/// day, and every block above the high bound up to `last` of a later day
/// (`days[h]` is the day of the block at height `h`).
pub open spec fn brackets(s: HeightSearch, days: Seq<u32>, first: int, last: int) -> bool {
    &&& forall|k: int| first <= k < s.low && 0 <= k < days.len() ==> #[trigger] days[k] < s.day
    &&& forall|k: int| s.high < k <= last && 0 <= k < days.len() ==> #[trigger] days[k] > s.day
}

/// Where block days never decrease, each step keeps every block below the
/// low bound before the day searched for and every block above the high
/// bound after it; a block found is of that day.
pub proof fn lemma_step_keeps_brackets(s: HeightSearch, days: Seq<u32>, first: int, last: int)
    requires
        days_sorted(days),
        can_probe(s),
        probe_height(s) < days.len(),
        brackets(s, days, first, last),
        probe_height(s) == 0 ==> s.day >= days[probe_height(s) as int],
    ensures
        brackets(step_spec(s, days[probe_height(s) as int]).0, days, first, last),
        step_spec(s, days[probe_height(s) as int]).1 matches SearchStep::Found(h) ==> days[h as int] == s.day,
{
    let m = probe_height(s) as int;
    let s2 = step_spec(s, days[m]).0;
    if s.day < days[m] {
        assert forall|k: int| s2.high < k <= last && 0 <= k < days.len() implies #[trigger] days[k] > s2.day by {
            if k <= s.high {
                assert(days[m] <= days[k]);
            }
        }
    } else if s.day > days[m] {
        assert forall|k: int| first <= k < s2.low && 0 <= k < days.len() implies #[trigger] days[k] < s2.day by {
            if k >= s.low {
                assert(days[k] <= days[m]);
            }
        }
    }
}

/// When the bounds have crossed, the search ends on the first height,
/// from `first` on, of a block of the day searched for or later, and no
/// block between `first` and `last` is of that day.
pub proof fn lemma_search_result(s: HeightSearch, days: Seq<u32>, first: int, last: int)
    requires
        brackets(s, days, first, last),
        s.low > s.high,
    ensures
        forall|k: int| first <= k < s.low && 0 <= k < days.len() ==> #[trigger] days[k] < s.day,
        forall|k: int| s.low <= k <= last && 0 <= k < days.len() ==> #[trigger] days[k] > s.day,
{
}

} // verus!
