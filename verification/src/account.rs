//! What an account holds and can sign with, pool by pool, and the plans
//! that change it: transfers between pools, address scans and downgrades.
use vstd::prelude::*;

use crate::data::{AccountSigningCapabilitiesT, PaymentRequestT, RecipientT};
use crate::types::PoolMask;

verus! {

// ---------------------------------------------------------------------
// Transfers between pools
// ---------------------------------------------------------------------

/// The amounts of the payments that move `amount` in parts of at most
/// `split` (a part of 0 moves everything in one payment).
pub open spec fn split_amounts(amount: nat, split: nat) -> Seq<u64>
    decreases amount,
{
    let part = if split == 0 { amount } else { split };
    if amount == 0 {
        Seq::empty()
    } else {
        let a = if amount <= part { amount } else { part };
        seq![a as u64] + split_amounts((amount - a) as nat, split)
    }
}

/// The view of optional bytes.
pub open spec fn opt_bytes(b: Option<Vec<u8>>) -> Option<Seq<u8>> {
    match b {
        Some(v) => Some(v@),
        None => None,
    }
}

/// The sum of amounts.
pub open spec fn sum_u64(s: Seq<u64>) -> int
    decreases s.len(),
{
    if s.len() == 0 {
        0
    } else {
        s[0] + sum_u64(s.drop_first())
    }
}

/// The payments of a transfer of `amount` to `to_address`, in parts of at
/// most `split_amount` (all at once when it is 0), each with the same memo.
pub fn transfer_recipients(to_address: &Option<String>, amount: u64, split_amount: u64, memo: &Option<Vec<u8>>) -> (r: Vec<RecipientT>)
    ensures
        r@.len() == split_amounts(amount as nat, split_amount as nat).len(),
        forall|i: int| 0 <= i < r@.len() ==> {
            let t = #[trigger] r@[i];
            &&& t.amount == split_amounts(amount as nat, split_amount as nat)[i]
            &&& t.address == *to_address
            &&& t.pools == 7
            &&& t.memo is None
            &&& opt_bytes(t.memo_bytes) == opt_bytes(*memo)
        },
{
    let split = if split_amount == 0 { amount } else { split_amount };
    let mut left = amount;
    let mut r: Vec<RecipientT> = Vec::new();
    let ghost all = split_amounts(amount as nat, split_amount as nat);
    while left > 0
        invariant
            split == if split_amount == 0 { amount } else { split_amount },
            left <= amount,
            split_amount == 0 ==> left == amount || left == 0,
            all == split_amounts(amount as nat, split_amount as nat),
            all == r@.map_values(|t: RecipientT| t.amount) + split_amounts(left as nat, split_amount as nat),
            forall|i: int| 0 <= i < r@.len() ==> {
                let t = #[trigger] r@[i];
                &&& t.address == *to_address
                &&& t.pools == 7
                &&& t.memo is None
                &&& opt_bytes(t.memo_bytes) == opt_bytes(*memo)
            },
        decreases left,
    {
        let a = if left <= split { left } else { split };
        let ghost before = r@;
        let bytes = match memo {
            Some(m) => Some(m.clone()),
            None => None,
        };
        r.push(RecipientT { address: copy_opt_string(to_address), amount: a, pools: 7, memo: None, memo_bytes: bytes });
        proof {
            let rest = split_amounts((left - a) as nat, split_amount as nat);
            assert(split_amounts(left as nat, split_amount as nat) == seq![a] + rest);
            assert(r@.map_values(|t: RecipientT| t.amount) =~= before.map_values(|t: RecipientT| t.amount).push(a));
            assert(all =~= r@.map_values(|t: RecipientT| t.amount) + rest);
        }
        left = left - a;
    }
    proof {
        assert(split_amounts(0, split_amount as nat) =~= Seq::<u64>::empty());
        assert(all =~= r@.map_values(|t: RecipientT| t.amount));
        assert forall|i: int| 0 <= i < r@.len() implies (#[trigger] r@[i]).amount == all[i] by {
            assert(r@.map_values(|t: RecipientT| t.amount)[i] == r@[i].amount);
        }
    }
    r
}

/// A copy of an optional string.
fn copy_opt_string(s: &Option<String>) -> (r: Option<String>)
    ensures
        r == *s,
{
    match s {
        Some(t) => Some(t.clone()),
        None => None,
    }
}

/// The parts of a transfer add up to the amount moved, none is above the
/// part size (when there is one) and none is empty.
pub proof fn lemma_split_amounts(amount: nat, split: nat)
    requires
        amount <= u64::MAX,
    ensures
        sum_u64(split_amounts(amount, split)) == amount,
        forall|i: int| 0 <= i < split_amounts(amount, split).len() ==> {
            let a = #[trigger] split_amounts(amount, split)[i];
            &&& 0 < a
            &&& split > 0 ==> a <= split
        },
    decreases amount,
{
    if amount > 0 {
        let part = if split == 0 { amount } else { split };
        let a = if amount <= part { amount } else { part };
        lemma_split_amounts((amount - a) as nat, split);
        let s = split_amounts(amount, split);
        assert(s.drop_first() =~= split_amounts((amount - a) as nat, split));
        assert forall|i: int| 0 <= i < s.len() implies {
            let x = #[trigger] s[i];
            &&& 0 < x
            &&& split > 0 ==> x <= split
        } by {
            if i > 0 {
                assert(s[i] == split_amounts((amount - a) as nat, split)[i - 1]);
            }
        }
    }
}

// ---------------------------------------------------------------------
// Transparent address scan
// ---------------------------------------------------------------------

/// The scan of an account's transparent addresses, one index after the
/// other, which stops after `gap_limit` addresses in a row without funds.
#[derive(Clone, Copy, Debug)]
pub struct GapScan {
    pub addr_index: u32,
    pub gap: u32,
    pub gap_limit: u32,
}

/// The number of addresses without funds at the end of the history.
pub open spec fn trailing_empty(found: Seq<bool>) -> nat
    decreases found.len(),
{
    if found.len() == 0 || found.last() {
        0
    } else {
        trailing_empty(found.drop_last()) + 1
    }
}

impl GapScan {
    /// A scan from index 0.
    pub fn new(gap_limit: u32) -> (r: Self)
        ensures
            r.addr_index == 0,
            r.gap == 0,
            r.gap_limit == gap_limit,
    {
        GapScan { addr_index: 0, gap: 0, gap_limit }
    }

    /// The index of the next address to check, or nothing once the gap
    /// limit is reached.
    pub fn next_index(&self) -> (r: Option<u32>)
        ensures
            r == if self.gap < self.gap_limit { Some(self.addr_index) } else { None::<u32> },
    {
        if self.gap < self.gap_limit {
            Some(self.addr_index)
        } else {
            None
        }
    }

    /// Takes in whether the checked address holds funds.
    pub fn on_address(&mut self, has_funds: bool)
        requires
            old(self).addr_index < u32::MAX,
            old(self).gap < old(self).gap_limit,
        ensures
            final(self).addr_index == old(self).addr_index + 1,
            final(self).gap == if has_funds { 0 } else { old(self).gap + 1 },
            final(self).gap_limit == old(self).gap_limit,
    {
        if has_funds {
            self.gap = 0;
        } else {
            self.gap = self.gap + 1;
        }
        self.addr_index = self.addr_index + 1;
    }
}

/// The scan after the checks `found` (whether each address held funds),
/// from a new scan.
pub open spec fn scan_after(gap_limit: u32, found: Seq<bool>) -> GapScan {
    GapScan { addr_index: found.len() as u32, gap: trailing_empty(found) as u32, gap_limit }
}

/// After any history of checks the scan stands at the next index, counts
/// the addresses without funds since the last one with funds, and stops
/// exactly when that count reaches the gap limit.
pub proof fn lemma_scan_tracks_gap(gap_limit: u32, found: Seq<bool>, has_funds: bool)
    requires
        found.len() < u32::MAX,
        trailing_empty(found) < gap_limit,
    ensures
        ({
            let s = scan_after(gap_limit, found);
            let t = scan_after(gap_limit, found.push(has_funds));
            &&& t.addr_index == s.addr_index + 1
            &&& t.gap == if has_funds { 0 } else { s.gap + 1 }
            &&& (t.gap >= gap_limit <==> trailing_empty(found.push(has_funds)) >= gap_limit)
        }),
{
    assert(found.push(has_funds).drop_last() =~= found);
}

// ---------------------------------------------------------------------
// Signing capabilities
// ---------------------------------------------------------------------

/// What an account has of one pool: nothing, a viewing key, or a
/// spending key too.
pub open spec fn key_level(has_vk: bool, has_sk: bool) -> u8 {
    if !has_vk {
        0
    } else if has_sk {
        3
    } else {
        1
    }
}

/// The transparent keys and address of an account (keys as their byte
/// encodings; the address is a public key hash).
#[derive(Clone, Debug)]
pub struct TransparentAccountInfo {
    pub index: u32,
    pub xsk: Option<Vec<u8>>,
    pub sk: Option<[u8; 32]>,
    pub vk: Option<Vec<u8>>,
    pub addr: crate::address::TransparentAddress,
    pub change_index: Option<u32>,
}

/// The Sapling keys and default address of an account.
#[derive(Clone, Debug)]
pub struct SaplingAccountInfo {
    pub sk: Option<Vec<u8>>,
    pub vk: Vec<u8>,
    pub addr: [u8; 43],
}

/// The Orchard keys and default address of an account.
#[derive(Clone, Debug)]
pub struct OrchardAccountInfo {
    pub sk: Option<Vec<u8>>,
    pub vk: Vec<u8>,
    pub addr: [u8; 43],
}

/// An account: its name, seed and indexes, and what it has of each pool.
#[derive(Clone, Debug)]
pub struct AccountInfo {
    pub account: u32,
    pub position: u32,
    pub name: String,
    pub seed: Option<String>,
    pub aindex: u32,
    pub dindex: u32,
    pub birth: u32,
    pub saved: bool,
    pub transparent: Option<TransparentAccountInfo>,
    pub sapling: Option<SaplingAccountInfo>,
    pub orchard: Option<OrchardAccountInfo>,
}

/// An account restricted to some of its pools.
#[derive(Clone, Debug)]
pub struct OptionAccountInfo {
    pub account: u32,
    pub name: String,
    pub seed: Option<String>,
    pub aindex: u32,
    pub saved: bool,
    pub transparent: Option<TransparentAccountInfo>,
    pub sapling: Option<SaplingAccountInfo>,
    pub orchard: Option<OrchardAccountInfo>,
}

/// The mask of the pools that are present.
pub open spec fn presence_mask(t: bool, s: bool, o: bool) -> u8 {
    (if t { 1u8 } else { 0u8 }) | (if s { 2u8 } else { 0u8 }) | (if o { 4u8 } else { 0u8 })
}

/// The address of an account with its receivers of the pools in `mask`:
/// none without any, a plain address for a single transparent or Sapling
/// receiver, else a unified address.
pub open spec fn account_address(ai: AccountInfo, network: crate::chain::Network, mask: u8) -> Option<Seq<char>> {
    let t = if mask & 1 != 0 && ai.transparent is Some { Some(ai.transparent->0.addr) } else { None };
    let s = if mask & 2 != 0 && ai.sapling is Some { Some(ai.sapling->0.addr) } else { None::<[u8; 43]> };
    let o = if mask & 4 != 0 && ai.orchard is Some { Some(ai.orchard->0.addr) } else { None::<[u8; 43]> };
    if t is None && s is None && o is None {
        None
    } else {
        Some(crate::address::address_with(network, t, s, o))
    }
}

/// The payment request that moves `amount` between the pools of the
/// account `ai`: parts of at most `split_amount` (all at once when it is
/// 0) to the account's own address in pool `to_pool`, each with the memo,
/// funded from pool `from_pool` alone, with change and the fees on the
/// sender, planned at `confirmation_height` and expiring 50 blocks after
/// `height`. The account must have an address in `to_pool`.
pub fn transfer_pools(
    ai: &AccountInfo,
    network: &crate::chain::Network,
    height: u32,
    confirmation_height: u32,
    from_pool: u8,
    to_pool: u8,
    amount: u64,
    memo: &Option<Vec<u8>>,
    split_amount: u64,
) -> (r: PaymentRequestT)
    requires
        from_pool < 8,
        to_pool < 8,
        height + 50 <= u32::MAX,
        account_address(*ai, *network, crate::types::pool_bit(to_pool)) is Some,
    ensures
        r.recipients matches Some(v) && {
            let parts = split_amounts(amount as nat, split_amount as nat);
            &&& v@.len() == parts.len()
            &&& forall|i: int| 0 <= i < v@.len() ==> {
                let t = #[trigger] v@[i];
                &&& t.amount == parts[i]
                &&& crate::data::opt_str_view(t.address) == account_address(*ai, *network, crate::types::pool_bit(to_pool))
                &&& t.pools == 7
                &&& t.memo is None
                &&& opt_bytes(t.memo_bytes) == opt_bytes(*memo)
            }
        },
        r.src_pools == crate::types::pool_bit(from_pool),
        r.sender_pay_fees,
        r.use_change,
        r.height == confirmation_height,
        r.expiration == height + 50,
{
    let to_address = ai.to_address(network, PoolMask::from_pool(to_pool));
    let recipients = transfer_recipients(&to_address, amount, split_amount, memo);
    PaymentRequestT {
        recipients: Some(recipients),
        src_pools: PoolMask::from_pool(from_pool).0,
        sender_pay_fees: true,
        use_change: true,
        height: confirmation_height,
        expiration: height + crate::EXPIRATION_HEIGHT_DELTA,
    }
}

impl AccountInfo {
    /// The pools of the account.
    pub fn pools(&self) -> (r: PoolMask)
        ensures
            r.0 == presence_mask(self.transparent is Some, self.sapling is Some, self.orchard is Some),
    {
        let t: u8 = if self.transparent.is_some() { 1 } else { 0 };
        let s: u8 = if self.sapling.is_some() { 2 } else { 0 };
        let o: u8 = if self.orchard.is_some() { 4 } else { 0 };
        PoolMask(t | s | o)
    }

    /// The account restricted to the pools of `pools`.
    pub fn select_pools(self, pools: PoolMask) -> (r: OptionAccountInfo)
        ensures
            r.account == self.account,
            r.name == self.name,
            r.seed == self.seed,
            r.aindex == self.aindex,
            r.saved == self.saved,
            r.transparent == if pools.0 & 1 != 0 { self.transparent } else { None },
            r.sapling == if pools.0 & 2 != 0 { self.sapling } else { None },
            r.orchard == if pools.0 & 4 != 0 { self.orchard } else { None },
    {
        let p = pools.0;
        OptionAccountInfo {
            account: self.account,
            name: self.name,
            seed: self.seed,
            aindex: self.aindex,
            saved: self.saved,
            transparent: if p & 1 != 0 { self.transparent } else { None },
            sapling: if p & 2 != 0 { self.sapling } else { None },
            orchard: if p & 4 != 0 { self.orchard } else { None },
        }
    }

    /// The address of the account with its receivers of the pools in
    /// `pool_mask` (see `account_address`).
    pub fn to_address(&self, network: &crate::chain::Network, pool_mask: PoolMask) -> (r: Option<String>)
        ensures
            crate::data::opt_str_view(r) == account_address(*self, *network, pool_mask.0),
    {
        let mask = pool_mask.0;
        let t: Option<crate::address::TransparentAddress> = if mask & 1 != 0 {
            match &self.transparent {
                Some(ti) => Some(ti.addr),
                None => None,
            }
        } else {
            None
        };
        let s: Option<[u8; 43]> = if mask & 2 != 0 {
            match &self.sapling {
                Some(si) => Some(si.addr),
                None => None,
            }
        } else {
            None
        };
        let o: Option<[u8; 43]> = if mask & 4 != 0 {
            match &self.orchard {
                Some(oi) => Some(oi.addr),
                None => None,
            }
        } else {
            None
        };
        if t.is_none() && s.is_none() && o.is_none() {
            return None;
        }
        Some(crate::address::address_from_receivers(*network, t, s, o))
    }

    /// The addresses of the account for each single pool.
    pub fn to_addresses(&self, network: &crate::chain::Network) -> (r: crate::txdetails::Addresses)
        ensures
            crate::data::opt_str_view(r.transparent) == account_address(*self, *network, 1),
            crate::data::opt_str_view(r.sapling) == account_address(*self, *network, 2),
            crate::data::opt_str_view(r.orchard) == account_address(*self, *network, 4),
    {
        crate::txdetails::Addresses {
            transparent: self.to_address(network, PoolMask(1)),
            sapling: self.to_address(network, PoolMask(2)),
            orchard: self.to_address(network, PoolMask(4)),
        }
    }
}

impl OptionAccountInfo {
    /// The mask of the pools that are kept.
    pub fn to_mask(&self) -> (r: u8)
        ensures
            r == presence_mask(self.transparent is Some, self.sapling is Some, self.orchard is Some),
    {
        let t: u8 = if self.transparent.is_some() { 1 } else { 0 };
        let s: u8 = if self.sapling.is_some() { 2 } else { 0 };
        let o: u8 = if self.orchard.is_some() { 4 } else { 0 };
        t | s | o
    }
}

/// What an account can sign with: 0 without the pool, 1 with its viewing
/// key only, 3 with its spending key; and whether it has a seed.
pub fn get_account_signing_capabilities(ai: &AccountInfo) -> (r: AccountSigningCapabilitiesT)
    ensures
        r.seed == ai.seed is Some,
        r.transparent == key_level(ai.transparent is Some, ai.transparent matches Some(t) && t.sk is Some),
        r.sapling == key_level(ai.sapling is Some, ai.sapling matches Some(s) && s.sk is Some),
        r.orchard == key_level(ai.orchard is Some, ai.orchard matches Some(o) && o.sk is Some),
{
    let transparent: u8 = match &ai.transparent {
        Some(ti) => if ti.sk.is_some() { 3 } else { 1 },
        None => 0,
    };
    let sapling: u8 = match &ai.sapling {
        Some(si) => if si.sk.is_some() { 3 } else { 1 },
        None => 0,
    };
    let orchard: u8 = match &ai.orchard {
        Some(oi) => if oi.sk.is_some() { 3 } else { 1 },
        None => 0,
    };
    AccountSigningCapabilitiesT { seed: ai.seed.is_some(), transparent, sapling, orchard }
}

/// The capabilities in one byte: transparent in bits 0-1, Sapling in bits
/// 2-3, Orchard in bits 4-5, the seed in bit 6.
pub open spec fn capabilities_byte(c: AccountSigningCapabilitiesT) -> u8 {
    c.transparent | ((c.sapling << 2u8) as u8) | ((c.orchard << 4u8) as u8) | (if c.seed { 64u8 } else { 0u8 })
}

impl From<&AccountSigningCapabilitiesT> for u8 {
    fn from(value: &AccountSigningCapabilitiesT) -> (r: u8) {
        value.transparent | (value.sapling << 2u8) | (value.orchard << 4u8) | (if value.seed { 64u8 } else { 0u8 })
    }
}

impl vstd::std_specs::convert::FromSpecImpl<&AccountSigningCapabilitiesT> for u8 {
    open spec fn obeys_from_spec() -> bool {
        true
    }

    open spec fn from_spec(v: &AccountSigningCapabilitiesT) -> u8 {
        capabilities_byte(*v)
    }
}

/// Capabilities of levels 0, 1 and 3 read back from their byte.
pub proof fn lemma_capabilities_byte(c: AccountSigningCapabilitiesT)
    requires
        c.transparent == 0 || c.transparent == 1 || c.transparent == 3,
        c.sapling == 0 || c.sapling == 1 || c.sapling == 3,
        c.orchard == 0 || c.orchard == 1 || c.orchard == 3,
    ensures
        capabilities_byte(c) & 3 == c.transparent,
        (capabilities_byte(c) >> 2u8) & 3 == c.sapling,
        (capabilities_byte(c) >> 4u8) & 3 == c.orchard,
        ((capabilities_byte(c) >> 6u8) & 1 == 1) == c.seed,
{
    let t = c.transparent;
    let s = c.sapling;
    let o = c.orchard;
    let d: u8 = if c.seed { 64u8 } else { 0u8 };
    assert(t < 4 && s < 4 && o < 4 && (d == 0 || d == 64) ==> {
        let b = t | ((s << 2u8) as u8) | ((o << 4u8) as u8) | d;
        &&& b & 3 == t
        &&& (b >> 2u8) & 3 == s
        &&& (b >> 4u8) & 3 == o
        &&& ((b >> 6u8) & 1 == 1) == (d == 64)
    }) by (bit_vector);
}

/// What a downgrade does to the keys of one pool.
#[derive(Clone, Copy, Debug, PartialEq, Eq, Structural)]
pub enum KeyAction {
    /// Keep the keys as they are.
    Keep,
    /// Drop the spending key, keep the viewing key.
    DropSpendingKey,
    /// Drop the pool from the account.
    DropPool,
}

/// What a downgrade does to an account.
#[derive(Clone, Copy, Debug)]
pub struct DowngradePlan {
    pub drop_seed: bool,
    pub transparent: KeyAction,
    pub sapling: KeyAction,
    pub orchard: KeyAction,
}

/// Why an account cannot be downgraded as asked.
#[derive(Clone, Copy, Debug, PartialEq, Eq, Structural)]
pub enum DowngradeError {
    /// The account would keep no key at all.
    NoKeyLeft,
}

/// The action for a pool of level `l`: 1 keeps the viewing key only, 0
/// drops the pool, any other level keeps it.
pub open spec fn key_action(l: u8) -> KeyAction {
    if l == 1 {
        KeyAction::DropSpendingKey
    } else if l == 0 {
        KeyAction::DropPool
    } else {
        KeyAction::Keep
    }
}

fn action(l: u8) -> (r: KeyAction)
    ensures
        r == key_action(l),
{
    if l == 1 {
        KeyAction::DropSpendingKey
    } else if l == 0 {
        KeyAction::DropPool
    } else {
        KeyAction::Keep
    }
}

/// The downgrade that leaves an account with the capabilities `c`: it is
/// refused when no pool would keep a key.
pub fn downgrade_plan(c: &AccountSigningCapabilitiesT) -> (r: Result<DowngradePlan, DowngradeError>)
    ensures
        match r {
            Ok(p) => {
                &&& !(c.transparent == 0 && c.sapling == 0 && c.orchard == 0)
                &&& p.drop_seed == !c.seed
                &&& p.transparent == key_action(c.transparent)
                &&& p.sapling == key_action(c.sapling)
                &&& p.orchard == key_action(c.orchard)
            },
            Err(e) => e == DowngradeError::NoKeyLeft && c.transparent == 0 && c.sapling == 0 && c.orchard == 0,
        },
{
    if c.transparent == 0 && c.sapling == 0 && c.orchard == 0 {
        return Err(DowngradeError::NoKeyLeft);
    }
    Ok(DowngradePlan {
        drop_seed: !c.seed,
        transparent: action(c.transparent),
        sapling: action(c.sapling),
        orchard: action(c.orchard),
    })
}

} // verus!
