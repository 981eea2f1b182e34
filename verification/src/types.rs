//! Pool masks and checkpoint heights.
//!
//! Pools are numbered 0 (transparent), 1 (Sapling) and 2 (Orchard); a pool
//! mask has bit `p` set for each pool `p` it selects.
use vstd::prelude::*;

verus! {

/// A block height at which the wallet holds a checkpoint.
#[derive(Clone, Copy, Debug)]
pub struct CheckpointHeight(pub u32);

impl CheckpointHeight {
    /// The height itself.
    pub fn to_u32(self) -> (r: u32)
        ensures
            r == self.0,
    {
        self.0
    }
}

/// A set of pools, one bit per pool.
#[derive(Clone, Copy, Debug)]
pub struct PoolMask(pub u8);

/// The preferred pool of a mask: Orchard before Sapling before transparent.
pub open spec fn mask_to_pool(m: u8) -> Option<u8> {
    if m & 4 != 0 {
        Some(2u8)
    } else if m & 2 != 0 {
        Some(1u8)
    } else if m & 1 != 0 {
        Some(0u8)
    } else {
        None
    }
}

/// Whether exactly one bit of the mask is set.
pub open spec fn is_single_pool(m: u8) -> bool {
    m == 1 || m == 2 || m == 4 || m == 8 || m == 16 || m == 32 || m == 64 || m == 128
}

/// The mask of a single pool.
pub open spec fn pool_bit(pool: u8) -> u8 {
    if pool == 0 {
        1u8
    } else if pool == 1 {
        2u8
    } else if pool == 2 {
        4u8
    } else if pool == 3 {
        8u8
    } else if pool == 4 {
        16u8
    } else if pool == 5 {
        32u8
    } else if pool == 6 {
        64u8
    } else {
        128u8
    }
}

impl PoolMask {
    /// The mask that selects `pool` alone.
    pub fn from_pool(pool: u8) -> (r: Self)
        requires
            pool < 8,
        ensures
            r.0 == pool_bit(pool),
    {
        let r: u8 = 1u8 << pool;
        assert(pool < 8 ==> (1u8 << pool) == pool_bit(pool)) by (bit_vector);
        PoolMask(r)
    }

    /// The mask of an optional pool: no pool selects nothing.
    pub fn from_option(pool: Option<u8>) -> (r: Self)
        requires
            pool matches Some(p) ==> p < 8,
        ensures
            r.0 == match pool {
                Some(p) => pool_bit(p),
                None => 0u8,
            },
    {
        match pool {
            Some(p) => Self::from_pool(p),
            None => PoolMask(0),
        }
    }

    /// The preferred pool of the mask: Orchard, then Sapling, then transparent.
    pub fn to_pool(&self) -> (r: Option<u8>)
        ensures
            r == mask_to_pool(self.0),
    {
        if self.0 & 4 != 0 {
            return Some(2);
        }
        if self.0 & 2 != 0 {
            return Some(1);
        }
        if self.0 & 1 != 0 {
            return Some(0);
        }
        None
    }

    /// Whether the mask selects exactly one pool.
    pub fn single_pool(&self) -> (r: bool)
        ensures
            r == is_single_pool(self.0),
    {
        let m = self.0;
        if m != 0 {
            let m1: u8 = m - 1;
            let r = (m & m1) == 0;
            assert(m != 0 && m1 == m - 1 ==> (((m & m1) == 0u8) <==> (m == 1u8 || m == 2u8 || m == 4u8
                || m == 8u8 || m == 16u8 || m == 32u8 || m == 64u8 || m == 128u8))) by (bit_vector);
            r
        } else {
            false
        }
    }
}

/// A single pool's mask selects exactly one pool, and that pool is preferred.
pub proof fn lemma_from_pool_single(pool: u8)
    requires
        pool < 3,
    ensures
        is_single_pool(pool_bit(pool)),
        mask_to_pool(pool_bit(pool)) == Some(pool),
{
    assert(1u8 & 4 == 0 && 1u8 & 2 == 0 && 1u8 & 1 != 0) by (bit_vector);
    assert(2u8 & 4 == 0 && 2u8 & 2 != 0) by (bit_vector);
    assert(4u8 & 4 != 0) by (bit_vector);
}

} // verus!
