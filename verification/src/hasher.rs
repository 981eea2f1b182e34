//! The hash functions of the Sapling and Orchard note commitment trees.
use vstd::prelude::*;

use incrementalmerkletree::{Hashable, Level};
use orchard::tree::MerkleHashOrchard;

use crate::witness::Hasher;

verus! {

/// The leaf of an empty Sapling position: the field element one, in
/// little-endian bytes.
pub open spec fn sapling_uncommitted() -> crate::witness::Hash {
    [1u8, 0u8, 0u8, 0u8, 0u8, 0u8, 0u8, 0u8, 0u8, 0u8, 0u8, 0u8, 0u8, 0u8, 0u8, 0u8, 0u8, 0u8, 0u8, 0u8, 0u8, 0u8, 0u8, 0u8, 0u8, 0u8, 0u8, 0u8, 0u8, 0u8, 0u8, 0u8]
}

/// The leaf of an empty Orchard position: the field element two, in
/// little-endian bytes.
pub open spec fn orchard_uncommitted() -> crate::witness::Hash {
    [2u8, 0u8, 0u8, 0u8, 0u8, 0u8, 0u8, 0u8, 0u8, 0u8, 0u8, 0u8, 0u8, 0u8, 0u8, 0u8, 0u8, 0u8, 0u8, 0u8, 0u8, 0u8, 0u8, 0u8, 0u8, 0u8, 0u8, 0u8, 0u8, 0u8, 0u8, 0u8]
}

/// The node of all zero bytes.
pub open spec fn zero_node() -> crate::witness::Hash {
    [0u8, 0u8, 0u8, 0u8, 0u8, 0u8, 0u8, 0u8, 0u8, 0u8, 0u8, 0u8, 0u8, 0u8, 0u8, 0u8, 0u8, 0u8, 0u8, 0u8, 0u8, 0u8, 0u8, 0u8, 0u8, 0u8, 0u8, 0u8, 0u8, 0u8, 0u8, 0u8]
}

/// The parent of `l` and `r` at level `depth` of the Sapling tree
/// (`MerkleCRH^Sapling`).
pub uninterp spec fn sapling_node_hash(depth: u8, l: crate::witness::Hash, r: crate::witness::Hash) -> crate::witness::Hash;

/// The parent of `l` and `r` at level `depth` of the Orchard tree
/// (`MerkleCRH^Orchard`), where both are canonical encodings of field
/// elements.
pub uninterp spec fn orchard_node_hash(depth: u8, l: crate::witness::Hash, r: crate::witness::Hash) -> Option<crate::witness::Hash>;

/// The empty Sapling leaf.
///
/// Calls `Hashable::empty_leaf` for `sapling_crypto::Node`, which is
/// `bls12_381::Scalar::one()`, and `Node::to_bytes`, its little-endian
/// encoding.
#[verifier::external_body]
fn sapling_empty_leaf() -> (r: crate::witness::Hash)
    ensures
        r == sapling_uncommitted(),
{
    <sapling_crypto::Node as Hashable>::empty_leaf().to_bytes()
}

/// A Sapling parent node.
///
/// Calls `sapling_crypto::merkle_hash`, which asserts that the depth is
/// under 63.
#[verifier::external_body]
fn sapling_merkle_hash(depth: u8, l: &crate::witness::Hash, r: &crate::witness::Hash) -> (h: crate::witness::Hash)
    requires
        depth < 63,
    ensures
        h == sapling_node_hash(depth, *l, *r),
{
    sapling_crypto::merkle_hash(depth as usize, l, r)
}

/// The empty Orchard leaf.
///
/// Calls `Hashable::empty_leaf` for `MerkleHashOrchard`, which is
/// `pallas::Base::from(2)`, and `to_bytes`, its little-endian encoding.
#[verifier::external_body]
fn orchard_empty_leaf() -> (r: crate::witness::Hash)
    ensures
        r == orchard_uncommitted(),
{
    MerkleHashOrchard::empty_leaf().to_bytes()
}

/// An Orchard parent node.
///
/// Reads both children with `MerkleHashOrchard::from_bytes`, which refuses
/// a non-canonical encoding (then the result is `None`), and calls
/// `Hashable::combine` at `Level::from(depth)`, then `to_bytes`.
#[verifier::external_body]
fn orchard_merkle_hash(depth: u8, l: &crate::witness::Hash, r: &crate::witness::Hash) -> (h: Option<crate::witness::Hash>)
    ensures
        h == orchard_node_hash(depth, *l, *r),
{
    let l = Option::<MerkleHashOrchard>::from(MerkleHashOrchard::from_bytes(l))?;
    let r = Option::<MerkleHashOrchard>::from(MerkleHashOrchard::from_bytes(r))?;
    Some(MerkleHashOrchard::combine(Level::from(depth), &l, &r).to_bytes())
}

/// The hash of the Sapling note commitment tree.
#[derive(Clone, Copy, Debug, Default)]
pub struct SaplingHasher;

/// The hash of the Orchard note commitment tree. A child that is not a
/// canonical encoding of a field element (no node of a tree is one) gives
/// the zero node.
#[derive(Clone, Copy, Debug, Default)]
pub struct OrchardHasher;

/// The Orchard parent node, or zero where a child is not canonical.
pub open spec fn orchard_parent(depth: u8, l: crate::witness::Hash, r: crate::witness::Hash) -> crate::witness::Hash {
    match orchard_node_hash(depth, l, r) {
        Some(h) => h,
        None => zero_node(),
    }
}

impl Hasher for SaplingHasher {
    open spec fn spec_empty(&self) -> crate::witness::Hash {
        sapling_uncommitted()
    }

    open spec fn spec_combine(&self, depth: u8, l: crate::witness::Hash, r: crate::witness::Hash) -> crate::witness::Hash {
        sapling_node_hash(depth, l, r)
    }

    fn empty(&self) -> (r: crate::witness::Hash) {
        sapling_empty_leaf()
    }

    fn combine(&self, depth: u8, l: &crate::witness::Hash, r: &crate::witness::Hash) -> (h: crate::witness::Hash) {
        sapling_merkle_hash(depth, l, r)
    }

    fn parallel_combine(&self, depth: u8, layer: &[crate::witness::Hash], pairs: usize) -> (r: Vec<crate::witness::Hash>) {
        let mut out: Vec<crate::witness::Hash> = Vec::new();
        let mut k: usize = 0;
        while k < pairs
            invariant
                k <= pairs,
                depth < 32,
                2 * pairs <= layer@.len(),
                out@.len() == k,
                forall|j: int| 0 <= j < k ==> #[trigger] out@[j] == sapling_node_hash(depth, layer@[2 * j], layer@[2 * j + 1]),
            decreases pairs - k,
        {
            assert(layer@.len() == layer.len());
            out.push(sapling_merkle_hash(depth, &layer[2 * k], &layer[2 * k + 1]));
            k += 1;
        }
        out
    }
}

impl Hasher for OrchardHasher {
    open spec fn spec_empty(&self) -> crate::witness::Hash {
        orchard_uncommitted()
    }

    open spec fn spec_combine(&self, depth: u8, l: crate::witness::Hash, r: crate::witness::Hash) -> crate::witness::Hash {
        orchard_parent(depth, l, r)
    }

    fn empty(&self) -> (r: crate::witness::Hash) {
        orchard_empty_leaf()
    }

    fn combine(&self, depth: u8, l: &crate::witness::Hash, r: &crate::witness::Hash) -> (h: crate::witness::Hash) {
        match orchard_merkle_hash(depth, l, r) {
            Some(h) => h,
            None => [0u8, 0u8, 0u8, 0u8, 0u8, 0u8, 0u8, 0u8, 0u8, 0u8, 0u8, 0u8, 0u8, 0u8, 0u8, 0u8, 0u8, 0u8, 0u8, 0u8, 0u8, 0u8, 0u8, 0u8, 0u8, 0u8, 0u8, 0u8, 0u8, 0u8, 0u8, 0u8],
        }
    }

    fn parallel_combine(&self, depth: u8, layer: &[crate::witness::Hash], pairs: usize) -> (r: Vec<crate::witness::Hash>) {
        let mut out: Vec<crate::witness::Hash> = Vec::new();
        let mut k: usize = 0;
        while k < pairs
            invariant
                k <= pairs,
                depth < 32,
                2 * pairs <= layer@.len(),
                out@.len() == k,
                forall|j: int| 0 <= j < k ==> #[trigger] out@[j] == orchard_parent(depth, layer@[2 * j], layer@[2 * j + 1]),
            decreases pairs - k,
        {
            assert(layer@.len() == layer.len());
            out.push(self.combine(depth, &layer[2 * k], &layer[2 * k + 1]));
            k += 1;
        }
        out
    }
}

} // verus!
