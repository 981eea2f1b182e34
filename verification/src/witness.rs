//! Merkle witnesses of notes in the 32-level note commitment trees.
use vstd::prelude::*;

verus! {

/// Depth of the note commitment trees.
pub const MERKLE_DEPTH: usize = 32;

/// A node of a note commitment tree.
pub type Hash = [u8; 32];

/// The right-most frontier of a tree: at each level, the left sibling that is
/// still waiting for its right partner, if any.
#[derive(Clone, Copy, Debug)]
pub struct Edge(pub [Option<Hash>; 32]);

/// A Merkle authentication path: one sibling per level.
#[derive(Clone, Copy, Debug)]
pub struct AuthPath(pub [Hash; 32]);

/// A witness of a note: its commitment, its position and the siblings known so
/// far (missing siblings lie to the right and are not filled yet).
#[derive(Clone, Copy, Debug)]
pub struct Witness {
    pub value: Hash,
    pub position: u32,
    pub ommers: Edge,
}


/// Bit `i` of a position: 0 where the node is a left child at level `i`,
/// 1 where it is a right child.
pub open spec fn position_bit(position: u32, i: int) -> u32 {
    (position >> (i as u32)) & 1
}

/// Whether every level below `i` has its sibling.
pub open spec fn no_gap_before(ommers: Seq<Option<Hash>>, i: int) -> bool {
    forall|j: int| 0 <= j < i ==> (#[trigger] ommers[j]) is Some
}

/// The sibling at level `i`: the known ommer; else, at the lowest level
/// without one, the node of the tree's edge; above it, the root of an empty
/// subtree.
pub open spec fn sibling(ommers: Seq<Option<Hash>>, edge: Seq<Hash>, empty_roots: Seq<Hash>, i: int) -> Hash {
    match ommers[i] {
        Some(o) => o,
        None => if no_gap_before(ommers, i) {
            edge[i]
        } else {
            empty_roots[i]
        },
    }
}

/// Hash function of a note commitment tree.
pub trait Hasher {
    /// The leaf of an empty position.
    spec fn spec_empty(&self) -> Hash;

    /// The parent of `l` and `r` at level `depth`.
    spec fn spec_combine(&self, depth: u8, l: Hash, r: Hash) -> Hash;

    fn empty(&self) -> (r: Hash)
        ensures
            r == self.spec_empty(),
    ;

    fn combine(&self, depth: u8, l: &Hash, r: &Hash) -> (h: Hash)
        requires
            depth < 32,
        ensures
            h == self.spec_combine(depth, *l, *r),
    ;

    /// Combines the first `pairs` pairs of a layer.
    fn parallel_combine(&self, depth: u8, layer: &[Hash], pairs: usize) -> (r: Vec<Hash>)
        requires
            depth < 32,
            2 * pairs <= layer@.len(),
        ensures
            r@.len() == pairs,
            forall|k: int| 0 <= k < pairs ==> #[trigger] r@[k] == self.spec_combine(depth, layer@[2 * k], layer@[2 * k + 1]),
    ;
}

/// The root of an empty subtree of height `i`.
pub open spec fn empty_root<H: Hasher>(h: &H, i: nat) -> Hash
    decreases i,
{
    if i == 0 {
        h.spec_empty()
    } else {
        let e = empty_root(h, (i - 1) as nat);
        h.spec_combine((i - 1) as u8, e, e)
    }
}

/// The roots of empty subtrees of every height below the tree's depth.
pub open spec fn empty_roots<H: Hasher>(h: &H) -> Seq<Hash> {
    Seq::new(32, |i: int| empty_root(h, i as nat))
}

/// The node reached after `n` levels from `value` at `position`, going up
/// along `path`.
pub open spec fn path_root<H: Hasher>(h: &H, value: Hash, position: u32, path: Seq<Hash>, n: nat) -> Hash
    decreases n,
{
    if n == 0 {
        value
    } else {
        let i = n - 1;
        let below = path_root(h, value, position, path, (n - 1) as nat);
        if position_bit(position, i) == 0 {
            h.spec_combine(i as u8, below, path[i])
        } else {
            h.spec_combine(i as u8, path[i], below)
        }
    }
}

/// Halving a shifted position shifts it once more.
proof fn lemma_shift_step(x: u32, i: u32)
    requires
        i < 32,
    ensures
        (x >> i) / 2 == x >> (i + 1),
        (x >> i) & 1 == (x >> i) % 2,
        x >> 0u32 == x,
{
    assert(x >> 0u32 == x) by (bit_vector);
    assert((x >> i) / 2 == x >> (i + 1) && (x >> i) & 1 == (x >> i) % 2) by (bit_vector)
        requires
            i < 32,
    ;
}

impl Witness {
    /// A sibling may be missing only where the note's branch is a left
    /// child: what is missing lies to the right, not yet in the tree.
    pub open spec fn well_formed(&self) -> bool {
        forall|i: int| 0 <= i < 32 && (#[trigger] self.ommers.0@[i]) is None ==> position_bit(self.position, i) == 0
    }

    /// The authentication path of the note, given the tree's edge and the
    /// roots of empty subtrees.
    pub open spec fn auth_path(&self, edge: Seq<Hash>, empty_roots: Seq<Hash>) -> Seq<Hash> {
        Seq::new(32, |i: int| sibling(self.ommers.0@, edge, empty_roots, i))
    }

    /// The root of the tree that the witness and the edge describe.
    pub open spec fn spec_root<H: Hasher>(&self, h: &H, edge: Seq<Hash>) -> Hash {
        path_root(h, self.value, self.position, self.auth_path(edge, empty_roots(h)), 32)
    }

    /// The authentication path: each known ommer, the edge's node at the
    /// lowest missing level and empty subtree roots above it.
    pub fn build_auth_path(&self, edge: &AuthPath, empty_roots: &AuthPath) -> (r: AuthPath)
        requires
            self.well_formed(),
        ensures
            r.0@ == self.auth_path(edge.0@, empty_roots.0@),
    {
        let mut path: [Hash; 32] = [[0u8; 32]; 32];
        let mut p: u32 = self.position;
        let mut edge_used = false;
        let mut i: usize = 0;
        proof {
            lemma_shift_step(self.position, 0);
        }
        while i < 32
            invariant
                i <= 32,
                self.well_formed(),
                p == self.position >> (i as u32),
                edge_used <==> !no_gap_before(self.ommers.0@, i as int),
                forall|j: int| 0 <= j < i ==> path@[j] == #[trigger] sibling(self.ommers.0@, edge.0@, empty_roots.0@, j),
            decreases 32 - i,
        {
            proof {
                lemma_shift_step(self.position, i as u32);
            }
            let ommer = self.ommers.0[i];
            let node = match ommer {
                Some(o) => {
                    proof {
                        assert(no_gap_before(self.ommers.0@, i + 1) <==> no_gap_before(self.ommers.0@, i as int)) by {
                            if no_gap_before(self.ommers.0@, i as int) {
                                assert forall|j: int| 0 <= j < i + 1 implies (#[trigger] self.ommers.0@[j]) is Some by {
                                    if j < i {
                                        assert(self.ommers.0@[j] is Some);
                                    }
                                }
                            }
                        }
                    }
                    o
                },
                None => {
                    proof {
                        assert(!no_gap_before(self.ommers.0@, i + 1)) by {
                            assert(self.ommers.0@[i as int] is None);
                        }
                    }
                    if edge_used {
                        empty_roots.0[i]
                    } else {
                        edge_used = true;
                        edge.0[i]
                    }
                },
            };
            path[i] = node;
            p = p / 2;
            i = i + 1;
        }
        proof {
            assert(path@ =~= self.auth_path(edge.0@, empty_roots.0@));
        }
        AuthPath(path)
    }

    /// The root of the tree: the note's leaf hashed up along its
    /// authentication path.
    pub fn root<H: Hasher>(&self, edge: &AuthPath, h: &H) -> (r: Hash)
        requires
            self.well_formed(),
        ensures
            r == self.spec_root(h, edge.0@),
    {
        let ghost auth = self.auth_path(edge.0@, empty_roots(h));
        let mut hash: Hash = self.value;
        let mut p: u32 = self.position;
        let mut empty: Hash = h.empty();
        let mut edge_used = false;
        let mut i: usize = 0;
        proof {
            lemma_shift_step(self.position, 0);
        }
        while i < 32
            invariant
                i <= 32,
                self.well_formed(),
                auth == self.auth_path(edge.0@, empty_roots(h)),
                p == self.position >> (i as u32),
                edge_used <==> !no_gap_before(self.ommers.0@, i as int),
                hash == path_root(h, self.value, self.position, auth, i as nat),
                empty == empty_root(h, i as nat),
            decreases 32 - i,
        {
            proof {
                lemma_shift_step(self.position, i as u32);
                assert(auth[i as int] == sibling(self.ommers.0@, edge.0@, empty_roots(h), i as int));
                assert(empty_roots(h)[i as int] == empty_root(h, i as nat));
            }
            let ommer = self.ommers.0[i];
            let depth = i as u8;
            hash = match ommer {
                Some(o) => {
                    proof {
                        assert(no_gap_before(self.ommers.0@, i + 1) <==> no_gap_before(self.ommers.0@, i as int)) by {
                            if no_gap_before(self.ommers.0@, i as int) {
                                assert forall|j: int| 0 <= j < i + 1 implies (#[trigger] self.ommers.0@[j]) is Some by {
                                    if j < i {
                                        assert(self.ommers.0@[j] is Some);
                                    }
                                }
                            }
                        }
                    }
                    if p & 1 == 0 {
                        h.combine(depth, &hash, &o)
                    } else {
                        h.combine(depth, &o, &hash)
                    }
                },
                None => {
                    proof {
                        assert(!no_gap_before(self.ommers.0@, i + 1)) by {
                            assert(self.ommers.0@[i as int] is None);
                        }
                        assert(position_bit(self.position, i as int) == 0);
                    }
                    let o = if edge_used {
                        empty
                    } else {
                        edge_used = true;
                        edge.0[i]
                    };
                    h.combine(depth, &hash, &o)
                },
            };
            empty = h.combine(depth, &empty, &empty);
            p = p / 2;
            i = i + 1;
        }
        hash
    }
}

/// Where every sibling is known, the root does not depend on the tree's
/// edge.
pub proof fn lemma_root_ignores_edge<H: Hasher>(h: &H, w: Witness, edge1: Seq<Hash>, edge2: Seq<Hash>)
    requires
        forall|i: int| 0 <= i < 32 ==> (#[trigger] w.ommers.0@[i]) is Some,
    ensures
        w.spec_root(h, edge1) == w.spec_root(h, edge2),
{
    assert(w.auth_path(edge1, empty_roots(h)) =~= w.auth_path(edge2, empty_roots(h))) by {
        assert forall|i: int| 0 <= i < 32 implies w.auth_path(edge1, empty_roots(h))[i] == w.auth_path(edge2, empty_roots(h))[i] by {
            assert(w.ommers.0@[i] is Some);
        }
    }
}

/// The root is the node that the authentication path leads to when the
/// path is built from the same hasher's empty subtree roots.
pub proof fn lemma_root_from_auth_path<H: Hasher>(h: &H, w: Witness, edge: Seq<Hash>, path: Seq<Hash>)
    requires
        path == w.auth_path(edge, empty_roots(h)),
    ensures
        path_root(h, w.value, w.position, path, 32) == w.spec_root(h, edge),
{
}

} // verus!
