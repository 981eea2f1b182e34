use incrementalmerkletree::{Hashable, Level};
use orchard::tree::MerkleHashOrchard;
use zcash_warp::hasher::{OrchardHasher, SaplingHasher};
use zcash_warp::witness::{AuthPath, Edge, Hasher, Witness};

#[test]
fn sapling_empty_leaf_and_parent() {
    let h = SaplingHasher;
    let mut one = [0u8; 32];
    one[0] = 1;
    assert_eq!(h.empty(), one);
    let e = h.empty();
    assert_eq!(h.combine(0, &e, &e), sapling_crypto::merkle_hash(0, &e, &e));
    assert_eq!(h.combine(0, &e, &e), <sapling_crypto::Node as Hashable>::empty_root(Level::from(1)).to_bytes());
}

#[test]
fn orchard_empty_leaf_and_parent() {
    let h = OrchardHasher;
    let mut two = [0u8; 32];
    two[0] = 2;
    assert_eq!(h.empty(), two);
    let e = h.empty();
    assert_eq!(h.combine(0, &e, &e), MerkleHashOrchard::empty_root(Level::from(1)).to_bytes());
    // a child that is not a field element gives the zero node
    assert_eq!(h.combine(0, &[0xffu8; 32], &e), [0u8; 32]);
}

fn empty_tree_witness<H: Hasher>(h: &H) -> (Witness, AuthPath) {
    let leaf = h.empty();
    let mut edge = [[0u8; 32]; 32];
    edge[0] = leaf;
    (Witness { value: leaf, position: 0, ommers: Edge([None; 32]) }, AuthPath(edge))
}

#[test]
fn sapling_root_of_the_empty_tree() {
    let (w, edge) = empty_tree_witness(&SaplingHasher);
    let root = w.root(&edge, &SaplingHasher);
    assert_eq!(root, <sapling_crypto::Node as Hashable>::empty_root(Level::from(32)).to_bytes());
}

#[test]
fn orchard_root_of_the_empty_tree() {
    let (w, edge) = empty_tree_witness(&OrchardHasher);
    let root = w.root(&edge, &OrchardHasher);
    assert_eq!(root, MerkleHashOrchard::empty_root(Level::from(32)).to_bytes());
}

#[test]
fn parallel_combine_pairs_a_layer() {
    let h = SaplingHasher;
    let e = h.empty();
    let layer = vec![e, e, e, e];
    assert_eq!(h.parallel_combine(0, &layer, 2), vec![h.combine(0, &e, &e); 2]);
}
