use zcash_warp::witness::{AuthPath, Edge, Hasher, Witness};

/// A toy hash: mixes the level and both children bytewise.
#[derive(Debug, Default)]
struct MixHasher;

fn mix(depth: u8, l: &zcash_warp::witness::Hash, r: &zcash_warp::witness::Hash) -> zcash_warp::witness::Hash {
    let mut h = [0u8; 32];
    for i in 0..32 {
        h[i] = l[i].wrapping_mul(3).wrapping_add(r[i].wrapping_mul(7)).wrapping_add(depth).wrapping_add(i as u8);
    }
    h
}

impl Hasher for MixHasher {
    fn spec_empty(&self) -> zcash_warp::witness::Hash {
        [0u8; 32]
    }

    fn spec_combine(&self, depth: u8, l: zcash_warp::witness::Hash, r: zcash_warp::witness::Hash) -> zcash_warp::witness::Hash {
        mix(depth, &l, &r)
    }

    fn empty(&self) -> zcash_warp::witness::Hash {
        [0u8; 32]
    }

    fn combine(&self, depth: u8, l: &zcash_warp::witness::Hash, r: &zcash_warp::witness::Hash) -> zcash_warp::witness::Hash {
        mix(depth, l, r)
    }

    fn parallel_combine(&self, depth: u8, layer: &[zcash_warp::witness::Hash], pairs: usize) -> Vec<zcash_warp::witness::Hash> {
        (0..pairs).map(|k| mix(depth, &layer[2 * k], &layer[2 * k + 1])).collect()
    }
}

fn node(b: u8) -> zcash_warp::witness::Hash {
    [b; 32]
}

fn root_from_path(value: zcash_warp::witness::Hash, position: u32, path: &AuthPath) -> zcash_warp::witness::Hash {
    let mut h = value;
    for i in 0..32 {
        h = if (position >> i) & 1 == 0 { mix(i as u8, &h, &path.0[i]) } else { mix(i as u8, &path.0[i], &h) };
    }
    h
}

fn empty_roots() -> AuthPath {
    let mut roots = [[0u8; 32]; 32];
    let mut e = [0u8; 32];
    for i in 0..32 {
        roots[i] = e;
        e = mix(i as u8, &e, &e);
    }
    AuthPath(roots)
}

#[test]
fn auth_path_takes_edge_at_first_gap() {
    let mut ommers: [Option<zcash_warp::witness::Hash>; 32] = [None; 32];
    ommers[0] = Some(node(1));
    ommers[2] = Some(node(3));
    // position 0b0001: level 0 is a right child, levels 1.. are left children
    let w = Witness { value: node(9), position: 1, ommers: Edge(ommers) };
    let edge = AuthPath([node(50); 32]);
    let er = empty_roots();
    let path = w.build_auth_path(&edge, &er);
    assert_eq!(path.0[0], node(1));
    assert_eq!(path.0[1], node(50));
    assert_eq!(path.0[2], node(3));
    for i in 3..32 {
        assert_eq!(path.0[i], er.0[i]);
    }
}

#[test]
fn root_matches_root_of_auth_path() {
    let mut ommers: [Option<zcash_warp::witness::Hash>; 32] = [None; 32];
    ommers[0] = Some(node(1));
    ommers[1] = Some(node(2));
    ommers[4] = Some(node(5));
    // bits 0, 1 and 4 set: those levels are right children with known ommers
    let position: u32 = 0b10011;
    let w = Witness { value: node(9), position, ommers: Edge(ommers) };
    let edge = AuthPath([node(77); 32]);
    let h = MixHasher;
    let path = w.build_auth_path(&edge, &empty_roots());
    assert_eq!(w.root(&edge, &h), root_from_path(node(9), position, &path));
}

#[test]
fn complete_witness_root_ignores_edge() {
    let ommers: [Option<zcash_warp::witness::Hash>; 32] = core::array::from_fn(|i| Some(node(i as u8)));
    let w = Witness { value: node(200), position: 0xDEAD_BEEF, ommers: Edge(ommers) };
    let h = MixHasher;
    assert_eq!(w.root(&AuthPath([node(1); 32]), &h), w.root(&AuthPath([node(2); 32]), &h));
}
