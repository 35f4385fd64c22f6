//! Composition of the eight D4 orientations, by a lookup table indexed by a
//! 3-bit encoding `(swap << 2) | (flip_i << 1) | flip_j`.
use vstd::prelude::*;

use crate::orientation::{spec_map_ij, Ori};

verus! {

/// The 3-bit code of a D4 orientation; `Each` and `Real` have none.
pub open spec fn spec_d4_to_id(o: Ori) -> Option<u8> {
    match o {
        Ori::D4 { swap, flip_i, flip_j } => Some(
            ((if swap {
                4u8
            } else {
                0u8
            }) + (if flip_i {
                2u8
            } else {
                0u8
            }) + (if flip_j {
                1u8
            } else {
                0u8
            })) as u8,
        ),
        _ => None,
    }
}

/// The D4 orientation with code `id` (`id < 8`).
pub open spec fn spec_id_to_d4(id: u8) -> Ori {
    Ori::D4 { swap: id & 4 != 0, flip_i: id & 2 != 0, flip_j: id & 1 != 0 }
}

/// The product of two D4 elements: the transposes cancel in pairs, and when
/// `a` transposes, the reversals of `b` trade axes before they combine with
/// those of `a`.
pub open spec fn spec_compose(a: Ori, b: Ori) -> Option<Ori> {
    match (a, b) {
        (
            Ori::D4 { swap: sa, flip_i: ia, flip_j: ja },
            Ori::D4 { swap: sb, flip_i: ib, flip_j: jb },
        ) => Some(
            Ori::D4 {
                swap: sa != sb,
                flip_i: ia != (if sa {
                    jb
                } else {
                    ib
                }),
                flip_j: ja != (if sa {
                    ib
                } else {
                    jb
                }),
            },
        ),
        _ => None,
    }
}

/// The identity orientation `H`.
pub open spec fn identity() -> Ori {
    Ori::D4 { swap: false, flip_i: false, flip_j: false }
}

/// The transpose `Z`.
pub open spec fn transpose() -> Ori {
    Ori::D4 { swap: true, flip_i: false, flip_j: false }
}

/// Row `a` holds the codes of `a` composed with each `b`.
pub const D4_COMP: [[u8; 8]; 8] = [
    [0, 1, 2, 3, 4, 5, 6, 7],
    [1, 0, 3, 2, 5, 4, 7, 6],
    [2, 3, 0, 1, 6, 7, 4, 5],
    [3, 2, 1, 0, 7, 6, 5, 4],
    [4, 6, 5, 7, 0, 2, 1, 3],
    [5, 7, 4, 6, 1, 3, 0, 2],
    [6, 4, 7, 5, 2, 0, 3, 1],
    [7, 5, 6, 4, 3, 1, 2, 0],
];

/// Encodes a D4 orientation as `(swap << 2) | (flip_i << 1) | flip_j`.
pub fn d4_to_id(ori: Ori) -> (r: Option<u8>)
    ensures
        r == spec_d4_to_id(ori),
        r matches Some(id) ==> id < 8 && spec_id_to_d4(id) == ori,
{
    match ori {
        Ori::D4 { swap, flip_i, flip_j } => {
            let id: u8 = (if swap {
                4u8
            } else {
                0u8
            }) + (if flip_i {
                2u8
            } else {
                0u8
            }) + (if flip_j {
                1u8
            } else {
                0u8
            });
            proof {
                lemma_id_bits(swap, flip_i, flip_j);
            }
            Some(id)
        },
        _ => None,
    }
}

/// Decodes a 3-bit code.
pub fn id_to_d4(id: u8) -> (r: Ori)
    requires
        id < 8,
    ensures
        r == spec_id_to_d4(id),
        spec_d4_to_id(r) == Some(id),
{
    proof {
        lemma_id_round_trip(id);
    }
    Ori::D4 { swap: (id & 4) != 0, flip_i: (id & 2) != 0, flip_j: (id & 1) != 0 }
}

proof fn lemma_id_bits(s: bool, i: bool, j: bool)
    ensures
        ({
            let id = spec_d4_to_id(Ori::D4 { swap: s, flip_i: i, flip_j: j })->Some_0;
            id < 8 && spec_id_to_d4(id) == Ori::D4 { swap: s, flip_i: i, flip_j: j }
        }),
{
    let id = spec_d4_to_id(Ori::D4 { swap: s, flip_i: i, flip_j: j })->Some_0;
    assert(id < 8);
    assert(forall|x: u8|
        x < 8 ==> (x & 4 != 0) == (x >= 4) && (x & 2 != 0) == (x % 4 >= 2) && (x & 1 != 0) == (x
            % 2 == 1)) by (bit_vector);
}

proof fn lemma_id_round_trip(id: u8)
    requires
        id < 8,
    ensures
        spec_d4_to_id(spec_id_to_d4(id)) == Some(id),
{
    assert(forall|x: u8|
        x < 8 ==> (x & 4 != 0) == (x >= 4) && (x & 2 != 0) == (x % 4 >= 2) && (x & 1 != 0) == (x
            % 2 == 1)) by (bit_vector);
}

/// Every entry of the table is the code of the product of its row and column.
proof fn lemma_table_entries(a: u8, b: u8)
    requires
        a < 8,
        b < 8,
    ensures
        D4_COMP@[a as int]@[b as int] < 8,
        spec_compose(spec_id_to_d4(a), spec_id_to_d4(b)) == Some(
            spec_id_to_d4(D4_COMP@[a as int]@[b as int]),
        ),
{
    assert(forall|x: u8|
        x < 8 ==> (x & 4 != 0) == (x >= 4) && (x & 2 != 0) == (x % 4 >= 2) && (x & 1 != 0) == (x
            % 2 == 1)) by (bit_vector);
    assert(D4_COMP@[0]@ == seq![0u8, 1, 2, 3, 4, 5, 6, 7]);
    assert(D4_COMP@[1]@ == seq![1u8, 0, 3, 2, 5, 4, 7, 6]);
    assert(D4_COMP@[2]@ == seq![2u8, 3, 0, 1, 6, 7, 4, 5]);
    assert(D4_COMP@[3]@ == seq![3u8, 2, 1, 0, 7, 6, 5, 4]);
    assert(D4_COMP@[4]@ == seq![4u8, 6, 5, 7, 0, 2, 1, 3]);
    assert(D4_COMP@[5]@ == seq![5u8, 7, 4, 6, 1, 3, 0, 2]);
    assert(D4_COMP@[6]@ == seq![6u8, 4, 7, 5, 2, 0, 3, 1]);
    assert(D4_COMP@[7]@ == seq![7u8, 5, 6, 4, 3, 1, 2, 0]);
}

/// Composes two orientations by table lookup; `None` when either is `Each`
/// or `Real`, which are not group elements.
pub fn compose(a: Ori, b: Ori) -> (r: Option<Ori>)
    ensures
        r == spec_compose(a, b),
{
    let id_a = match d4_to_id(a) {
        Some(x) => x,
        None => return None,
    };
    let id_b = match d4_to_id(b) {
        Some(x) => x,
        None => return None,
    };
    proof {
        lemma_table_entries(id_a, id_b);
    }
    let id_c = D4_COMP[id_a as usize][id_b as usize];
    Some(id_to_d4(id_c))
}

/// `H` is a two-sided identity for every D4 orientation.
pub proof fn lemma_compose_identity(o: Ori)
    requires
        o is D4,
    ensures
        spec_compose(identity(), o) == Some(o),
        spec_compose(o, identity()) == Some(o),
{
}

/// The transpose is its own inverse.
pub proof fn lemma_transpose_involution()
    ensures
        spec_compose(transpose(), transpose()) == Some(identity()),
{
}

/// Composition is associative on the D4 orientations.
pub proof fn lemma_compose_associative(a: Ori, b: Ori, c: Ori)
    requires
        a is D4,
        b is D4,
        c is D4,
    ensures
        spec_compose(spec_compose(a, b)->Some_0, c) == spec_compose(a, spec_compose(b, c)->Some_0),
        spec_compose(a, b) is Some,
        spec_compose(b, c) is Some,
{
}

/// Every D4 orientation has a two-sided inverse.
pub proof fn lemma_inverse_exists(a: Ori)
    requires
        a is D4,
    ensures
        exists|b: Ori|
            b is D4 && spec_compose(a, b) == Some(identity()) && #[trigger] spec_compose(b, a)
                == Some(identity()),
{
    let b = match a {
        Ori::D4 { swap: true, flip_i, flip_j } => Ori::D4 {
            swap: true,
            flip_i: flip_j,
            flip_j: flip_i,
        },
        _ => a,
    };
    assert(spec_compose(a, b) == Some(identity()) && spec_compose(b, a) == Some(identity()));
}

/// Composition with `Each` or `Real`, on either side, is undefined.
pub proof fn lemma_compose_modes_undefined(o: Ori, m: Ori)
    requires
        m is Each || m is Real,
    ensures
        spec_compose(o, m) is None,
        spec_compose(m, o) is None,
{
}

/// On a square table the composite maps an index as `b` does and then `a`.
pub proof fn lemma_compose_maps_square(a: Ori, b: Ori, n: int, i: int, j: int)
    requires
        a is D4,
        b is D4,
        0 <= i < n,
        0 <= j < n,
    ensures
        spec_map_ij(spec_compose(a, b)->Some_0, n, n, i, j) == ({
            let p = spec_map_ij(b, n, n, i, j);
            spec_map_ij(a, n, n, p.0, p.1)
        }),
{
}

} // verus!
