//! Orientations: how a logical (row, column) index maps onto the physical,
//! column-major storage. Eight are the symmetries of a rectangle (the D4
//! group: an optional transpose followed by optional axis reversals); two
//! more, `Each` and `Real`, are elementwise and scalar modes.
use vstd::prelude::*;

use crate::text::same_text;

verus! {

#[derive(Clone, Copy, Debug, PartialEq, Eq, Hash, Structural)]
pub enum Ori {
    /// `swap` transposes, then `flip_i` reverses rows and `flip_j` columns.
    D4 { swap: bool, flip_i: bool, flip_j: bool },
    /// Elementwise mode.
    Each,
    /// Scalar reduction mode.
    Real,
}

/// The dispatch class of an orientation.
#[derive(Clone, Copy, Debug, PartialEq, Eq, Hash, Structural)]
pub enum OriClass {
    /// Vectors are columns (contiguous in memory).
    ColwiseLike,
    /// Vectors are rows (strided in memory).
    RowwiseLike,
    Each,
    Real,
}

/// The axis that window operations scan along.
#[derive(Clone, Copy, Debug, PartialEq, Eq, Hash, Structural)]
pub enum VecAxis {
    AlongI,
    AlongJ,
}

/// The output shape of an aggregation.
#[derive(Clone, Copy, Debug, PartialEq, Eq, Hash, Structural)]
pub enum ReduceMode {
    /// One value per column.
    ByCols,
    /// One value per row.
    ByRows,
    /// One value in all.
    Scalar,
}

/// The orientation named `H`.
pub fn ori_h() -> (r: Ori)
    ensures
        r == (Ori::D4 { swap: false, flip_i: false, flip_j: false }),
{
    Ori::D4 { swap: false, flip_i: false, flip_j: false }
}

/// The orientation named `N`.
pub fn ori_n() -> (r: Ori)
    ensures
        r == (Ori::D4 { swap: false, flip_i: true, flip_j: false }),
{
    Ori::D4 { swap: false, flip_i: true, flip_j: false }
}

/// The orientation named `_N`.
pub fn ori_rev_n() -> (r: Ori)
    ensures
        r == (Ori::D4 { swap: false, flip_i: false, flip_j: true }),
{
    Ori::D4 { swap: false, flip_i: false, flip_j: true }
}

/// The orientation named `_H`.
pub fn ori_rev_h() -> (r: Ori)
    ensures
        r == (Ori::D4 { swap: false, flip_i: true, flip_j: true }),
{
    Ori::D4 { swap: false, flip_i: true, flip_j: true }
}

/// The orientation named `Z`.
pub fn ori_z() -> (r: Ori)
    ensures
        r == (Ori::D4 { swap: true, flip_i: false, flip_j: false }),
{
    Ori::D4 { swap: true, flip_i: false, flip_j: false }
}

/// The orientation named `S`.
pub fn ori_s() -> (r: Ori)
    ensures
        r == (Ori::D4 { swap: true, flip_i: false, flip_j: false }),
{
    Ori::D4 { swap: true, flip_i: false, flip_j: false }
}

/// The orientation named `_Z`.
pub fn ori_rev_z() -> (r: Ori)
    ensures
        r == (Ori::D4 { swap: true, flip_i: true, flip_j: false }),
{
    Ori::D4 { swap: true, flip_i: true, flip_j: false }
}

/// The orientation named `_S`.
pub fn ori_rev_s() -> (r: Ori)
    ensures
        r == (Ori::D4 { swap: true, flip_i: false, flip_j: true }),
{
    Ori::D4 { swap: true, flip_i: false, flip_j: true }
}

/// Elementwise mode, named `X`.
pub fn ori_x() -> (r: Ori)
    ensures
        r == Ori::Each,
{
    Ori::Each
}

/// Scalar reduction mode, named `R`.
pub fn ori_r() -> (r: Ori)
    ensures
        r == Ori::Real,
{
    Ori::Real
}

/// Logical `(i, j)` to physical `(row, col)`.
pub open spec fn spec_map_ij(o: Ori, nr: int, nc: int, i: int, j: int) -> (int, int) {
    match o {
        Ori::D4 { swap, flip_i, flip_j } => {
            let a = if swap {
                j
            } else {
                i
            };
            let b = if swap {
                i
            } else {
                j
            };
            (if flip_i {
                nr - 1 - a
            } else {
                a
            }, if flip_j {
                nc - 1 - b
            } else {
                b
            })
        },
        _ => (i, j),
    }
}

/// The reversals of `map_ij` stay within the physical dimensions.
pub open spec fn map_ij_defined(o: Ori, nr: int, nc: int, i: int, j: int) -> bool {
    match o {
        Ori::D4 { swap, flip_i, flip_j } => {
            &&& flip_i ==> (if swap {
                j
            } else {
                i
            }) < nr
            &&& flip_j ==> (if swap {
                i
            } else {
                j
            }) < nc
        },
        _ => true,
    }
}

pub open spec fn spec_logical_shape(o: Ori, nr: int, nc: int) -> (int, int) {
    match o {
        Ori::D4 { swap: true, .. } => (nc, nr),
        _ => (nr, nc),
    }
}

pub open spec fn spec_class(o: Ori) -> OriClass {
    match o {
        Ori::D4 { swap: false, .. } => OriClass::ColwiseLike,
        Ori::D4 { swap: true, .. } => OriClass::RowwiseLike,
        Ori::Each => OriClass::Each,
        Ori::Real => OriClass::Real,
    }
}

pub open spec fn spec_vec_axis(o: Ori) -> Option<VecAxis> {
    match o {
        Ori::D4 { swap: false, .. } => Some(VecAxis::AlongI),
        Ori::D4 { swap: true, .. } => Some(VecAxis::AlongJ),
        _ => None,
    }
}

pub open spec fn spec_reduce_mode(o: Ori) -> ReduceMode {
    match o {
        Ori::Real => ReduceMode::Scalar,
        Ori::D4 { swap: true, .. } => ReduceMode::ByRows,
        _ => ReduceMode::ByCols,
    }
}

/// The short name of each orientation; `S` shares its value with `Z` and is
/// named `Z`, and the one D4 element without a name of its own is `??`.
pub open spec fn spec_canonical_name(o: Ori) -> Seq<char> {
    match o {
        Ori::Each => "X"@,
        Ori::Real => "R"@,
        Ori::D4 { swap: false, flip_i: false, flip_j: false } => "H"@,
        Ori::D4 { swap: false, flip_i: true, flip_j: false } => "N"@,
        Ori::D4 { swap: false, flip_i: false, flip_j: true } => "_N"@,
        Ori::D4 { swap: false, flip_i: true, flip_j: true } => "_H"@,
        Ori::D4 { swap: true, flip_i: false, flip_j: false } => "Z"@,
        Ori::D4 { swap: true, flip_i: true, flip_j: false } => "_Z"@,
        Ori::D4 { swap: true, flip_i: false, flip_j: true } => "_S"@,
        Ori::D4 { swap: true, flip_i: true, flip_j: true } => "??"@,
    }
}

impl Ori {
    /// Maps logical `(i, j)` to physical `(row, col)` in a table of `nr`
    /// physical rows and `nc` physical columns.
    pub fn map_ij(self, nr: usize, nc: usize, i: usize, j: usize) -> (r: (usize, usize))
        requires
            map_ij_defined(self, nr as int, nc as int, i as int, j as int),
        ensures
            (r.0 as int, r.1 as int) == spec_map_ij(self, nr as int, nc as int, i as int, j as int),
    {
        match self {
            Ori::D4 { swap, flip_i, flip_j } => {
                let (mut ii, mut jj) = if swap {
                    (j, i)
                } else {
                    (i, j)
                };
                if flip_i {
                    ii = (nr - 1) - ii;
                }
                if flip_j {
                    jj = (nc - 1) - jj;
                }
                (ii, jj)
            },
            Ori::Each | Ori::Real => (i, j),
        }
    }

    /// `(logical rows, logical columns)`: transposed when `swap` is set.
    pub fn logical_shape(self, nr: usize, nc: usize) -> (r: (usize, usize))
        ensures
            (r.0 as int, r.1 as int) == spec_logical_shape(self, nr as int, nc as int),
    {
        match self {
            Ori::D4 { swap: true, .. } => (nc, nr),
            _ => (nr, nc),
        }
    }

    pub fn class(self) -> (r: OriClass)
        ensures
            r == spec_class(self),
    {
        match self {
            Ori::D4 { swap: false, .. } => OriClass::ColwiseLike,
            Ori::D4 { swap: true, .. } => OriClass::RowwiseLike,
            Ori::Each => OriClass::Each,
            Ori::Real => OriClass::Real,
        }
    }

    /// The scan axis; none for `Each` and `Real`.
    pub fn vec_axis(self) -> (r: Option<VecAxis>)
        ensures
            r == spec_vec_axis(self),
    {
        match self {
            Ori::D4 { swap: false, .. } => Some(VecAxis::AlongI),
            Ori::D4 { swap: true, .. } => Some(VecAxis::AlongJ),
            _ => None,
        }
    }

    pub fn reduce_mode(self) -> (r: ReduceMode)
        ensures
            r == spec_reduce_mode(self),
    {
        match self {
            Ori::Real => ReduceMode::Scalar,
            Ori::D4 { swap: true, .. } => ReduceMode::ByRows,
            _ => ReduceMode::ByCols,
        }
    }

    pub fn canonical_name(self) -> (r: &'static str)
        ensures
            r@ == spec_canonical_name(self),
    {
        match self {
            Ori::Each => "X",
            Ori::Real => "R",
            Ori::D4 { swap: false, flip_i: false, flip_j: false } => "H",
            Ori::D4 { swap: false, flip_i: true, flip_j: false } => "N",
            Ori::D4 { swap: false, flip_i: false, flip_j: true } => "_N",
            Ori::D4 { swap: false, flip_i: true, flip_j: true } => "_H",
            Ori::D4 { swap: true, flip_i: false, flip_j: false } => "Z",
            Ori::D4 { swap: true, flip_i: true, flip_j: false } => "_Z",
            Ori::D4 { swap: true, flip_i: false, flip_j: true } => "_S",
            Ori::D4 { swap: true, flip_i: true, flip_j: true } => "??",
        }
    }
}

/// A D4 orientation maps every logical index inside its logical shape to a
/// physical index inside the table, and distinct logical indices to distinct
/// physical ones.
pub proof fn lemma_map_ij_bijective(o: Ori, nr: int, nc: int, i1: int, j1: int, i2: int, j2: int)
    requires
        o is D4,
        0 <= i1 < spec_logical_shape(o, nr, nc).0,
        0 <= j1 < spec_logical_shape(o, nr, nc).1,
        0 <= i2 < spec_logical_shape(o, nr, nc).0,
        0 <= j2 < spec_logical_shape(o, nr, nc).1,
    ensures
        map_ij_defined(o, nr, nc, i1, j1),
        0 <= spec_map_ij(o, nr, nc, i1, j1).0 < nr,
        0 <= spec_map_ij(o, nr, nc, i1, j1).1 < nc,
        spec_map_ij(o, nr, nc, i1, j1) == spec_map_ij(o, nr, nc, i2, j2) ==> i1 == i2 && j1 == j2,
{
}

} // verus!

verus! {

/// A named entry of the orientation registry.
#[derive(Clone, Copy, Debug, PartialEq, Eq)]
pub struct OriSpec {
    /// Name token: H, N, _N, _H, Z, S, _Z, _S, X or R.
    pub name: &'static str,
    /// Compass string of the orientation.
    pub compass: &'static str,
    pub ori: Ori,
    pub class: OriClass,
}

/// The registry, in order: name, compass string and orientation of each entry.
pub open spec fn spec_registry() -> Seq<(Seq<char>, Seq<char>, Ori)> {
    seq![
        ("H"@, "NSWE"@, Ori::D4 { swap: false, flip_i: false, flip_j: false }),
        ("N"@, "SNWE"@, Ori::D4 { swap: false, flip_i: true, flip_j: false }),
        ("_N"@, "NSEW"@, Ori::D4 { swap: false, flip_i: false, flip_j: true }),
        ("_H"@, "SNEW"@, Ori::D4 { swap: false, flip_i: true, flip_j: true }),
        ("Z"@, "WENS"@, Ori::D4 { swap: true, flip_i: false, flip_j: false }),
        ("S"@, "EWNS"@, Ori::D4 { swap: true, flip_i: false, flip_j: false }),
        ("_Z"@, "EWSN"@, Ori::D4 { swap: true, flip_i: true, flip_j: false }),
        ("_S"@, "WESN"@, Ori::D4 { swap: true, flip_i: false, flip_j: true }),
        ("X"@, "X"@, Ori::Each),
        ("R"@, "R"@, Ori::Real),
    ]
}

/// `s` is the registry entry at index `k`.
pub open spec fn is_registry_entry(s: OriSpec, k: int) -> bool {
    &&& 0 <= k < spec_registry().len()
    &&& s.name@ == spec_registry()[k].0
    &&& s.compass@ == spec_registry()[k].1
    &&& s.ori == spec_registry()[k].2
    &&& s.class == spec_class(s.ori)
}

fn entry(name: &'static str, compass: &'static str, ori: Ori) -> (r: OriSpec)
    ensures
        r.name == name,
        r.compass == compass,
        r.ori == ori,
        r.class == spec_class(ori),
{
    OriSpec { name, compass, ori, class: ori.class() }
}

/// The ten registered orientations: four column-wise, four row-wise (`S` is
/// a synonym of `Z`), then `X` and `R`.
pub fn ori_specs() -> (r: Vec<OriSpec>)
    ensures
        r@.len() == spec_registry().len(),
        forall|k: int| 0 <= k < r@.len() ==> is_registry_entry(#[trigger] r@[k], k),
{
    let r = vec![
        entry("H", "NSWE", ori_h()),
        entry("N", "SNWE", ori_n()),
        entry("_N", "NSEW", ori_rev_n()),
        entry("_H", "SNEW", ori_rev_h()),
        entry("Z", "WENS", ori_z()),
        entry("S", "EWNS", ori_s()),
        entry("_Z", "EWSN", ori_rev_z()),
        entry("_S", "WESN", ori_rev_s()),
        entry("X", "X", ori_x()),
        entry("R", "R", ori_r()),
    ];
    assert forall|k: int| 0 <= k < r@.len() implies is_registry_entry(#[trigger] r@[k], k) by {
        assert(spec_registry()[k] == (r@[k].name@, r@[k].compass@, r@[k].ori));
    }
    r
}

/// The first registry entry named `name`, if any.
pub fn lookup_ori(name: &str) -> (r: Option<OriSpec>)
    ensures
        r is None <==> forall|k: int| 0 <= k < spec_registry().len() ==> spec_registry()[k].0 != name@,
        r matches Some(s) ==> exists|k: int| #[trigger]
            is_registry_entry(s, k) && s.name@ == name@ && forall|j: int|
                0 <= j < k ==> spec_registry()[j].0 != name@,
{
    let specs = ori_specs();
    let mut k: usize = 0;
    while k < specs.len()
        invariant
            specs@.len() == spec_registry().len(),
            forall|k: int| 0 <= k < specs@.len() ==> is_registry_entry(#[trigger] specs@[k], k),
            k <= specs@.len(),
            forall|j: int| 0 <= j < k ==> spec_registry()[j].0 != name@,
        decreases specs@.len() - k,
    {
        let s = specs[k];
        if same_text(s.name, name) {
            assert(is_registry_entry(s, k as int));
            return Some(s);
        }
        assert(is_registry_entry(specs@[k as int], k as int));
        k = k + 1;
    }
    None
}

} // verus!
