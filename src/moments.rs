//! Selection of rolling moments, and the past-only window they are taken over.
use vstd::prelude::*;

use crate::text::same_text;

verus! {

/// Which of mean, std, skew, kurt and count to compute, as bit flags.
#[derive(Clone, Copy, Debug, PartialEq, Eq, Hash, Structural)]
pub struct MomentsMask {
    bits: u8,
}

pub const MEAN: u8 = 1;

pub const STD: u8 = 2;

pub const SKEW: u8 = 4;

pub const KURT: u8 = 8;

pub const COUNT: u8 = 16;

/// Some element of `names` reads `name`.
pub open spec fn names_hold(names: Seq<&str>, name: Seq<char>) -> bool {
    exists|k: int| 0 <= k < names.len() && (#[trigger] names[k])@ == name
}

/// The flags chosen by five booleans, in the order mean, std, skew, kurt, count.
pub open spec fn flags_of(mean: bool, std: bool, skew: bool, kurt: bool, count: bool) -> u8 {
    ((if mean {
        MEAN
    } else {
        0
    }) + (if std {
        STD
    } else {
        0
    }) + (if skew {
        SKEW
    } else {
        0
    }) + (if kurt {
        KURT
    } else {
        0
    }) + (if count {
        COUNT
    } else {
        0
    })) as u8
}

/// The highest raw power sum that a selection needs.
pub open spec fn spec_max_moment(bits: u8) -> u8 {
    if bits & KURT != 0 {
        4
    } else if bits & SKEW != 0 {
        3
    } else if bits & STD != 0 {
        2
    } else {
        1
    }
}

impl MomentsMask {
    pub closed spec fn bits(&self) -> u8 {
        self.bits
    }

    pub fn new(bits: u8) -> (r: MomentsMask)
        ensures
            r.bits() == bits,
    {
        MomentsMask { bits }
    }

    pub fn empty() -> (r: MomentsMask)
        ensures
            r.bits() == 0,
    {
        MomentsMask { bits: 0 }
    }

    pub fn all() -> (r: MomentsMask)
        ensures
            r.bits() == flags_of(true, true, true, true, true),
    {
        assert(1u8 | 2u8 | 4u8 | 8u8 | 16u8 == 31u8) by (bit_vector);
        MomentsMask { bits: MEAN | STD | SKEW | KURT | COUNT }
    }

    /// Selects each moment that `names` names ("mean", "std", "skew", "kurt",
    /// "count"); other names are ignored.
    pub fn from_names(names: &[&str]) -> (r: MomentsMask)
        ensures
            r.bits() == flags_of(
                names_hold(names@, "mean"@),
                names_hold(names@, "std"@),
                names_hold(names@, "skew"@),
                names_hold(names@, "kurt"@),
                names_hold(names@, "count"@),
            ),
    {
        let mut mean = false;
        let mut std = false;
        let mut skew = false;
        let mut kurt = false;
        let mut count = false;
        let mut k: usize = 0;
        while k < names.len()
            invariant
                k <= names@.len(),
                mean == names_hold(names@.subrange(0, k as int), "mean"@),
                std == names_hold(names@.subrange(0, k as int), "std"@),
                skew == names_hold(names@.subrange(0, k as int), "skew"@),
                kurt == names_hold(names@.subrange(0, k as int), "kurt"@),
                count == names_hold(names@.subrange(0, k as int), "count"@),
            decreases names@.len() - k,
        {
            let name = names[k];
            let ghost before = names@.subrange(0, k as int);
            let ghost after = names@.subrange(0, k + 1);
            assert(after =~= before.push(name));
            proof {
                lemma_names_hold_push(before, name, "mean"@);
                lemma_names_hold_push(before, name, "std"@);
                lemma_names_hold_push(before, name, "skew"@);
                lemma_names_hold_push(before, name, "kurt"@);
                lemma_names_hold_push(before, name, "count"@);
            }
            if same_text(name, "mean") {
                mean = true;
            }
            if same_text(name, "std") {
                std = true;
            }
            if same_text(name, "skew") {
                skew = true;
            }
            if same_text(name, "kurt") {
                kurt = true;
            }
            if same_text(name, "count") {
                count = true;
            }
            k = k + 1;
        }
        assert(names@.subrange(0, names@.len() as int) =~= names@);
        let bits: u8 = (if mean {
            MEAN
        } else {
            0
        }) + (if std {
            STD
        } else {
            0
        }) + (if skew {
            SKEW
        } else {
            0
        }) + (if kurt {
            KURT
        } else {
            0
        }) + (if count {
            COUNT
        } else {
            0
        });
        MomentsMask { bits }
    }

    /// Whether any flag of `flag` is selected.
    pub fn has(self, flag: u8) -> (r: bool)
        ensures
            r == (self.bits() & flag != 0),
    {
        (self.bits & flag) != 0
    }

    /// The highest raw power sum needed: 4 for kurt, 3 for skew, 2 for std,
    /// else 1.
    pub fn max_moment_needed(self) -> (r: u8)
        ensures
            r == spec_max_moment(self.bits()),
            1 <= r <= 4,
    {
        if self.has(KURT) {
            4
        } else if self.has(SKEW) {
            3
        } else if self.has(STD) {
            2
        } else {
            1
        }
    }
}

proof fn lemma_names_hold_push(before: Seq<&str>, name: &str, target: Seq<char>)
    ensures
        names_hold(before.push(name), target) == (names_hold(before, target) || name@ == target),
{
    let after = before.push(name);
    if names_hold(before, target) {
        let k = choose|k: int| 0 <= k < before.len() && (#[trigger] before[k])@ == target;
        assert(after[k] == before[k]);
    }
    if name@ == target {
        assert(after[before.len() as int] == name);
    }
    if names_hold(after, target) {
        let k = choose|k: int| 0 <= k < after.len() && (#[trigger] after[k])@ == target;
        if k < before.len() {
            assert(after[k] == before[k]);
        }
    }
}

/// The past-only window of position `i`: `[i - window, i)`, which ends
/// before `i`; none while fewer than `window` positions precede `i`.
pub open spec fn spec_past_window(i: int, window: int) -> Option<(int, int)> {
    if i >= window {
        Some((i - window, i))
    } else {
        None
    }
}

/// The positions read for position `i`: the `window` positions just before
/// it, never `i` itself.
pub fn past_window(i: usize, window: usize) -> (r: Option<(usize, usize)>)
    ensures
        r matches Some(p) ==> spec_past_window(i as int, window as int) == Some(
            (p.0 as int, p.1 as int),
        ),
        r is None <==> spec_past_window(i as int, window as int) is None,
{
    if i >= window {
        Some((i - window, i))
    } else {
        None
    }
}

/// Every position read for position `i` lies strictly before `i` and no more
/// than `window` positions back.
pub proof fn lemma_window_is_past_only(i: int, window: int, k: int)
    requires
        spec_past_window(i, window) matches Some(p) && p.0 <= k < p.1,
    ensures
        i - window <= k < i,
        k != i,
{
}

} // verus!
