//! The embedded-sentinel null representation of temporal columns, and the
//! conversions between it and validity bitmaps used at the edges of the
//! engine.
use vstd::prelude::*;

use crate::bitmap::Bitmap;

verus! {

/// Null date (days since the epoch).
pub const NULL_DATE: i32 = i32::MIN;

/// Null timestamp (nanoseconds since the epoch).
pub const NULL_TIMESTAMP: i64 = i64::MIN;

/// Null timestamp of the older `Ts` column type.
pub const NULL_TS: i64 = i64::MIN;

/// A validity bitmap from a per-element null flag; none when no element is
/// null, which is the all-valid fast path.
pub fn validity_from_nulls(nulls: &[bool]) -> (r: Option<Bitmap>)
    requires
        nulls@.len() + 63 <= usize::MAX,
    ensures
        r is None <==> forall|i: int| 0 <= i < nulls@.len() ==> !#[trigger] nulls@[i],
        r matches Some(bm) ==> bm.wf() && bm@ == Seq::new(nulls@.len(), |i: int| !nulls@[i]),
{
    let n = nulls.len();
    let mut bm: Option<Bitmap> = None;
    let mut i: usize = 0;
    while i < n
        invariant
            n == nulls@.len(),
            n + 63 <= usize::MAX,
            i <= n,
            bm is None <==> forall|j: int| 0 <= j < i ==> !#[trigger] nulls@[j],
            bm matches Some(b) ==> b.wf() && b@.len() == n && forall|j: int|
                0 <= j < i ==> #[trigger] b@[j] == !nulls@[j],
            bm matches Some(b) ==> forall|j: int| i <= j < n ==> #[trigger] b@[j],
        decreases n - i,
    {
        if nulls[i] {
            let mut b = match bm {
                Some(b) => b,
                None => Bitmap::new_all_valid(n),
            };
            b.set(i, false);
            bm = Some(b);
        }
        i = i + 1;
    }
    match bm {
        Some(b) => {
            assert(b@ =~= Seq::new(nulls@.len(), |i: int| !nulls@[i]));
            Some(b)
        },
        None => None,
    }
}

/// Validity of a date column whose nulls are `na`.
pub fn date_validity(data: &[i32], na: i32) -> (r: Option<Bitmap>)
    requires
        data@.len() + 63 <= usize::MAX,
    ensures
        r is None <==> forall|i: int| 0 <= i < data@.len() ==> #[trigger] data@[i] != na,
        r matches Some(bm) ==> bm.wf() && bm@ == Seq::new(data@.len(), |i: int| data@[i] != na),
{
    let mut nulls: Vec<bool> = Vec::new();
    let mut i: usize = 0;
    while i < data.len()
        invariant
            i <= data@.len(),
            nulls@.len() == i,
            forall|j: int| 0 <= j < i ==> #[trigger] nulls@[j] == (data@[j] == na),
        decreases data@.len() - i,
    {
        nulls.push(data[i] == na);
        i = i + 1;
    }
    let r = validity_from_nulls(nulls.as_slice());
    proof {
        if r is None {
            assert forall|i: int| 0 <= i < data@.len() implies #[trigger] data@[i] != na by {
                assert(!nulls@[i]);
            }
        }
        if r is Some {
            assert(r->Some_0@ =~= Seq::new(data@.len(), |i: int| data@[i] != na));
        }
    }
    r
}

/// Validity of a timestamp column whose nulls are `na`.
pub fn timestamp_validity(data: &[i64], na: i64) -> (r: Option<Bitmap>)
    requires
        data@.len() + 63 <= usize::MAX,
    ensures
        r is None <==> forall|i: int| 0 <= i < data@.len() ==> #[trigger] data@[i] != na,
        r matches Some(bm) ==> bm.wf() && bm@ == Seq::new(data@.len(), |i: int| data@[i] != na),
{
    let mut nulls: Vec<bool> = Vec::new();
    let mut i: usize = 0;
    while i < data.len()
        invariant
            i <= data@.len(),
            nulls@.len() == i,
            forall|j: int| 0 <= j < i ==> #[trigger] nulls@[j] == (data@[j] == na),
        decreases data@.len() - i,
    {
        nulls.push(data[i] == na);
        i = i + 1;
    }
    let r = validity_from_nulls(nulls.as_slice());
    proof {
        if r is None {
            assert forall|i: int| 0 <= i < data@.len() implies #[trigger] data@[i] != na by {
                assert(!nulls@[i]);
            }
        }
        if r is Some {
            assert(r->Some_0@ =~= Seq::new(data@.len(), |i: int| data@[i] != na));
        }
    }
    r
}

/// Writes `na` at every invalid position of a date column.
pub fn materialize_date_sentinel(data: &mut Vec<i32>, valid: &Bitmap, na: i32)
    requires
        valid.wf(),
        valid@.len() == old(data)@.len(),
    ensures
        final(data)@ == Seq::new(
            old(data)@.len(),
            |i: int|
                if valid@[i] {
                    old(data)@[i]
                } else {
                    na
                },
        ),
{
    let n = data.len();
    let mut i: usize = 0;
    while i < n
        invariant
            valid.wf(),
            n == data@.len(),
            n == old(data)@.len(),
            valid@.len() == n,
            i <= n,
            forall|j: int|
                0 <= j < n ==> #[trigger] data@[j] == if j < i && !valid@[j] {
                    na
                } else {
                    old(data)@[j]
                },
        decreases n - i,
    {
        if !valid.get(i) {
            data.set(i, na);
        }
        i = i + 1;
    }
    assert(data@ =~= Seq::new(
        old(data)@.len(),
        |i: int|
            if valid@[i] {
                old(data)@[i]
            } else {
                na
            },
    ));
}

/// Writes `na` at every invalid position of a timestamp column.
pub fn materialize_timestamp_sentinel(data: &mut Vec<i64>, valid: &Bitmap, na: i64)
    requires
        valid.wf(),
        valid@.len() == old(data)@.len(),
    ensures
        final(data)@ == Seq::new(
            old(data)@.len(),
            |i: int|
                if valid@[i] {
                    old(data)@[i]
                } else {
                    na
                },
        ),
{
    let n = data.len();
    let mut i: usize = 0;
    while i < n
        invariant
            valid.wf(),
            n == data@.len(),
            n == old(data)@.len(),
            valid@.len() == n,
            i <= n,
            forall|j: int|
                0 <= j < n ==> #[trigger] data@[j] == if j < i && !valid@[j] {
                    na
                } else {
                    old(data)@[j]
                },
        decreases n - i,
    {
        if !valid.get(i) {
            data.set(i, na);
        }
        i = i + 1;
    }
    assert(data@ =~= Seq::new(
        old(data)@.len(),
        |i: int|
            if valid@[i] {
                old(data)@[i]
            } else {
                na
            },
    ));
}

} // verus!
