//! A column in the bitmap-validity representation, generic over the element
//! type, and the two-path dispatch of every kernel: without a bitmap every
//! element is valid and the no-nulls kernel runs; with one, the masked kernel
//! runs and the output carries a bitmap too.
use vstd::prelude::*;

use crate::bitmap::{Bitmap, LengthMismatch};
use crate::kernels::{
    binary_masked, binary_no_nulls, binary_written, lag_no_nulls, lag_wordwise, lag_written,
    unary_masked, unary_no_nulls, unary_written,
};
use crate::validity::spec_lag_validity;

verus! {

/// Data and an optional validity bitmap; none means every element is valid.
#[derive(Debug)]
pub struct Nullable<T> {
    pub data: Vec<T>,
    pub valid: Option<Bitmap>,
}

impl<T> Nullable<T> {
    /// A present bitmap is well formed and has one bit per element.
    pub open spec fn wf(&self) -> bool {
        self.valid matches Some(b) ==> b.wf() && b@.len() == self.data@.len()
    }

    /// The validity of each element.
    pub open spec fn validity(&self) -> Seq<bool> {
        match self.valid {
            Some(b) => b@,
            None => Seq::new(self.data@.len(), |i: int| true),
        }
    }

    /// A column with every element valid.
    pub fn new(data: Vec<T>) -> (r: Nullable<T>)
        ensures
            r.wf(),
            r.data@ == data@,
            r.valid is None,
    {
        Nullable { data, valid: None }
    }

    /// A column with the given validity, which must have one bit per element.
    pub fn with_validity(data: Vec<T>, valid: Bitmap) -> (r: Result<Nullable<T>, LengthMismatch>)
        requires
            valid.wf(),
        ensures
            r is Ok <==> valid@.len() == data@.len(),
            r matches Ok(c) ==> c.wf() && c.data@ == data@ && c.valid == Some(valid),
    {
        if valid.len() != data.len() {
            return Err(LengthMismatch { expected: data.len(), found: valid.len() });
        }
        Ok(Nullable { data, valid: Some(valid) })
    }

    pub fn len(&self) -> (r: usize)
        ensures
            r == self.data@.len(),
    {
        self.data.len()
    }

    pub fn is_empty(&self) -> (r: bool)
        ensures
            r == (self.data@.len() == 0),
    {
        self.data.len() == 0
    }

    /// Whether element `i` is valid.
    pub fn is_valid(&self, i: usize) -> (r: bool)
        requires
            self.wf(),
            i < self.data@.len(),
        ensures
            r == self.validity()[i as int],
    {
        match &self.valid {
            Some(b) => b.get(i),
            None => true,
        }
    }
}

/// The bitmap of `out` when it has `n` elements, else a new all-null one.
fn output_bitmap(valid: Option<Bitmap>, n: usize) -> (r: Bitmap)
    requires
        valid matches Some(b) ==> b.wf(),
        n + 63 <= usize::MAX,
    ensures
        r.wf(),
        r@.len() == n,
{
    match valid {
        Some(b) => {
            if b.len() == n {
                return b;
            }
            Bitmap::new_all_null(n)
        },
        None => Bitmap::new_all_null(n),
    }
}

/// Applies `f` to each valid element of `x` into `out`, whose data buffer
/// (and bitmap, when of the right length) is reused. The output validity is
/// the input's, bitmap or none alike.
pub fn unary_into<T: Copy, F: Fn(T) -> T>(x: &Nullable<T>, out: &mut Nullable<T>, f: F) -> (r:
    Result<(), LengthMismatch>)
    requires
        x.wf(),
        old(out).wf(),
        x.data@.len() + 63 <= usize::MAX,
        forall|a: T| f.requires((a,)),
    ensures
        r is Ok <==> old(out).data@.len() == x.data@.len(),
        r is Ok ==> {
            &&& final(out).wf()
            &&& (final(out).valid is None <==> x.valid is None)
            &&& final(out).validity() == x.validity()
            &&& unary_written(f, x.data@, x.validity(), old(out).data@, final(out).data@)
        },
        r is Err ==> final(out).data@ == old(out).data@,
{
    let n = x.data.len();
    if out.data.len() != n {
        return Err(LengthMismatch { expected: n, found: out.data.len() });
    }
    match &x.valid {
        None => {
            let r = unary_no_nulls(&mut out.data, x.data.as_slice(), f);
            out.valid = None;
            assert(final(out).validity() =~= x.validity());
            r
        },
        Some(xv) => {
            let mut bits = output_bitmap(out.valid.take(), n);
            let r = unary_masked(&mut out.data, &mut bits, x.data.as_slice(), xv, f);
            out.valid = Some(bits);
            r
        },
    }
}

/// The lagged kernel `f(x[i], x[i - lag])` through the two paths: with no
/// bitmap every position with a history is computed and the others get
/// `fill`; with one, the word-wise masked kernel runs.
pub fn lag_into<T: Copy, F: Fn(T, T) -> T>(
    x: &Nullable<T>,
    lag: usize,
    fill: T,
    out: &mut Nullable<T>,
    f: F,
) -> (r: Result<(), LengthMismatch>)
    requires
        x.wf(),
        old(out).wf(),
        x.data@.len() + 63 <= usize::MAX,
        forall|p: T, q: T| f.requires((p, q)),
    ensures
        r is Ok <==> old(out).data@.len() == x.data@.len(),
        r is Ok ==> final(out).wf(),
        r is Ok && x.valid is None ==> {
            &&& final(out).valid is None
            &&& final(out).data@.len() == x.data@.len()
            &&& forall|i: int|
                0 <= i < x.data@.len() ==> if 0 < lag <= i {
                    f.ensures((x.data@[i], x.data@[i - lag]), #[trigger] final(out).data@[i])
                } else {
                    final(out).data@[i] == fill
                }
        },
        r is Ok && x.valid is Some ==> {
            &&& final(out).valid is Some
            &&& final(out).validity() == spec_lag_validity(x.validity(), lag as int)
            &&& lag_written(f, x.data@, x.validity(), lag as int, old(out).data@, final(out).data@)
        },
        r is Err ==> final(out).data@ == old(out).data@,
{
    let n = x.data.len();
    if out.data.len() != n {
        return Err(LengthMismatch { expected: n, found: out.data.len() });
    }
    match &x.valid {
        None => {
            let r = lag_no_nulls(&mut out.data, x.data.as_slice(), lag, fill, f);
            out.valid = None;
            r
        },
        Some(xv) => {
            let mut bits = output_bitmap(out.valid.take(), n);
            let r = lag_wordwise(&mut out.data, &mut bits, x.data.as_slice(), xv, lag, f);
            out.valid = Some(bits);
            r
        },
    }
}

/// Applies `f` to each pair of elements through the two paths: with neither
/// bitmap the no-nulls kernel runs and the output has none; otherwise the
/// masked kernel runs and the output is valid where both inputs are.
pub fn binary_into<T: Copy, F: Fn(T, T) -> T>(
    a: &Nullable<T>,
    b: &Nullable<T>,
    out: &mut Nullable<T>,
    f: F,
) -> (r: Result<(), LengthMismatch>)
    requires
        a.wf(),
        b.wf(),
        old(out).wf(),
        a.data@.len() + 63 <= usize::MAX,
        forall|p: T, q: T| f.requires((p, q)),
    ensures
        r is Ok <==> (b.data@.len() == a.data@.len() && old(out).data@.len() == a.data@.len()),
        r is Ok ==> {
            &&& final(out).wf()
            &&& (final(out).valid is None <==> (a.valid is None && b.valid is None))
            &&& final(out).validity() == Seq::new(
                a.data@.len(),
                |i: int| a.validity()[i] && b.validity()[i],
            )
            &&& binary_written(
                f,
                a.data@,
                b.data@,
                final(out).validity(),
                old(out).data@,
                final(out).data@,
            )
        },
        r is Err ==> final(out).data@ == old(out).data@,
{
    let n = a.data.len();
    if b.data.len() != n {
        return Err(LengthMismatch { expected: n, found: b.data.len() });
    }
    if out.data.len() != n {
        return Err(LengthMismatch { expected: n, found: out.data.len() });
    }
    if a.valid.is_none() && b.valid.is_none() {
        let r = binary_no_nulls(&mut out.data, a.data.as_slice(), b.data.as_slice(), f);
        out.valid = None;
        assert(final(out).validity() =~= Seq::new(
            a.data@.len(),
            |i: int| a.validity()[i] && b.validity()[i],
        ));
        return r;
    }
    let all_a = Bitmap::new_all_valid(n);
    let all_b = Bitmap::new_all_valid(n);
    let av = match &a.valid {
        Some(v) => v,
        None => &all_a,
    };
    let bv = match &b.valid {
        Some(v) => v,
        None => &all_b,
    };
    assert(av@ =~= a.validity());
    assert(bv@ =~= b.validity());
    let mut bits = output_bitmap(out.valid.take(), n);
    let r = binary_masked(
        &mut out.data,
        &mut bits,
        a.data.as_slice(),
        av,
        b.data.as_slice(),
        bv,
        f,
    );
    out.valid = Some(bits);
    r
}

} // verus!
