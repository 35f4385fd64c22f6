//! The numeric kernels, generic over the element type: the operation is
//! handed in as a closure. Each comes as a no-nulls variant, which writes
//! every position, and a masked variant, which computes the output validity
//! from the input validity and never writes the data at an invalid position.
//! The word-wise lagged kernel runs whole valid words without per-element
//! checks and skips whole invalid words.
use vstd::prelude::*;

use crate::bitmap::{lemma_all_ones_bits, lemma_zero_bits, Bitmap, LengthMismatch};
use crate::validity::{lag_valid, lag_word_plan, spec_lag_validity, WordPlan};

verus! {

/// `after` holds `f` of each input at the positions marked valid, and what
/// `before` held elsewhere.
pub open spec fn unary_written<T, F: Fn(T) -> T>(
    f: F,
    x: Seq<T>,
    valid: Seq<bool>,
    before: Seq<T>,
    after: Seq<T>,
) -> bool {
    &&& after.len() == before.len()
    &&& forall|i: int|
        0 <= i < after.len() ==> if valid[i] {
            f.ensures((x[i],), #[trigger] after[i])
        } else {
            after[i] == before[i]
        }
}

/// `after` holds `f` of each pair of inputs at the positions valid in both,
/// and what `before` held elsewhere.
pub open spec fn binary_written<T, F: Fn(T, T) -> T>(
    f: F,
    a: Seq<T>,
    b: Seq<T>,
    valid: Seq<bool>,
    before: Seq<T>,
    after: Seq<T>,
) -> bool {
    &&& after.len() == before.len()
    &&& forall|i: int|
        0 <= i < after.len() ==> if valid[i] {
            f.ensures((a[i], b[i]), #[trigger] after[i])
        } else {
            after[i] == before[i]
        }
}

/// `after` holds `f(x[i], x[i - lag])` where the lagged output is valid
/// under input validity `v`, and what `before` held elsewhere.
pub open spec fn lag_written<T, F: Fn(T, T) -> T>(
    f: F,
    x: Seq<T>,
    v: Seq<bool>,
    lag: int,
    before: Seq<T>,
    after: Seq<T>,
) -> bool {
    &&& after.len() == before.len()
    &&& forall|i: int|
        0 <= i < after.len() ==> if lag_valid(v, lag, i) {
            f.ensures((x[i], x[i - lag]), #[trigger] after[i])
        } else {
            after[i] == before[i]
        }
}

/// `f` gives one result for each pair of inputs.
pub open spec fn deterministic2<T, F: Fn(T, T) -> T>(f: F) -> bool {
    forall|a: T, b: T, r1: T, r2: T| f.ensures((a, b), r1) && f.ensures((a, b), r2) ==> r1 == r2
}

/// Applies `f` to every element.
pub fn unary_no_nulls<T: Copy, F: Fn(T) -> T>(out: &mut Vec<T>, x: &[T], f: F) -> (r: Result<
    (),
    LengthMismatch,
>)
    requires
        forall|a: T| f.requires((a,)),
    ensures
        r.is_ok() <==> old(out)@.len() == x@.len(),
        r.is_ok() ==> unary_written(
            f,
            x@,
            Seq::new(x@.len(), |i: int| true),
            old(out)@,
            final(out)@,
        ),
        r.is_err() ==> final(out)@ == old(out)@,
{
    let n = x.len();
    if out.len() != n {
        return Err(LengthMismatch { expected: n, found: out.len() });
    }
    let mut i: usize = 0;
    while i < n
        invariant
            forall|a: T| f.requires((a,)),
            n == x@.len(),
            out@.len() == n,
            i <= n,
            forall|j: int| 0 <= j < i ==> f.ensures((x@[j],), #[trigger] out@[j]),
        decreases n - i,
    {
        let v = f(x[i]);
        out.set(i, v);
        i = i + 1;
    }
    Ok(())
}

/// Applies `f` at the valid positions; the output validity is the input's.
pub fn unary_masked<T: Copy, F: Fn(T) -> T>(
    out: &mut Vec<T>,
    out_valid: &mut Bitmap,
    x: &[T],
    x_valid: &Bitmap,
    f: F,
) -> (r: Result<(), LengthMismatch>)
    requires
        x_valid.wf(),
        old(out_valid).wf(),
        forall|a: T| f.requires((a,)),
    ensures
        r.is_ok() <==> (x_valid@.len() == x@.len() && old(out)@.len() == x@.len()
            && old(out_valid)@.len() == x@.len()),
        r.is_ok() ==> final(out_valid).wf() && final(out_valid)@ == x_valid@ && unary_written(
            f,
            x@,
            x_valid@,
            old(out)@,
            final(out)@,
        ),
        r.is_err() ==> final(out)@ == old(out)@ && *final(out_valid) == *old(out_valid),
{
    let n = x.len();
    if x_valid.len() != n {
        return Err(LengthMismatch { expected: n, found: x_valid.len() });
    }
    if out.len() != n {
        return Err(LengthMismatch { expected: n, found: out.len() });
    }
    if out_valid.len() != n {
        return Err(LengthMismatch { expected: n, found: out_valid.len() });
    }
    let mut i: usize = 0;
    while i < n
        invariant
            forall|a: T| f.requires((a,)),
            x_valid.wf(),
            out_valid.wf(),
            n == x@.len(),
            n == x_valid@.len(),
            out@.len() == n,
            out_valid@.len() == n,
            old(out)@.len() == n,
            i <= n,
            forall|j: int| 0 <= j < i ==> out_valid@[j] == x_valid@[j],
            forall|j: int|
                0 <= j < n ==> if j < i && x_valid@[j] {
                    f.ensures((x@[j],), #[trigger] out@[j])
                } else {
                    out@[j] == old(out)@[j]
                },
        decreases n - i,
    {
        if x_valid.get(i) {
            let v = f(x[i]);
            out.set(i, v);
            out_valid.set(i, true);
        } else {
            out_valid.set(i, false);
        }
        i = i + 1;
    }
    assert(out_valid@ =~= x_valid@);
    Ok(())
}

/// Applies `f` to every pair of elements.
pub fn binary_no_nulls<T: Copy, F: Fn(T, T) -> T>(out: &mut Vec<T>, a: &[T], b: &[T], f: F) -> (r:
    Result<(), LengthMismatch>)
    requires
        forall|p: T, q: T| f.requires((p, q)),
    ensures
        r.is_ok() <==> (old(out)@.len() == a@.len() && b@.len() == a@.len()),
        r.is_ok() ==> binary_written(
            f,
            a@,
            b@,
            Seq::new(a@.len(), |i: int| true),
            old(out)@,
            final(out)@,
        ),
        r.is_err() ==> final(out)@ == old(out)@,
{
    let n = a.len();
    if b.len() != n {
        return Err(LengthMismatch { expected: n, found: b.len() });
    }
    if out.len() != n {
        return Err(LengthMismatch { expected: n, found: out.len() });
    }
    let mut i: usize = 0;
    while i < n
        invariant
            forall|p: T, q: T| f.requires((p, q)),
            n == a@.len(),
            n == b@.len(),
            out@.len() == n,
            i <= n,
            forall|j: int| 0 <= j < i ==> f.ensures((a@[j], b@[j]), #[trigger] out@[j]),
        decreases n - i,
    {
        let v = f(a[i], b[i]);
        out.set(i, v);
        i = i + 1;
    }
    Ok(())
}

/// Applies `f` where both inputs are valid; the output is valid exactly
/// there.
pub fn binary_masked<T: Copy, F: Fn(T, T) -> T>(
    out: &mut Vec<T>,
    out_valid: &mut Bitmap,
    a: &[T],
    a_valid: &Bitmap,
    b: &[T],
    b_valid: &Bitmap,
    f: F,
) -> (r: Result<(), LengthMismatch>)
    requires
        a_valid.wf(),
        b_valid.wf(),
        old(out_valid).wf(),
        forall|p: T, q: T| f.requires((p, q)),
    ensures
        r.is_ok() <==> (b@.len() == a@.len() && a_valid@.len() == a@.len() && b_valid@.len()
            == a@.len() && old(out)@.len() == a@.len() && old(out_valid)@.len() == a@.len()),
        r.is_ok() ==> final(out_valid).wf() && final(out_valid)@ == Seq::new(
            a@.len(),
            |i: int| a_valid@[i] && b_valid@[i],
        ) && binary_written(f, a@, b@, final(out_valid)@, old(out)@, final(out)@),
        r.is_err() ==> final(out)@ == old(out)@ && *final(out_valid) == *old(out_valid),
{
    let n = a.len();
    if b.len() != n {
        return Err(LengthMismatch { expected: n, found: b.len() });
    }
    if a_valid.len() != n {
        return Err(LengthMismatch { expected: n, found: a_valid.len() });
    }
    if b_valid.len() != n {
        return Err(LengthMismatch { expected: n, found: b_valid.len() });
    }
    if out.len() != n {
        return Err(LengthMismatch { expected: n, found: out.len() });
    }
    if out_valid.len() != n {
        return Err(LengthMismatch { expected: n, found: out_valid.len() });
    }
    let mut i: usize = 0;
    while i < n
        invariant
            forall|p: T, q: T| f.requires((p, q)),
            a_valid.wf(),
            b_valid.wf(),
            out_valid.wf(),
            n == a@.len(),
            n == b@.len(),
            n == a_valid@.len(),
            n == b_valid@.len(),
            out@.len() == n,
            out_valid@.len() == n,
            old(out)@.len() == n,
            i <= n,
            forall|j: int| 0 <= j < i ==> out_valid@[j] == (a_valid@[j] && b_valid@[j]),
            forall|j: int|
                0 <= j < n ==> if j < i && a_valid@[j] && b_valid@[j] {
                    f.ensures((a@[j], b@[j]), #[trigger] out@[j])
                } else {
                    out@[j] == old(out)@[j]
                },
        decreases n - i,
    {
        if a_valid.get(i) && b_valid.get(i) {
            let v = f(a[i], b[i]);
            out.set(i, v);
            out_valid.set(i, true);
        } else {
            out_valid.set(i, false);
        }
        i = i + 1;
    }
    assert(out_valid@ =~= Seq::new(a@.len(), |i: int| a_valid@[i] && b_valid@[i]));
    Ok(())
}

/// Lagged kernel with no nulls: `out[i] = f(x[i], x[i - lag])` wherever
/// `i >= lag > 0`, and `fill` at the positions with no history.
pub fn lag_no_nulls<T: Copy, F: Fn(T, T) -> T>(
    out: &mut Vec<T>,
    x: &[T],
    lag: usize,
    fill: T,
    f: F,
) -> (r: Result<(), LengthMismatch>)
    requires
        forall|p: T, q: T| f.requires((p, q)),
    ensures
        r.is_ok() <==> old(out)@.len() == x@.len(),
        r.is_ok() ==> final(out)@.len() == x@.len() && forall|i: int|
            0 <= i < x@.len() ==> if 0 < lag <= i {
                f.ensures((x@[i], x@[i - lag]), #[trigger] final(out)@[i])
            } else {
                final(out)@[i] == fill
            },
        r.is_err() ==> final(out)@ == old(out)@,
{
    let n = x.len();
    if out.len() != n {
        return Err(LengthMismatch { expected: n, found: out.len() });
    }
    let mut i: usize = 0;
    while i < n
        invariant
            forall|p: T, q: T| f.requires((p, q)),
            n == x@.len(),
            out@.len() == n,
            i <= n,
            forall|j: int|
                0 <= j < i ==> if 0 < lag <= j {
                    f.ensures((x@[j], x@[j - lag]), #[trigger] out@[j])
                } else {
                    out@[j] == fill
                },
        decreases n - i,
    {
        if lag > 0 && i >= lag {
            let v = f(x[i], x[i - lag]);
            out.set(i, v);
        } else {
            out.set(i, fill);
        }
        i = i + 1;
    }
    Ok(())
}

/// Lagged kernel on the masked path, one position at a time.
pub fn lag_masked<T: Copy, F: Fn(T, T) -> T>(
    out: &mut Vec<T>,
    out_valid: &mut Bitmap,
    x: &[T],
    x_valid: &Bitmap,
    lag: usize,
    f: F,
) -> (r: Result<(), LengthMismatch>)
    requires
        x_valid.wf(),
        old(out_valid).wf(),
        forall|p: T, q: T| f.requires((p, q)),
    ensures
        r.is_ok() <==> (x_valid@.len() == x@.len() && old(out)@.len() == x@.len()
            && old(out_valid)@.len() == x@.len()),
        r.is_ok() ==> final(out_valid).wf() && final(out_valid)@ == spec_lag_validity(
            x_valid@,
            lag as int,
        ) && lag_written(f, x@, x_valid@, lag as int, old(out)@, final(out)@),
        r.is_err() ==> final(out)@ == old(out)@ && *final(out_valid) == *old(out_valid),
{
    let n = x.len();
    if x_valid.len() != n {
        return Err(LengthMismatch { expected: n, found: x_valid.len() });
    }
    if out.len() != n {
        return Err(LengthMismatch { expected: n, found: out.len() });
    }
    if out_valid.len() != n {
        return Err(LengthMismatch { expected: n, found: out_valid.len() });
    }
    let mut i: usize = 0;
    while i < n
        invariant
            forall|p: T, q: T| f.requires((p, q)),
            x_valid.wf(),
            out_valid.wf(),
            n == x@.len(),
            n == x_valid@.len(),
            out@.len() == n,
            out_valid@.len() == n,
            old(out)@.len() == n,
            i <= n,
            forall|j: int| 0 <= j < i ==> out_valid@[j] == lag_valid(x_valid@, lag as int, j),
            forall|j: int|
                0 <= j < n ==> if j < i && lag_valid(x_valid@, lag as int, j) {
                    f.ensures((x@[j], x@[j - lag]), #[trigger] out@[j])
                } else {
                    out@[j] == old(out)@[j]
                },
        decreases n - i,
    {
        if lag > 0 && i >= lag && x_valid.get(i) && x_valid.get(i - lag) {
            let v = f(x[i], x[i - lag]);
            out.set(i, v);
            out_valid.set(i, true);
        } else {
            out_valid.set(i, false);
        }
        i = i + 1;
    }
    assert(out_valid@ =~= spec_lag_validity(x_valid@, lag as int));
    Ok(())
}

/// Lagged kernel on the word-wise path: same contract as `lag_masked`. A
/// word whose positions and lagged positions are all valid runs without
/// per-element checks; a word with no valid input is skipped; any other
/// word, including one that the lag leaves misaligned, goes bit by bit.
pub fn lag_wordwise<T: Copy, F: Fn(T, T) -> T>(
    out: &mut Vec<T>,
    out_valid: &mut Bitmap,
    x: &[T],
    x_valid: &Bitmap,
    lag: usize,
    f: F,
) -> (r: Result<(), LengthMismatch>)
    requires
        x_valid.wf(),
        old(out_valid).wf(),
        forall|p: T, q: T| f.requires((p, q)),
    ensures
        r.is_ok() <==> (x_valid@.len() == x@.len() && old(out)@.len() == x@.len()
            && old(out_valid)@.len() == x@.len()),
        r.is_ok() ==> final(out_valid).wf() && final(out_valid)@ == spec_lag_validity(
            x_valid@,
            lag as int,
        ) && lag_written(f, x@, x_valid@, lag as int, old(out)@, final(out)@),
        r.is_err() ==> final(out)@ == old(out)@ && *final(out_valid) == *old(out_valid),
{
    let n = x.len();
    if x_valid.len() != n {
        return Err(LengthMismatch { expected: n, found: x_valid.len() });
    }
    if out.len() != n {
        return Err(LengthMismatch { expected: n, found: out.len() });
    }
    if out_valid.len() != n {
        return Err(LengthMismatch { expected: n, found: out_valid.len() });
    }
    let words = x_valid.words_len();
    proof {
        out_valid.lemma_words_match_view();
    }
    let mut w: usize = 0;
    while w < words
        invariant
            forall|p: T, q: T| f.requires((p, q)),
            x_valid.wf(),
            out_valid.wf(),
            n == x@.len(),
            n == x_valid@.len(),
            out@.len() == n,
            out_valid@.len() == n,
            out_valid.spec_len() == n,
            old(out)@.len() == n,
            words == x_valid.words().len(),
            words == out_valid.words().len(),
            words == (n + 63) / 64,
            w <= words,
            forall|j: int|
                0 <= j < w * 64 && j < n ==> out_valid@[j] == lag_valid(x_valid@, lag as int, j),
            forall|j: int|
                0 <= j < n ==> if j < w * 64 && lag_valid(x_valid@, lag as int, j) {
                    f.ensures((x@[j], x@[j - lag]), #[trigger] out@[j])
                } else {
                    out@[j] == old(out)@[j]
                },
        decreases words - w,
    {
        let start = w * 64;
        proof {
            assert(w * 64 < n) by (nonlinear_arith)
                requires
                    w < (n + 63) / 64,
            ;
        }
        let plan = lag_word_plan(x_valid, lag, w);
        match plan {
            WordPlan::Dense => {
                let end = start + 64;
                let mut i: usize = start;
                while i < end
                    invariant
                        forall|p: T, q: T| f.requires((p, q)),
                        n == x@.len(),
                        out@.len() == n,
                        old(out)@.len() == n,
                        start == w * 64,
                        end == start + 64,
                        end <= n,
                        start <= i <= end,
                        forall|b: int|
                            0 <= b < 64 ==> #[trigger] lag_valid(x_valid@, lag as int, w * 64 + b),
                        forall|j: int|
                            0 <= j < n ==> if j < i && lag_valid(x_valid@, lag as int, j) {
                                f.ensures((x@[j], x@[j - lag]), #[trigger] out@[j])
                            } else {
                                out@[j] == old(out)@[j]
                            },
                    decreases end - i,
                {
                    assert(lag_valid(x_valid@, lag as int, w * 64 + (i - start)));
                    let v = f(x[i], x[i - lag]);
                    out.set(i, v);
                    i = i + 1;
                }
                out_valid.set_word(w, !0u64);
                proof {
                    assert forall|j: int| 0 <= j < (w + 1) * 64 && j < n implies out_valid@[j]
                        == lag_valid(x_valid@, lag as int, j) by {
                        if j >= w * 64 {
                            assert(j / 64 == w);
                            lemma_all_ones_bits((j % 64) as u64);
                            assert(lag_valid(x_valid@, lag as int, w * 64 + (j - w * 64)));
                        }
                    }
                }
            },
            WordPlan::Empty => {
                assert(0u64 >> ((n - w * 64) as u64) == 0) by (bit_vector);
                out_valid.set_word(w, 0u64);
                proof {
                    assert forall|j: int| 0 <= j < (w + 1) * 64 && j < n implies out_valid@[j]
                        == lag_valid(x_valid@, lag as int, j) by {
                        if j >= w * 64 {
                            assert(j / 64 == w);
                            lemma_zero_bits((j % 64) as u64);
                        }
                    }
                }
            },
            WordPlan::Mixed => {
                let end: usize = if n - start < 64 {
                    n
                } else {
                    start + 64
                };
                let mut i: usize = start;
                while i < end
                    invariant
                        forall|p: T, q: T| f.requires((p, q)),
                        x_valid.wf(),
                        out_valid.wf(),
                        n == x@.len(),
                        n == x_valid@.len(),
                        out@.len() == n,
                        out_valid@.len() == n,
                        out_valid.spec_len() == n,
                        old(out)@.len() == n,
                        words == out_valid.words().len(),
                        start == w * 64,
                        start <= i <= end,
                        end <= n,
                        end == start + 64 || end == n,
                        forall|j: int|
                            0 <= j < i ==> out_valid@[j] == lag_valid(x_valid@, lag as int, j),
                        forall|j: int|
                            0 <= j < n ==> if j < i && lag_valid(x_valid@, lag as int, j) {
                                f.ensures((x@[j], x@[j - lag]), #[trigger] out@[j])
                            } else {
                                out@[j] == old(out)@[j]
                            },
                    decreases end - i,
                {
                    if lag > 0 && i >= lag && x_valid.get(i) && x_valid.get(i - lag) {
                        let v = f(x[i], x[i - lag]);
                        out.set(i, v);
                        out_valid.set(i, true);
                    } else {
                        out_valid.set(i, false);
                    }
                    i = i + 1;
                }
            },
        }
        w = w + 1;
    }
    assert(n <= words * 64) by (nonlinear_arith)
        requires
            words == (n + 63) / 64,
    ;
    assert(out_valid@ =~= spec_lag_validity(x_valid@, lag as int));
    Ok(())
}

/// Word-wise correctness: two outputs that meet the lagged-kernel contract
/// for one input, one buffer and a closure with one result per input (the
/// contract of both `lag_masked` and `lag_wordwise`) are equal at every
/// position, whatever the runs of valid and invalid elements.
pub proof fn lemma_wordwise_matches_masked<T, F: Fn(T, T) -> T>(
    f: F,
    x: Seq<T>,
    v: Seq<bool>,
    lag: int,
    before: Seq<T>,
    masked: Seq<T>,
    wordwise: Seq<T>,
)
    requires
        lag_written(f, x, v, lag, before, masked),
        lag_written(f, x, v, lag, before, wordwise),
        deterministic2(f),
    ensures
        masked == wordwise,
{
    assert forall|i: int| 0 <= i < masked.len() implies masked[i] == wordwise[i] by {
        if lag_valid(v, lag, i) {
            assert(f.ensures((x[i], x[i - lag]), masked[i]));
            assert(f.ensures((x[i], x[i - lag]), wordwise[i]));
        }
    }
    assert(masked =~= wordwise);
}

/// Fusion equivalence for lagged kernels: when `g` is `h` applied after `f`
/// and gives one result per input, a single pass with `g` writes, at every
/// valid position, what a pass with `f` followed by a masked pass of `h` over
/// its output writes. Invalid positions are not written by either.
pub proof fn lemma_lag_fusion<T, F: Fn(T, T) -> T, G: Fn(T, T) -> T, H: Fn(T) -> T>(
    f: F,
    g: G,
    h: H,
    x: Seq<T>,
    v: Seq<bool>,
    lag: int,
    before: Seq<T>,
    mid: Seq<T>,
    before2: Seq<T>,
    unfused: Seq<T>,
    fused: Seq<T>,
)
    requires
        before.len() == x.len(),
        before2.len() == x.len(),
        v.len() == x.len(),
        lag_written(f, x, v, lag, before, mid),
        unary_written(h, mid, spec_lag_validity(v, lag), before2, unfused),
        lag_written(g, x, v, lag, before, fused),
        forall|c: T, p: T, m: T, r: T| f.ensures((c, p), m) && h.ensures((m,), r) ==> g.ensures((c, p), r),
        deterministic2(g),
    ensures
        fused.len() == x.len(),
        forall|i: int| 0 <= i < x.len() && lag_valid(v, lag, i) ==> #[trigger] fused[i] == unfused[i],
        forall|i: int| 0 <= i < x.len() && !lag_valid(v, lag, i) ==> #[trigger] fused[i] == before[i],
{
    assert forall|i: int| 0 <= i < x.len() && lag_valid(v, lag, i) implies #[trigger] fused[i]
        == unfused[i] by {
        assert(f.ensures((x[i], x[i - lag]), mid[i]));
        assert(spec_lag_validity(v, lag)[i]);
        assert(h.ensures((mid[i],), unfused[i]));
        assert(g.ensures((x[i], x[i - lag]), unfused[i]));
        assert(g.ensures((x[i], x[i - lag]), fused[i]));
    }
}

/// Fusion equivalence for binary kernels, as for lagged ones: a single pass
/// with `g = h after f` writes what a pass with `f` then a pass with `h`
/// writes, at every position where both inputs are valid.
pub proof fn lemma_binary_fusion<T, F: Fn(T, T) -> T, G: Fn(T, T) -> T, H: Fn(T) -> T>(
    f: F,
    g: G,
    h: H,
    a: Seq<T>,
    b: Seq<T>,
    valid: Seq<bool>,
    before: Seq<T>,
    mid: Seq<T>,
    before2: Seq<T>,
    unfused: Seq<T>,
    fused: Seq<T>,
)
    requires
        before.len() == a.len(),
        before2.len() == a.len(),
        valid.len() == a.len(),
        binary_written(f, a, b, valid, before, mid),
        unary_written(h, mid, valid, before2, unfused),
        binary_written(g, a, b, valid, before, fused),
        forall|c: T, p: T, m: T, r: T| f.ensures((c, p), m) && h.ensures((m,), r) ==> g.ensures((c, p), r),
        deterministic2(g),
    ensures
        forall|i: int| 0 <= i < a.len() && valid[i] ==> #[trigger] fused[i] == unfused[i],
{
    assert forall|i: int| 0 <= i < a.len() && valid[i] implies #[trigger] fused[i] == unfused[i] by {
        assert(f.ensures((a[i], b[i]), mid[i]));
        assert(h.ensures((mid[i],), unfused[i]));
        assert(g.ensures((a[i], b[i]), unfused[i]));
        assert(g.ensures((a[i], b[i]), fused[i]));
    }
}

/// `r` is what `f` gives on some slice holding exactly `s`.
pub open spec fn applied_to<T, R, F: Fn(&[T]) -> R>(f: F, s: Seq<T>, r: R) -> bool {
    exists|w: &[T]| w@ == s && #[trigger] f.ensures((w,), r)
}

/// `f` gives one result for each window content.
pub open spec fn window_deterministic<T, R, F: Fn(&[T]) -> R>(f: F) -> bool {
    forall|w1: &[T], w2: &[T], r1: R, r2: R|
        w1@ == w2@ && #[trigger] f.ensures((w1,), r1) && #[trigger] f.ensures((w2,), r2) ==> r1
            == r2
}

/// The output of a past-only window kernel over `x`.
pub open spec fn past_window_written<T, R, F: Fn(&[T]) -> R>(
    f: F,
    x: Seq<T>,
    window: int,
    fill: R,
    out: Seq<R>,
) -> bool {
    &&& out.len() == x.len()
    &&& forall|i: int|
        0 <= i < x.len() ==> if i >= window {
            applied_to(f, x.subrange(i - window, i), #[trigger] out[i])
        } else {
            out[i] == fill
        }
}

/// Past-only window kernel: `out[i]` is `f` of the `window` elements before
/// `i` (never `x[i]` itself), and `fill` while fewer than `window` precede it.
pub fn past_window_map<T, R: Copy, F: Fn(&[T]) -> R>(x: &[T], window: usize, fill: R, f: F) -> (r:
    Vec<R>)
    requires
        forall|w: &[T]| f.requires((w,)),
    ensures
        past_window_written(f, x@, window as int, fill, r@),
{
    let n = x.len();
    let mut out: Vec<R> = Vec::new();
    let mut i: usize = 0;
    while i < n
        invariant
            forall|w: &[T]| f.requires((w,)),
            n == x@.len(),
            out@.len() == i,
            i <= n,
            forall|j: int|
                0 <= j < i ==> if j >= window {
                    applied_to(f, x@.subrange(j - window, j), #[trigger] out@[j])
                } else {
                    out@[j] == fill
                },
        decreases n - i,
    {
        if i >= window {
            let w = &x[i - window..i];
            let v = f(w);
            assert(applied_to(f, x@.subrange(i - window, i as int), v));
            out.push(v);
        } else {
            out.push(fill);
        }
        i = i + 1;
    }
    out
}

/// A past-only window kernel's output at `i` depends only on
/// `x[i - window .. i - 1]`: inputs that agree there, whatever they hold at
/// `i` and elsewhere, give the same output at `i`.
pub proof fn lemma_past_only<T, R, F: Fn(&[T]) -> R>(
    f: F,
    x: Seq<T>,
    y: Seq<T>,
    window: int,
    fill: R,
    out_x: Seq<R>,
    out_y: Seq<R>,
    i: int,
)
    requires
        past_window_written(f, x, window, fill, out_x),
        past_window_written(f, y, window, fill, out_y),
        window_deterministic(f),
        0 <= i < x.len(),
        i < y.len(),
        0 <= window,
        forall|k: int| i - window <= k < i ==> #[trigger] x[k] == y[k],
    ensures
        out_x[i] == out_y[i],
{
    if i >= window {
        assert(x.subrange(i - window, i) =~= y.subrange(i - window, i));
        assert(applied_to(f, x.subrange(i - window, i), out_x[i]));
        assert(applied_to(f, y.subrange(i - window, i), out_y[i]));
        let w1 = choose|w: &[T]| w@ == x.subrange(i - window, i) && #[trigger] f.ensures((w,), out_x[i]);
        let w2 = choose|w: &[T]| w@ == y.subrange(i - window, i) && #[trigger] f.ensures((w,), out_y[i]);
        assert(f.ensures((w1,), out_x[i]) && f.ensures((w2,), out_y[i]));
    }
}

/// The output of a trailing window kernel over `x`.
pub open spec fn trailing_window_written<T, R, F: Fn(&[T]) -> R>(
    f: F,
    x: Seq<T>,
    window: int,
    fill: R,
    out: Seq<R>,
) -> bool {
    &&& out.len() == x.len()
    &&& forall|i: int|
        0 <= i < x.len() ==> if 0 < window <= i + 1 {
            applied_to(f, x.subrange(i + 1 - window, i + 1), #[trigger] out[i])
        } else {
            out[i] == fill
        }
}

/// Trailing window kernel: `out[i]` is `f` of the `window` elements ending at
/// `i`, and `fill` until the window is full (or when `window` is zero).
pub fn trailing_window_map<T, R: Copy, F: Fn(&[T]) -> R>(
    x: &[T],
    window: usize,
    fill: R,
    f: F,
) -> (r: Vec<R>)
    requires
        forall|w: &[T]| f.requires((w,)),
    ensures
        trailing_window_written(f, x@, window as int, fill, r@),
{
    let n = x.len();
    let mut out: Vec<R> = Vec::new();
    let mut i: usize = 0;
    while i < n
        invariant
            forall|w: &[T]| f.requires((w,)),
            n == x@.len(),
            out@.len() == i,
            i <= n,
            forall|j: int|
                0 <= j < i ==> if 0 < window <= j + 1 {
                    applied_to(f, x@.subrange(j + 1 - window, j + 1), #[trigger] out@[j])
                } else {
                    out@[j] == fill
                },
        decreases n - i,
    {
        if window > 0 && i + 1 >= window {
            let w = &x[i + 1 - window..i + 1];
            let v = f(w);
            assert(applied_to(f, x@.subrange(i + 1 - window, i + 1), v));
            out.push(v);
        } else {
            out.push(fill);
        }
        i = i + 1;
    }
    out
}

/// The rows of a table given as columns of `nrows` elements: row `i` holds
/// element `i` of each column, in column order. Row-wise operations run the
/// column kernels over these rows.
pub fn transpose<T: Copy>(cols: &Vec<Vec<T>>, nrows: usize) -> (r: Vec<Vec<T>>)
    requires
        forall|j: int| 0 <= j < cols@.len() ==> (#[trigger] cols@[j])@.len() == nrows,
    ensures
        r@.len() == nrows,
        forall|i: int| 0 <= i < nrows ==> (#[trigger] r@[i])@.len() == cols@.len(),
        forall|i: int, j: int|
            0 <= i < nrows && 0 <= j < cols@.len() ==> #[trigger] r@[i]@[j] == cols@[j]@[i],
{
    let ncols = cols.len();
    let mut rows: Vec<Vec<T>> = Vec::new();
    let mut i: usize = 0;
    while i < nrows
        invariant
            ncols == cols@.len(),
            forall|j: int| 0 <= j < cols@.len() ==> (#[trigger] cols@[j])@.len() == nrows,
            i <= nrows,
            rows@.len() == i,
            forall|k: int| 0 <= k < i ==> (#[trigger] rows@[k])@.len() == ncols,
            forall|k: int, j: int|
                0 <= k < i && 0 <= j < ncols ==> #[trigger] rows@[k]@[j] == cols@[j]@[k],
        decreases nrows - i,
    {
        let mut row: Vec<T> = Vec::new();
        let mut j: usize = 0;
        while j < ncols
            invariant
                ncols == cols@.len(),
                forall|m: int| 0 <= m < cols@.len() ==> (#[trigger] cols@[m])@.len() == nrows,
                i < nrows,
                j <= ncols,
                row@.len() == j,
                forall|m: int| 0 <= m < j ==> row@[m] == cols@[m]@[i as int],
            decreases ncols - j,
        {
            assert(cols@[j as int]@.len() == nrows);
            row.push(cols[j][i]);
            j = j + 1;
        }
        rows.push(row);
        i = i + 1;
    }
    rows
}

} // verus!
