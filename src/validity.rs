//! Output validity of the masked kernels. A lagged kernel (the log-difference
//! `ln(x[i]) - ln(x[i - lag])`) is valid at `i` only when `i` has a history
//! and both operands are valid; a rolling-window kernel is valid once its
//! window is full, unless every element of the window is invalid. The
//! word-wise variant decides 64 positions at a time where whole words allow.
use vstd::prelude::*;

use crate::bitmap::{bit_of, lemma_all_ones_bits, lemma_zero_bits, Bitmap, LengthMismatch};

verus! {

/// Validity of a lagged kernel's output at `i`.
pub open spec fn lag_valid(v: Seq<bool>, lag: int, i: int) -> bool {
    0 < lag <= i && v[i] && v[i - lag]
}

/// Validity of a lagged kernel's whole output.
pub open spec fn spec_lag_validity(v: Seq<bool>, lag: int) -> Seq<bool> {
    Seq::new(v.len(), |i: int| lag_valid(v, lag, i))
}

/// Validity of a rolling-window kernel's output at `i`: the window
/// `[i + 1 - window, i]` lies inside the input and holds a valid element.
pub open spec fn window_valid(v: Seq<bool>, window: int, i: int) -> bool {
    0 < window <= i + 1 && exists|k: int| i + 1 - window <= k <= i && #[trigger] v[k]
}

pub open spec fn spec_window_validity(v: Seq<bool>, window: int) -> Seq<bool> {
    Seq::new(v.len(), |i: int| window_valid(v, window, i))
}

/// How the word-wise kernel treats the 64 positions of one word.
#[derive(Clone, Copy, Debug, PartialEq, Eq, Hash, Structural)]
pub enum WordPlan {
    /// Every position is valid: compute all 64 with no per-element check.
    Dense,
    /// No position is valid: compute nothing.
    Empty,
    /// Check each position.
    Mixed,
}

proof fn lemma_word_position(i: int, w: int)
    requires
        0 <= i,
        0 <= w,
    ensures
        (i / 64 == w) <==> (w * 64 <= i < w * 64 + 64),
        i / 64 == w ==> i % 64 == i - w * 64,
{
}

/// The plan for word `w` of a lagged kernel's input validity. `Dense` needs
/// the word and the word `lag` positions back to be aligned and all valid;
/// positions that have no history never take the dense path.
pub fn lag_word_plan(x_valid: &Bitmap, lag: usize, w: usize) -> (r: WordPlan)
    requires
        x_valid.wf(),
        w < x_valid.words().len(),
    ensures
        r is Dense ==> w * 64 + 64 <= x_valid@.len() && forall|b: int|
            0 <= b < 64 ==> #[trigger] lag_valid(x_valid@, lag as int, w * 64 + b),
        r is Empty ==> forall|i: int|
            w * 64 <= i < w * 64 + 64 && i < x_valid@.len() ==> !#[trigger] lag_valid(
                x_valid@,
                lag as int,
                i,
            ),
{
    let n = x_valid.len();
    proof {
        x_valid.lemma_words_match_view();
        assert(w * 64 < n) by (nonlinear_arith)
            requires
                w < (n + 63) / 64,
        ;
    }
    if lag == 0 || lag >= n {
        return WordPlan::Empty;
    }
    let start = w * 64;
    if start < lag {
        return WordPlan::Mixed;
    }
    let curr = x_valid.word(w);
    let back = start - lag;
    if back % 64 == 0 && curr == !0u64 && x_valid.word(back / 64) == !0u64 {
        proof {
            let lw = (back / 64) as int;
            assert(lw * 64 == back);
            assert forall|b: int| 0 <= b < 64 implies #[trigger] lag_valid(
                x_valid@,
                lag as int,
                w * 64 + b,
            ) by {
                lemma_all_ones_bits(b as u64);
                assert(bit_of(x_valid.words()[w as int], b as u64));
                assert(bit_of(x_valid.words()[lw], b as u64));
            }
            let top: int = 63;
            lemma_all_ones_bits(top as u64);
            assert(bit_of(x_valid.words()[w as int], top as u64));
        }
        return WordPlan::Dense;
    }
    if curr == 0 {
        proof {
            assert forall|i: int| w * 64 <= i < w * 64 + 64 && i < n implies !#[trigger] lag_valid(
                x_valid@,
                lag as int,
                i,
            ) by {
                let b = i - w * 64;
                lemma_zero_bits(b as u64);
                assert(!bit_of(x_valid.words()[w as int], b as u64));
            }
        }
        return WordPlan::Empty;
    }
    WordPlan::Mixed
}

/// Per-element lagged validity: `out[i]` is valid iff `i >= lag > 0` and
/// both `x[i]` and `x[i - lag]` are valid.
pub fn lag_validity_masked(x_valid: &Bitmap, lag: usize, out: &mut Bitmap) -> (r: Result<
    (),
    LengthMismatch,
>)
    requires
        x_valid.wf(),
        old(out).wf(),
    ensures
        r.is_ok() <==> x_valid@.len() == old(out)@.len(),
        r.is_ok() ==> final(out).wf() && final(out)@ == spec_lag_validity(x_valid@, lag as int),
        r.is_err() ==> *final(out) == *old(out),
{
    let n = x_valid.len();
    if out.len() != n {
        return Err(LengthMismatch { expected: n, found: out.len() });
    }
    let mut i: usize = 0;
    while i < n
        invariant
            x_valid.wf(),
            out.wf(),
            n == x_valid@.len(),
            out@.len() == n,
            i <= n,
            forall|j: int| 0 <= j < i ==> out@[j] == lag_valid(x_valid@, lag as int, j),
        decreases n - i,
    {
        let v = lag > 0 && i >= lag && x_valid.get(i) && x_valid.get(i - lag);
        out.set(i, v);
        i = i + 1;
    }
    assert(out@ =~= spec_lag_validity(x_valid@, lag as int));
    Ok(())
}

/// Word-wise lagged validity, with the same result as `lag_validity_masked`:
/// dense and empty words are written whole, mixed ones bit by bit.
pub fn lag_validity_wordwise(x_valid: &Bitmap, lag: usize, out: &mut Bitmap) -> (r: Result<
    (),
    LengthMismatch,
>)
    requires
        x_valid.wf(),
        old(out).wf(),
    ensures
        r.is_ok() <==> x_valid@.len() == old(out)@.len(),
        r.is_ok() ==> final(out).wf() && final(out)@ == spec_lag_validity(x_valid@, lag as int),
        r.is_err() ==> *final(out) == *old(out),
{
    let n = x_valid.len();
    if out.len() != n {
        return Err(LengthMismatch { expected: n, found: out.len() });
    }
    let words = x_valid.words_len();
    proof {
        out.lemma_words_match_view();
    }
    let mut w: usize = 0;
    while w < words
        invariant
            x_valid.wf(),
            out.wf(),
            n == x_valid@.len(),
            out@.len() == n,
            out.spec_len() == n,
            words == x_valid.words().len(),
            words == out.words().len(),
            words == (n + 63) / 64,
            w <= words,
            forall|j: int| 0 <= j < w * 64 && j < n ==> out@[j] == lag_valid(x_valid@, lag as int, j),
        decreases words - w,
    {
        let start = w * 64;
        proof {
            assert(w * 64 < n) by (nonlinear_arith)
                requires
                    w < (n + 63) / 64,
            ;
        }
        let plan = lag_word_plan(x_valid, lag, w);
        let ghost pre = out@;
        match plan {
            WordPlan::Dense => {
                out.set_word(w, !0u64);
                proof {
                    assert forall|j: int| 0 <= j < (w + 1) * 64 && j < n implies out@[j]
                        == lag_valid(x_valid@, lag as int, j) by {
                        lemma_word_position(j, w as int);
                        if j >= w * 64 {
                            lemma_all_ones_bits((j % 64) as u64);
                            assert(lag_valid(x_valid@, lag as int, w * 64 + (j - w * 64)));
                        }
                    }
                }
            },
            WordPlan::Empty => {
                assert(0u64 >> ((n - w * 64) as u64) == 0) by (bit_vector);
                out.set_word(w, 0u64);
                proof {
                    assert forall|j: int| 0 <= j < (w + 1) * 64 && j < n implies out@[j]
                        == lag_valid(x_valid@, lag as int, j) by {
                        lemma_word_position(j, w as int);
                        if j >= w * 64 {
                            lemma_zero_bits((j % 64) as u64);
                        }
                    }
                }
            },
            WordPlan::Mixed => {
                let end: usize = if n - start < 64 {
                    n
                } else {
                    start + 64
                };
                let mut i: usize = start;
                while i < end
                    invariant
                        x_valid.wf(),
                        out.wf(),
                        n == x_valid@.len(),
                        out@.len() == n,
                        out.spec_len() == n,
                        words == out.words().len(),
                        start == w * 64,
                        start <= i <= end,
                        end <= n,
                        end == start + 64 || end == n,
                        forall|j: int| 0 <= j < i ==> out@[j] == lag_valid(x_valid@, lag as int, j),
                    decreases end - i,
                {
                    let v = lag > 0 && i >= lag && x_valid.get(i) && x_valid.get(i - lag);
                    out.set(i, v);
                    i = i + 1;
                }
            },
        }
        w = w + 1;
    }
    proof {
        assert forall|j: int| 0 <= j < n implies out@[j] == lag_valid(x_valid@, lag as int, j) by {
            assert(j < words * 64) by (nonlinear_arith)
                requires
                    words == (n + 63) / 64,
                    0 <= j < n,
            ;
        }
    }
    assert(out@ =~= spec_lag_validity(x_valid@, lag as int));
    Ok(())
}

/// Rolling-window validity: `out[i]` is valid iff the window of `window`
/// positions ending at `i` is full and holds at least one valid element.
pub fn window_validity(x_valid: &Bitmap, window: usize, out: &mut Bitmap) -> (r: Result<
    (),
    LengthMismatch,
>)
    requires
        x_valid.wf(),
        old(out).wf(),
    ensures
        r.is_ok() <==> x_valid@.len() == old(out)@.len(),
        r.is_ok() ==> final(out).wf() && final(out)@ == spec_window_validity(
            x_valid@,
            window as int,
        ),
        r.is_err() ==> *final(out) == *old(out),
{
    let n = x_valid.len();
    if out.len() != n {
        return Err(LengthMismatch { expected: n, found: out.len() });
    }
    let mut i: usize = 0;
    while i < n
        invariant
            x_valid.wf(),
            out.wf(),
            n == x_valid@.len(),
            out@.len() == n,
            i <= n,
            forall|j: int| 0 <= j < i ==> out@[j] == window_valid(x_valid@, window as int, j),
        decreases n - i,
    {
        let mut any = false;
        if window > 0 && i + 1 >= window {
            let lo = i + 1 - window;
            let mut k: usize = lo;
            while k <= i && !any
                invariant
                    x_valid.wf(),
                    n == x_valid@.len(),
                    i < n,
                    lo <= k <= i + 1,
                    !any ==> forall|m: int| lo <= m < k ==> !x_valid@[m],
                    any ==> exists|m: int| lo <= m <= i && #[trigger] x_valid@[m],
                decreases i + 1 - k + (if any {
                    0int
                } else {
                    1int
                }),
            {
                if x_valid.get(k) {
                    any = true;
                } else {
                    k = k + 1;
                }
            }
        }
        out.set(i, any);
        i = i + 1;
    }
    assert(out@ =~= spec_window_validity(x_valid@, window as int));
    Ok(())
}

} // verus!
