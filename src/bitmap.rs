//! Bit-packed validity mask: one bit per element, 1 = valid, 0 = null.
use vstd::prelude::*;

verus! {

/// Number of 64-bit words needed for `len` bits.
pub open spec fn word_count(len: nat) -> nat {
    (len + 63) / 64
}

/// Bit `b` of word `w`.
pub open spec fn bit_of(w: u64, b: u64) -> bool {
    (w >> b) & 1u64 == 1u64
}

/// The word whose low `n` bits are set and all others clear.
pub open spec fn low_mask(n: u64) -> u64 {
    if n >= 64 {
        !0u64
    } else {
        ((1u64 << n) - 1u64) as u64
    }
}

/// Two bitmaps of different lengths were combined.
#[derive(Clone, Copy, Debug, PartialEq, Eq)]
pub struct LengthMismatch {
    pub expected: usize,
    pub found: usize,
}

#[derive(Clone, Debug)]
pub struct Bitmap {
    /// 64 validity bits per word, element `i` at bit `i % 64` of word `i / 64`.
    bits: Vec<u64>,
    /// Number of elements.
    len: usize,
}

pub(crate) proof fn lemma_all_ones_bits(b: u64)
    requires
        b < 64,
    ensures
        bit_of(!0u64, b),
{
    assert((!0u64 >> b) & 1u64 == 1u64) by (bit_vector)
        requires
            b < 64,
    ;
}

pub(crate) proof fn lemma_zero_bits(b: u64)
    ensures
        !bit_of(0u64, b),
{
    assert((0u64 >> b) & 1u64 == 0u64) by (bit_vector);
}

proof fn lemma_low_mask_bits(n: u64, b: u64)
    requires
        0 < n < 64,
        b < 64,
    ensures
        bit_of(low_mask(n), b) == (b < n),
        low_mask(n) >> n == 0,
{
    assert(((((1u64 << n) - 1u64) as u64 >> b) & 1u64 == 1u64) == (b < n)) by (bit_vector)
        requires
            0 < n < 64,
            b < 64,
    ;
    assert((((1u64 << n) - 1u64) as u64) >> n == 0) by (bit_vector)
        requires
            0 < n < 64,
    ;
}

proof fn lemma_set_bit(w: u64, b: u64, c: u64)
    requires
        b < 64,
        c < 64,
    ensures
        bit_of(w | (1u64 << b), c) == (c == b || bit_of(w, c)),
        bit_of(w & !(1u64 << b), c) == (c != b && bit_of(w, c)),
{
    assert((((w | (1u64 << b)) >> c) & 1u64 == 1u64) == (c == b || (w >> c) & 1u64 == 1u64))
        by (bit_vector)
        requires
            b < 64,
            c < 64,
    ;
    assert((((w & !(1u64 << b)) >> c) & 1u64 == 1u64) == (c != b && (w >> c) & 1u64 == 1u64))
        by (bit_vector)
        requires
            b < 64,
            c < 64,
    ;
}

proof fn lemma_set_bit_high(w: u64, b: u64, n: u64)
    requires
        b < n < 64,
        w >> n == 0,
    ensures
        (w | (1u64 << b)) >> n == 0,
        (w & !(1u64 << b)) >> n == 0,
{
    assert((w | (1u64 << b)) >> n == 0) by (bit_vector)
        requires
            b < n < 64,
            w >> n == 0,
    ;
    assert((w & !(1u64 << b)) >> n == 0) by (bit_vector)
        requires
            w >> n == 0,
    ;
}

proof fn lemma_and_or_bits(x: u64, y: u64, b: u64)
    requires
        b < 64,
    ensures
        bit_of(x & y, b) == (bit_of(x, b) && bit_of(y, b)),
        bit_of(x | y, b) == (bit_of(x, b) || bit_of(y, b)),
{
    assert((((x & y) >> b) & 1u64 == 1u64) == ((x >> b) & 1u64 == 1u64 && (y >> b) & 1u64 == 1u64))
        by (bit_vector)
        requires
            b < 64,
    ;
    assert((((x | y) >> b) & 1u64 == 1u64) == ((x >> b) & 1u64 == 1u64 || (y >> b) & 1u64 == 1u64))
        by (bit_vector)
        requires
            b < 64,
    ;
}

proof fn lemma_and_or_high(x: u64, y: u64, n: u64)
    requires
        n < 64,
        x >> n == 0,
        y >> n == 0,
    ensures
        (x & y) >> n == 0,
        (x | y) >> n == 0,
{
    assert((x & y) >> n == 0 && (x | y) >> n == 0) by (bit_vector)
        requires
            n < 64,
            x >> n == 0,
            y >> n == 0,
    ;
}

proof fn lemma_index_split(i: usize)
    ensures
        i >> 6usize == i / 64,
        i & 63usize == i % 64,
{
    assert(i >> 6usize == i / 64) by (bit_vector);
    assert(i & 63usize == i % 64) by (bit_vector);
}

impl Bitmap {
    /// The raw words.
    pub closed spec fn words(&self) -> Seq<u64> {
        self.bits@
    }

    /// Number of elements, as a spec value.
    pub closed spec fn spec_len(&self) -> nat {
        self.len as nat
    }

    /// The validity of each element, in order.
    pub closed spec fn view(&self) -> Seq<bool> {
        Seq::new(self.len as nat, |i: int| bit_of(self.bits@[i / 64], (i % 64) as u64))
    }

    /// `len` elements occupy `ceil(len / 64)` words and the unused high bits of
    /// the last word are zero.
    pub closed spec fn wf(&self) -> bool {
        &&& self.bits@.len() == word_count(self.len as nat)
        &&& self.len % 64 != 0 ==> self.bits@[self.bits@.len() - 1] >> ((self.len % 64) as u64)
            == 0
    }

    /// Each word agrees with the elements it holds, and is clear beyond them.
    pub open spec fn words_match_view(&self) -> bool {
        &&& self.words().len() == word_count(self.spec_len())
        &&& forall|w: int, b: int|
            0 <= w < self.words().len() && 0 <= b < 64 ==> #[trigger] bit_of(
                self.words()[w],
                b as u64,
            ) == (w * 64 + b < self.spec_len() && self.view()[w * 64 + b])
    }

    /// A well-formed bitmap's words are exactly its elements, packed.
    pub proof fn lemma_words_match_view(&self)
        requires
            self.wf(),
        ensures
            self.words_match_view(),
    {
        assert forall|w: int, b: int| 0 <= w < self.words().len() && 0 <= b < 64 implies
            #[trigger] bit_of(self.words()[w], b as u64) == (w * 64 + b < self.spec_len()
                && self.view()[w * 64 + b]) by {
            let i = w * 64 + b;
            if i < self.len {
                assert(i / 64 == w && i % 64 == b) by (nonlinear_arith)
                    requires
                        i == w * 64 + b,
                        0 <= b < 64,
                ;
            } else {
                // only the last word can hold positions at or beyond `len`
                let n = self.len as int;
                assert(w == self.bits@.len() - 1 && n % 64 != 0 && b >= n % 64) by (nonlinear_arith)
                    requires
                        i == w * 64 + b,
                        0 <= b < 64,
                        i >= n,
                        0 <= w < (n + 63) / 64,
                        self.bits@.len() == (n + 63) / 64,
                        n >= 0,
                ;
                let last = self.bits@[w];
                let r = (n % 64) as u64;
                let bb = b as u64;
                assert(last >> r == 0 ==> (last >> bb) & 1u64 == 0u64) by (bit_vector)
                    requires
                        r <= bb < 64,
                ;
            }
        }
    }

    /// All elements valid.
    pub fn new_all_valid(len: usize) -> (r: Bitmap)
        requires
            len + 63 <= usize::MAX,
        ensures
            r.wf(),
            r@ == Seq::new(len as nat, |i: int| true),
    {
        let words: usize = (len + 63) / 64;
        let mut bits: Vec<u64> = Vec::new();
        let mut k: usize = 0;
        while k < words
            invariant
                k <= words,
                bits@.len() == k,
                forall|j: int| 0 <= j < k ==> bits@[j] == !0u64,
            decreases words - k,
        {
            bits.push(!0u64);
            k = k + 1;
        }
        let rem: usize = len % 64;
        if rem != 0 {
            let r64 = rem as u64;
            assert(1u64 << r64 >= 1) by (bit_vector)
                requires
                    r64 < 64,
            ;
            let m: u64 = (1u64 << r64) - 1;
            bits.set(words - 1, m);
        }
        let r = Bitmap { bits, len };
        proof {
            let rem64 = rem as u64;
            if rem != 0 {
                lemma_low_mask_bits(rem64, rem64);
            }
            assert forall|i: int| 0 <= i < len implies #[trigger] r@[i] == true by {
                let b = (i % 64) as u64;
                if rem != 0 && i / 64 == words - 1 {
                    lemma_low_mask_bits(rem64, b);
                    assert(i % 64 < rem) by (nonlinear_arith)
                        requires
                            0 <= i < len,
                            i / 64 == (len + 63) / 64 - 1,
                            rem == len % 64,
                            rem != 0,
                    ;
                } else {
                    lemma_all_ones_bits(b);
                }
            }
            assert(r@ =~= Seq::new(len as nat, |i: int| true));
        }
        r
    }

    /// All elements null.
    pub fn new_all_null(len: usize) -> (r: Bitmap)
        requires
            len + 63 <= usize::MAX,
        ensures
            r.wf(),
            r@ == Seq::new(len as nat, |i: int| false),
    {
        let words: usize = (len + 63) / 64;
        let mut bits: Vec<u64> = Vec::new();
        let mut k: usize = 0;
        while k < words
            invariant
                k <= words,
                bits@.len() == k,
                forall|j: int| 0 <= j < k ==> bits@[j] == 0u64,
            decreases words - k,
        {
            bits.push(0u64);
            k = k + 1;
        }
        let r = Bitmap { bits, len };
        proof {
            if len % 64 != 0 {
                assert(0u64 >> ((len % 64) as u64) == 0) by (bit_vector);
            }
            assert forall|i: int| 0 <= i < len implies #[trigger] r@[i] == false by {
                lemma_zero_bits((i % 64) as u64);
            }
            assert(r@ =~= Seq::new(len as nat, |i: int| false));
        }
        r
    }

    pub fn len(&self) -> (r: usize)
        ensures
            r == self.spec_len(),
            r == self@.len(),
    {
        self.len
    }

    pub fn is_empty(&self) -> (r: bool)
        ensures
            r == (self@.len() == 0),
    {
        self.len == 0
    }

    /// Validity of element `i`.
    pub fn get(&self, i: usize) -> (r: bool)
        requires
            self.wf(),
            i < self@.len(),
        ensures
            r == self@[i as int],
    {
        proof {
            lemma_index_split(i);
            assert(i / 64 < self.bits@.len()) by (nonlinear_arith)
                requires
                    i < self.len,
                    self.bits@.len() == (self.len + 63) / 64,
            ;
        }
        let w = i >> 6;
        let b = (i & 63) as u64;
        (self.bits[w] >> b) & 1 == 1
    }

    /// Sets the validity of element `i`.
    pub fn set(&mut self, i: usize, v: bool)
        requires
            old(self).wf(),
            i < old(self)@.len(),
        ensures
            final(self).wf(),
            final(self)@ == old(self)@.update(i as int, v),
            final(self).spec_len() == old(self).spec_len(),
            final(self).words().len() == old(self).words().len(),
    {
        proof {
            lemma_index_split(i);
            assert(i / 64 < self.bits@.len()) by (nonlinear_arith)
                requires
                    i < self.len,
                    self.bits@.len() == (self.len + 63) / 64,
            ;
        }
        let ghost pre = *self;
        let w = i >> 6;
        let b = (i & 63) as u64;
        let mask: u64 = 1u64 << b;
        let old_word = self.bits[w];
        let new_word = if v {
            old_word | mask
        } else {
            old_word & !mask
        };
        self.bits.set(w, new_word);
        proof {
            let n = self.len as int;
            if n % 64 != 0 && w == self.bits@.len() - 1 {
                assert(b < n % 64) by (nonlinear_arith)
                    requires
                        b == i % 64,
                        w == i / 64,
                        w == (n + 63) / 64 - 1,
                        0 <= i < n,
                        n % 64 != 0,
                ;
                lemma_set_bit_high(old_word, b, (n % 64) as u64);
            }
            assert forall|j: int| 0 <= j < n implies #[trigger] self@[j] == pre@.update(
                i as int,
                v,
            )[j] by {
                let c = (j % 64) as u64;
                lemma_set_bit(old_word, b, c);
                if j / 64 == w {
                    if j != i {
                        assert(j % 64 != i % 64) by (nonlinear_arith)
                            requires
                                j / 64 == i / 64,
                                j != i,
                                j >= 0,
                                i >= 0,
                        ;
                    }
                }
            }
            assert(self@ =~= pre@.update(i as int, v));
        }
    }

    /// The raw word at index `w`.
    pub fn word(&self, w: usize) -> (r: u64)
        requires
            w < self.words().len(),
        ensures
            r == self.words()[w as int],
    {
        self.bits[w]
    }

    /// Replaces word `w`; `value` must be clear beyond the last element.
    pub fn set_word(&mut self, w: usize, value: u64)
        requires
            old(self).wf(),
            w < old(self).words().len(),
            w * 64 + 64 > old(self).spec_len() ==> value >> ((old(self).spec_len() - w * 64) as u64)
                == 0,
        ensures
            final(self).wf(),
            final(self).spec_len() == old(self).spec_len(),
            final(self).words() == old(self).words().update(w as int, value),
            final(self)@ == Seq::new(
                old(self)@.len(),
                |i: int|
                    if i / 64 == w {
                        bit_of(value, (i % 64) as u64)
                    } else {
                        old(self)@[i]
                    },
            ),
    {
        self.bits.set(w, value);
        proof {
            let n = self.len as int;
            if n % 64 != 0 && w == self.bits@.len() - 1 {
                assert(n - w * 64 == n % 64 && w * 64 + 64 > n) by (nonlinear_arith)
                    requires
                        w == (n + 63) / 64 - 1,
                        n % 64 != 0,
                        n >= 0,
                ;
            }
            assert(self@ =~= Seq::new(
                old(self)@.len(),
                |i: int|
                    if i / 64 == w {
                        bit_of(value, (i % 64) as u64)
                    } else {
                        old(self)@[i]
                    },
            ));
        }
    }

    /// Number of words.
    pub fn words_len(&self) -> (r: usize)
        requires
            self.wf(),
        ensures
            r == self.words().len(),
            r == word_count(self.spec_len()),
    {
        self.bits.len()
    }

    /// Mutable access to the raw words. A caller that writes through it keeps
    /// the bitmap well formed only if it leaves the unused high bits clear.
    pub fn bits_mut(&mut self) -> (r: &mut [u64])
        ensures
            r@ == old(self).words(),
            final(r)@ == final(self).words(),
            final(self).spec_len() == old(self).spec_len(),
    {
        self.bits.as_mut_slice()
    }

    /// `out = a & b`, element by element.
    pub fn and_into(a: &Bitmap, b: &Bitmap, out: &mut Bitmap) -> (r: Result<(), LengthMismatch>)
        requires
            a.wf(),
            b.wf(),
            old(out).wf(),
        ensures
            r.is_ok() <==> (a@.len() == b@.len() && a@.len() == old(out)@.len()),
            r.is_ok() ==> final(out).wf() && final(out)@ == Seq::new(
                a@.len(),
                |i: int| a@[i] && b@[i],
            ),
            r.is_err() ==> *final(out) == *old(out),
    {
        if a.len != b.len {
            return Err(LengthMismatch { expected: a.len, found: b.len });
        }
        if a.len != out.len {
            return Err(LengthMismatch { expected: a.len, found: out.len });
        }
        let ghost pre = *out;
        let n = a.bits.len();
        let mut w: usize = 0;
        while w < n
            invariant
                a.wf(),
                b.wf(),
                pre.wf(),
                a.len == b.len,
                a.len == out.len,
                out.len == pre.len,
                n == a.bits@.len(),
                w <= n,
                out.bits@.len() == n,
                forall|k: int| 0 <= k < w ==> out.bits@[k] == a.bits@[k] & b.bits@[k],
                forall|k: int| w <= k < n ==> out.bits@[k] == pre.bits@[k],
            decreases n - w,
        {
            let x = a.bits[w] & b.bits[w];
            out.bits.set(w, x);
            w = w + 1;
        }
        proof {
            let len = a.len as int;
            if len % 64 != 0 {
                lemma_and_or_high(a.bits@[n - 1], b.bits@[n - 1], (len % 64) as u64);
            }
            assert forall|i: int| 0 <= i < len implies #[trigger] out@[i] == (a@[i] && b@[i]) by {
                assert(i / 64 < n) by (nonlinear_arith)
                    requires
                        0 <= i < len,
                        n == (len + 63) / 64,
                ;
                lemma_and_or_bits(a.bits@[i / 64], b.bits@[i / 64], (i % 64) as u64);
            }
            assert(out@ =~= Seq::new(a@.len(), |i: int| a@[i] && b@[i]));
        }
        Ok(())
    }

    /// `out = a | b`, element by element.
    pub fn or_into(a: &Bitmap, b: &Bitmap, out: &mut Bitmap) -> (r: Result<(), LengthMismatch>)
        requires
            a.wf(),
            b.wf(),
            old(out).wf(),
        ensures
            r.is_ok() <==> (a@.len() == b@.len() && a@.len() == old(out)@.len()),
            r.is_ok() ==> final(out).wf() && final(out)@ == Seq::new(
                a@.len(),
                |i: int| a@[i] || b@[i],
            ),
            r.is_err() ==> *final(out) == *old(out),
    {
        if a.len != b.len {
            return Err(LengthMismatch { expected: a.len, found: b.len });
        }
        if a.len != out.len {
            return Err(LengthMismatch { expected: a.len, found: out.len });
        }
        let ghost pre = *out;
        let n = a.bits.len();
        let mut w: usize = 0;
        while w < n
            invariant
                a.wf(),
                b.wf(),
                pre.wf(),
                a.len == b.len,
                a.len == out.len,
                out.len == pre.len,
                n == a.bits@.len(),
                w <= n,
                out.bits@.len() == n,
                forall|k: int| 0 <= k < w ==> out.bits@[k] == a.bits@[k] | b.bits@[k],
                forall|k: int| w <= k < n ==> out.bits@[k] == pre.bits@[k],
            decreases n - w,
        {
            let x = a.bits[w] | b.bits[w];
            out.bits.set(w, x);
            w = w + 1;
        }
        proof {
            let len = a.len as int;
            if len % 64 != 0 {
                lemma_and_or_high(a.bits@[n - 1], b.bits@[n - 1], (len % 64) as u64);
            }
            assert forall|i: int| 0 <= i < len implies #[trigger] out@[i] == (a@[i] || b@[i]) by {
                assert(i / 64 < n) by (nonlinear_arith)
                    requires
                        0 <= i < len,
                        n == (len + 63) / 64,
                ;
                lemma_and_or_bits(a.bits@[i / 64], b.bits@[i / 64], (i % 64) as u64);
            }
            assert(out@ =~= Seq::new(a@.len(), |i: int| a@[i] || b@[i]));
        }
        Ok(())
    }

    /// A copy of the raw words.
    pub fn clone_bits(&self) -> (r: Vec<u64>)
        ensures
            r@ == self.words(),
    {
        let mut r: Vec<u64> = Vec::new();
        let mut k: usize = 0;
        while k < self.bits.len()
            invariant
                k <= self.bits@.len(),
                r@ == self.bits@.subrange(0, k as int),
            decreases self.bits@.len() - k,
        {
            r.push(self.bits[k]);
            k = k + 1;
            assert(r@ =~= self.bits@.subrange(0, k as int));
        }
        assert(r@ =~= self.bits@);
        r
    }
}

} // verus!
