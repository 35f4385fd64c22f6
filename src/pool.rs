//! A pool of validity bitmaps for reuse across pipeline runs. A bitmap is
//! served from the pool only when its length matches exactly; otherwise a new
//! one is made, and counted, so that steady-state reuse can be checked.
use vstd::prelude::*;

use crate::bitmap::Bitmap;

verus! {

/// The pooled bitmaps, in order of return, and how many bitmaps the pool has
/// had to make.
pub ghost struct PoolView {
    pub bufs: Seq<Bitmap>,
    pub fresh: usize,
}

/// The next request for `len` elements is served from the pool.
pub open spec fn serves(s: PoolView, len: nat) -> bool {
    s.bufs.len() > 0 && s.bufs.last().spec_len() == len
}

/// The pool after a request for `len` elements: the last pooled bitmap is
/// taken (and dropped when its length differs), and a miss counts one new
/// bitmap.
pub open spec fn after_get(s: PoolView, len: nat) -> PoolView {
    PoolView {
        bufs: if s.bufs.len() > 0 {
            s.bufs.drop_last()
        } else {
            s.bufs
        },
        fresh: if serves(s, len) {
            s.fresh
        } else {
            s.fresh.saturating_add(1)
        },
    }
}

pub open spec fn after_return(s: PoolView, bm: Bitmap) -> PoolView {
    PoolView { bufs: s.bufs.push(bm), ..s }
}

/// The pool after `k` rounds of requesting `len` elements and returning the
/// bitmap that came back.
pub open spec fn cycles(s: PoolView, len: nat, k: nat) -> PoolView
    decreases k,
{
    if k == 0 {
        s
    } else {
        cycles(after_return(after_get(s, len), s.bufs.last()), len, (k - 1) as nat)
    }
}

/// Numbers of pooled buffers.
#[derive(Clone, Copy, Debug, PartialEq, Eq, Hash, Structural)]
pub struct ScratchStats {
    pub f64_bufs: usize,
    pub bitmap_bufs: usize,
}

pub struct BitmapPool {
    bufs: Vec<Bitmap>,
    fresh: usize,
}

impl BitmapPool {
    pub closed spec fn view(&self) -> PoolView {
        PoolView { bufs: self.bufs@, fresh: self.fresh }
    }

    /// Every pooled bitmap is well formed.
    pub open spec fn wf(&self) -> bool {
        forall|k: int| 0 <= k < self@.bufs.len() ==> (#[trigger] self@.bufs[k]).wf()
    }

    pub fn new() -> (r: BitmapPool)
        ensures
            r@ == (PoolView { bufs: Seq::empty(), fresh: 0 }),
            r.wf(),
    {
        let r = BitmapPool { bufs: Vec::new(), fresh: 0 };
        assert(r@.bufs =~= Seq::<Bitmap>::empty());
        r
    }

    /// A bitmap of `len` elements: the last pooled one if its length is
    /// `len`, with whatever bits it holds; else a new all-null one.
    pub fn get_bitmap(&mut self, len: usize) -> (r: Bitmap)
        requires
            old(self).wf(),
            len + 63 <= usize::MAX,
        ensures
            final(self).wf(),
            final(self)@ == after_get(old(self)@, len as nat),
            r.wf(),
            r@.len() == len,
            serves(old(self)@, len as nat) ==> r == old(self)@.bufs.last(),
            !serves(old(self)@, len as nat) ==> r@ == Seq::new(len as nat, |i: int| false),
    {
        match self.bufs.pop() {
            Some(bm) => {
                if bm.len() == len {
                    return bm;
                }
            },
            None => {},
        }
        self.fresh = self.fresh.saturating_add(1);
        Bitmap::new_all_null(len)
    }

    /// Puts a bitmap back for reuse.
    pub fn return_bitmap(&mut self, bm: Bitmap)
        requires
            old(self).wf(),
            bm.wf(),
        ensures
            final(self).wf(),
            final(self)@ == after_return(old(self)@, bm),
    {
        self.bufs.push(bm);
    }

    /// Drops every pooled bitmap.
    pub fn clear(&mut self)
        ensures
            final(self).wf(),
            final(self)@ == (PoolView { bufs: Seq::empty(), ..old(self)@ }),
    {
        self.bufs.clear();
    }

    /// Number of pooled bitmaps.
    pub fn len(&self) -> (r: usize)
        ensures
            r == self@.bufs.len(),
    {
        self.bufs.len()
    }

    pub fn is_empty(&self) -> (r: bool)
        ensures
            r == (self@.bufs.len() == 0),
    {
        self.bufs.len() == 0
    }

    /// Number of bitmaps the pool has had to make.
    pub fn fresh_allocations(&self) -> (r: usize)
        ensures
            r == self@.fresh,
    {
        self.fresh
    }
}

/// One warm-up round, requesting `len` elements and returning a bitmap of
/// that length, leaves the pool ready to serve the next such request.
pub proof fn lemma_warm_up(s: PoolView, len: nat, bm: Bitmap)
    requires
        bm.spec_len() == len,
    ensures
        serves(after_return(after_get(s, len), bm), len),
{
}

/// Once the pool serves requests of `len` elements, any number of rounds of
/// requesting and returning them makes no new bitmap and leaves the pool as
/// it was.
pub proof fn lemma_steady_state_no_allocation(s: PoolView, len: nat, k: nat)
    requires
        serves(s, len),
    ensures
        cycles(s, len, k) == s,
        cycles(s, len, k).fresh == s.fresh,
    decreases k,
{
    if k > 0 {
        let next = after_return(after_get(s, len), s.bufs.last());
        assert(next.bufs =~= s.bufs);
        assert(next == s);
        lemma_steady_state_no_allocation(s, len, (k - 1) as nat);
    }
}

} // verus!
