//! Execution plans: segments of operations that share one orientation class.
use vstd::prelude::*;

use crate::ir::OpId;
use crate::orientation::{Ori, OriClass};

verus! {

#[derive(Clone, Copy, Debug, PartialEq, Eq, Hash, Structural)]
pub enum SegmentKind {
    /// Column-wise operations.
    Colwise,
    /// Row-wise operations.
    Rowwise,
    /// Elementwise operations.
    Each,
    /// Scalar reduction.
    Real,
    /// A single scalar operation outside a table pipeline.
    Scalar,
    /// A single vector operation outside a table pipeline.
    Vector,
}

/// An operation within a segment.
#[derive(Clone, Debug)]
pub struct OpStep<A> {
    pub name: OpId,
    pub args: Vec<A>,
}

/// A run of operations with one orientation class.
#[derive(Clone, Debug)]
pub struct Segment<A> {
    pub kind: SegmentKind,
    /// Orientation at the start of the segment.
    pub start_ori: Ori,
    pub ops: Vec<OpStep<A>>,
}

/// What a segment is, with its operations as a sequence.
pub ghost struct SegmentView<A> {
    pub kind: SegmentKind,
    pub start_ori: Ori,
    pub ops: Seq<OpStep<A>>,
}

#[derive(Clone, Debug)]
pub struct ExecutionPlan<A> {
    pub segments: Vec<Segment<A>>,
}

/// The segment kind that an orientation class dispatches to.
pub open spec fn kind_of_class(c: OriClass) -> SegmentKind {
    match c {
        OriClass::ColwiseLike => SegmentKind::Colwise,
        OriClass::RowwiseLike => SegmentKind::Rowwise,
        OriClass::Each => SegmentKind::Each,
        OriClass::Real => SegmentKind::Real,
    }
}

/// Operations that the fused column-wise kernel can run.
pub open spec fn spec_is_fusable_op(op: OpId) -> bool {
    match op {
        OpId::Dlog | OpId::AddConst | OpId::SubConst | OpId::MulConst | OpId::DivConst
        | OpId::W5 | OpId::Cs1 => true,
        _ => false,
    }
}

/// Aggregations, which change the shape of their output.
pub open spec fn spec_is_reducer(op: OpId) -> bool {
    op is Sum || op is Mean
}

impl<A> Segment<A> {
    pub open spec fn view(&self) -> SegmentView<A> {
        SegmentView { kind: self.kind, start_ori: self.start_ori, ops: self.ops@ }
    }

    pub fn new(kind: SegmentKind, start_ori: Ori) -> (r: Segment<A>)
        ensures
            r@ == (SegmentView::<A> { kind, start_ori, ops: Seq::empty() }),
    {
        Segment { kind, start_ori, ops: Vec::new() }
    }

    pub fn push(&mut self, op: OpStep<A>)
        ensures
            final(self)@ == (SegmentView { ops: old(self)@.ops.push(op), ..old(self)@ }),
    {
        self.ops.push(op);
    }

    /// Whether the fused kernel can run the whole segment: it is column-wise
    /// and every operation is fusable.
    pub fn is_fusable(&self) -> (r: bool)
        ensures
            r == (self.kind == SegmentKind::Colwise && forall|k: int|
                0 <= k < self.ops@.len() ==> spec_is_fusable_op(#[trigger] self.ops@[k].name)),
    {
        if self.kind != SegmentKind::Colwise {
            return false;
        }
        let mut k: usize = 0;
        while k < self.ops.len()
            invariant
                k <= self.ops@.len(),
                forall|j: int| 0 <= j < k ==> spec_is_fusable_op(#[trigger] self.ops@[j].name),
            decreases self.ops@.len() - k,
        {
            if !is_fusable_op(&self.ops[k].name) {
                return false;
            }
            k = k + 1;
        }
        true
    }
}

impl<A> ExecutionPlan<A> {
    pub open spec fn view(&self) -> Seq<SegmentView<A>> {
        self.segments@.map_values(|s: Segment<A>| s@)
    }

    pub fn new() -> (r: ExecutionPlan<A>)
        ensures
            r@ == Seq::<SegmentView<A>>::empty(),
    {
        ExecutionPlan { segments: Vec::new() }
    }

    pub fn push(&mut self, segment: Segment<A>)
        ensures
            final(self)@ == old(self)@.push(segment@),
    {
        self.segments.push(segment);
        assert(self@ =~= old(self)@.push(segment@));
    }

    pub fn len(&self) -> (r: usize)
        ensures
            r == self@.len(),
    {
        self.segments.len()
    }

    pub fn is_empty(&self) -> (r: bool)
        ensures
            r == (self@.len() == 0),
    {
        self.segments.len() == 0
    }
}

impl<A> Default for ExecutionPlan<A> {
    fn default() -> (r: ExecutionPlan<A>)
        ensures
            r@ == Seq::<SegmentView<A>>::empty(),
    {
        ExecutionPlan::new()
    }
}

/// Whether an operation can be fused: log-difference, arithmetic with a
/// constant, the five-element rolling mean and the cumulative sum.
pub fn is_fusable_op(op: &OpId) -> (r: bool)
    ensures
        r == spec_is_fusable_op(*op),
{
    match op {
        OpId::Dlog | OpId::AddConst | OpId::SubConst | OpId::MulConst | OpId::DivConst
        | OpId::W5 | OpId::Cs1 => true,
        _ => false,
    }
}

/// Whether an operation is an aggregation.
pub fn is_reducer(op: &OpId) -> (r: bool)
    ensures
        r == spec_is_reducer(*op),
{
    match op {
        OpId::Sum | OpId::Mean => true,
        _ => false,
    }
}

} // verus!
