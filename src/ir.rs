//! Pipeline intermediate representation: a linear list of orientation changes
//! and operations. Operation arguments are of any type `A` (the engine uses
//! floating-point constants); planning never reads them.
use vstd::prelude::*;

use crate::orientation::Ori;

verus! {

/// Operation identifier.
#[derive(Clone, Debug, PartialEq, Eq, Hash)]
pub enum OpId {
    /// Log-difference over a lag.
    Dlog,
    /// Rolling mean over a window of five.
    W5,
    /// Cumulative sum.
    Cs1,
    AddConst,
    SubConst,
    MulConst,
    DivConst,
    /// Sum aggregation.
    Sum,
    /// Mean aggregation.
    Mean,
    /// Any other named operation.
    Generic(String),
}

/// One step of a pipeline.
#[derive(Clone, Debug)]
pub enum Step<A> {
    /// Sets the orientation absolutely.
    OriSet(Ori),
    /// Composes the current orientation with the given one.
    OriRel(Ori),
    /// Applies an operation with scalar arguments.
    Op { name: OpId, args: Vec<A> },
}

#[derive(Clone, Debug)]
pub struct PipeIR<A> {
    pub steps: Vec<Step<A>>,
}

impl<A> PipeIR<A> {
    pub fn new() -> (r: PipeIR<A>)
        ensures
            r.steps@ == Seq::<Step<A>>::empty(),
    {
        PipeIR { steps: Vec::new() }
    }

    pub fn push(&mut self, step: Step<A>)
        ensures
            final(self).steps@ == old(self).steps@.push(step),
    {
        self.steps.push(step);
    }

    pub fn len(&self) -> (r: usize)
        ensures
            r == self.steps@.len(),
    {
        self.steps.len()
    }

    pub fn is_empty(&self) -> (r: bool)
        ensures
            r == (self.steps@.len() == 0),
    {
        self.steps.len() == 0
    }
}

impl<A> Default for PipeIR<A> {
    fn default() -> (r: PipeIR<A>)
        ensures
            r.steps@ == Seq::<Step<A>>::empty(),
    {
        PipeIR::new()
    }
}

} // verus!
