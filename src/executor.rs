//! The executor's decisions: which segments run through the fused
//! column-wise kernel, which fail with a named condition, and the statistics
//! kept on the way. The kernels themselves run outside this module, on the
//! chain of fused operations decided here.
use vstd::prelude::*;

use crate::ir::OpId;
use crate::plan::{is_fusable_op, spec_is_fusable_op, Segment, SegmentKind};

verus! {

/// The operations that the fused column-wise kernel runs.
#[derive(Clone, Copy, Debug, PartialEq, Eq, Hash, Structural)]
pub enum FusedKind {
    Dlog,
    AddConst,
    SubConst,
    MulConst,
    DivConst,
    /// Rolling mean over a window of five.
    WMean5,
    Cumsum,
}

/// The fused kernel of a fusable operation.
pub open spec fn spec_fused_kind(op: OpId) -> FusedKind {
    match op {
        OpId::Dlog => FusedKind::Dlog,
        OpId::AddConst => FusedKind::AddConst,
        OpId::SubConst => FusedKind::SubConst,
        OpId::MulConst => FusedKind::MulConst,
        OpId::DivConst => FusedKind::DivConst,
        OpId::W5 => FusedKind::WMean5,
        _ => FusedKind::Cumsum,
    }
}

/// Why a segment could not be executed.
#[derive(Clone, Copy, Debug, PartialEq, Eq, Hash, Structural)]
pub enum ExecError {
    /// A scalar or vector segment, which table pipelines never hold.
    NotTablePipeline(SegmentKind),
    /// A path that has no implementation yet: an unfusable column-wise
    /// segment, or a row-wise, elementwise or scalar-reduction segment.
    NotYetSupported(SegmentKind),
    /// The value a segment received was not a table.
    ExpectedTable,
}

#[derive(Clone, Copy, Debug, PartialEq, Eq, Hash, Structural)]
pub struct ExecutionStats {
    /// Segments executed to the end.
    pub segments_executed: usize,
    /// Segments run through the fused kernel.
    pub segments_fused: usize,
    /// Segments that could not be fused.
    pub segments_unfused: usize,
    /// Output columns allocated.
    pub allocations: usize,
}

pub struct Executor {
    stats: ExecutionStats,
}

/// The fused chain of a segment, or none when the segment cannot be fused.
pub fn fused_chain<A>(segment: &Segment<A>) -> (r: Option<Vec<FusedKind>>)
    ensures
        r is Some <==> (segment.kind == SegmentKind::Colwise && forall|k: int|
            0 <= k < segment.ops@.len() ==> spec_is_fusable_op(#[trigger] segment.ops@[k].name)),
        r matches Some(chain) ==> chain@.len() == segment.ops@.len() && forall|k: int|
            0 <= k < chain@.len() ==> #[trigger] chain@[k] == spec_fused_kind(segment.ops@[k].name),
{
    if !segment.is_fusable() {
        return None;
    }
    let mut chain: Vec<FusedKind> = Vec::new();
    let mut k: usize = 0;
    while k < segment.ops.len()
        invariant
            k <= segment.ops@.len(),
            chain@.len() == k,
            forall|j: int| 0 <= j < k ==> #[trigger] chain@[j] == spec_fused_kind(segment.ops@[j].name),
        decreases segment.ops@.len() - k,
    {
        chain.push(fused_kind(&segment.ops[k].name));
        k = k + 1;
    }
    Some(chain)
}

fn fused_kind(op: &OpId) -> (r: FusedKind)
    ensures
        r == spec_fused_kind(*op),
{
    match op {
        OpId::Dlog => FusedKind::Dlog,
        OpId::AddConst => FusedKind::AddConst,
        OpId::SubConst => FusedKind::SubConst,
        OpId::MulConst => FusedKind::MulConst,
        OpId::DivConst => FusedKind::DivConst,
        OpId::W5 => FusedKind::WMean5,
        _ => FusedKind::Cumsum,
    }
}

impl Executor {
    pub closed spec fn view(&self) -> ExecutionStats {
        self.stats
    }

    pub fn new() -> (r: Executor)
        ensures
            r@ == (ExecutionStats {
                segments_executed: 0,
                segments_fused: 0,
                segments_unfused: 0,
                allocations: 0,
            }),
    {
        Executor {
            stats: ExecutionStats {
                segments_executed: 0,
                segments_fused: 0,
                segments_unfused: 0,
                allocations: 0,
            },
        }
    }

    pub fn stats(&self) -> (r: &ExecutionStats)
        ensures
            *r == self@,
    {
        &self.stats
    }

    /// Decides how to run a segment over a table of `columns` columns. A
    /// fusable column-wise segment yields its fused chain and counts as fused,
    /// with one allocation per column; every other table segment fails as not
    /// yet supported and counts as unfused; scalar and vector segments fail as
    /// foreign to table pipelines. Counters saturate.
    pub fn begin_segment<A>(&mut self, segment: &Segment<A>, columns: usize) -> (r: Result<
        Vec<FusedKind>,
        ExecError,
    >)
        ensures
            final(self)@.segments_executed == old(self)@.segments_executed,
            match segment.kind {
                SegmentKind::Colwise => if (forall|k: int|
                    0 <= k < segment.ops@.len() ==> spec_is_fusable_op(
                        #[trigger] segment.ops@[k].name,
                    )) {
                    &&& r matches Ok(chain) && chain@.len() == segment.ops@.len() && forall|k: int|
                        0 <= k < chain@.len() ==> #[trigger] chain@[k] == spec_fused_kind(
                            segment.ops@[k].name,
                        )
                    &&& final(self)@.segments_fused == old(self)@.segments_fused.saturating_add(1)
                    &&& final(self)@.allocations == old(self)@.allocations.saturating_add(columns)
                    &&& final(self)@.segments_unfused == old(self)@.segments_unfused
                } else {
                    &&& r == Err::<Vec<FusedKind>, ExecError>(
                        ExecError::NotYetSupported(SegmentKind::Colwise),
                    )
                    &&& final(self)@.segments_unfused == old(self)@.segments_unfused.saturating_add(1)
                    &&& final(self)@.segments_fused == old(self)@.segments_fused
                    &&& final(self)@.allocations == old(self)@.allocations
                },
                SegmentKind::Rowwise | SegmentKind::Each | SegmentKind::Real => {
                    &&& r == Err::<Vec<FusedKind>, ExecError>(
                        ExecError::NotYetSupported(segment.kind),
                    )
                    &&& final(self)@.segments_unfused == old(self)@.segments_unfused.saturating_add(1)
                    &&& final(self)@.segments_fused == old(self)@.segments_fused
                    &&& final(self)@.allocations == old(self)@.allocations
                },
                _ => {
                    &&& r == Err::<Vec<FusedKind>, ExecError>(
                        ExecError::NotTablePipeline(segment.kind),
                    )
                    &&& final(self)@ == old(self)@
                },
            },
    {
        match segment.kind {
            SegmentKind::Colwise => match fused_chain(segment) {
                Some(chain) => {
                    self.stats.segments_fused = self.stats.segments_fused.saturating_add(1);
                    self.stats.allocations = self.stats.allocations.saturating_add(columns);
                    Ok(chain)
                },
                None => {
                    self.stats.segments_unfused = self.stats.segments_unfused.saturating_add(1);
                    Err(ExecError::NotYetSupported(SegmentKind::Colwise))
                },
            },
            SegmentKind::Rowwise | SegmentKind::Each | SegmentKind::Real => {
                self.stats.segments_unfused = self.stats.segments_unfused.saturating_add(1);
                Err(ExecError::NotYetSupported(segment.kind))
            },
            _ => Err(ExecError::NotTablePipeline(segment.kind)),
        }
    }

    /// Records a segment executed to the end.
    pub fn finish_segment(&mut self)
        ensures
            final(self)@ == (ExecutionStats {
                segments_executed: old(self)@.segments_executed.saturating_add(1),
                ..old(self)@
            }),
    {
        self.stats.segments_executed = self.stats.segments_executed.saturating_add(1);
    }
}

impl Default for Executor {
    fn default() -> (r: Executor)
        ensures
            r@ == (ExecutionStats {
                segments_executed: 0,
                segments_fused: 0,
                segments_unfused: 0,
                allocations: 0,
            }),
    {
        Executor::new()
    }
}

} // verus!
