//! The planner: walks a pipeline's steps left to right, tracking the current
//! orientation, and cuts the operations into segments at orientation-class
//! changes and around aggregations.
use vstd::prelude::*;

use crate::d4::{compose, spec_compose};
use crate::ir::{OpId, PipeIR, Step};
use crate::orientation::{spec_class, Ori, OriClass};
use crate::plan::{
    is_reducer, kind_of_class, spec_is_reducer, ExecutionPlan, OpStep, Segment, SegmentKind,
    SegmentView,
};

verus! {

/// The planner's state: current orientation, the segment being built and the
/// segments done.
pub ghost struct PlanState<A> {
    pub ori: Ori,
    pub open: Option<SegmentView<A>>,
    pub done: Seq<SegmentView<A>>,
}

pub open spec fn initial_state<A>() -> PlanState<A> {
    PlanState {
        ori: Ori::D4 { swap: false, flip_i: false, flip_j: false },
        open: None,
        done: Seq::empty(),
    }
}

/// Closes the open segment; an empty one is dropped.
pub open spec fn flush<A>(s: PlanState<A>) -> PlanState<A> {
    match s.open {
        Some(seg) => if seg.ops.len() > 0 {
            PlanState { open: None, done: s.done.push(seg), ..s }
        } else {
            PlanState { open: None, ..s }
        },
        None => s,
    }
}

/// Appends an operation, opening a segment of the current orientation's kind
/// when none is open.
pub open spec fn append_op<A>(s: PlanState<A>, op: OpStep<A>) -> PlanState<A> {
    let seg = match s.open {
        Some(g) => g,
        None => SegmentView {
            kind: kind_of_class(spec_class(s.ori)),
            start_ori: s.ori,
            ops: Seq::empty(),
        },
    };
    PlanState { open: Some(SegmentView { ops: seg.ops.push(op), ..seg }), ..s }
}

/// One step of planning.
pub open spec fn process<A>(s: PlanState<A>, step: Step<A>) -> PlanState<A> {
    match step {
        Step::OriSet(o) => PlanState { ori: o, ..flush(s) },
        Step::OriRel(o) => match spec_compose(s.ori, o) {
            Some(n) => if spec_class(s.ori) != spec_class(n) {
                PlanState { ori: n, ..flush(s) }
            } else {
                PlanState { ori: n, ..s }
            },
            None => PlanState { ori: o, ..flush(s) },
        },
        Step::Op { name, args } => {
            let op = OpStep { name, args };
            if spec_is_reducer(name) {
                flush(append_op(flush(s), op))
            } else {
                append_op(s, op)
            }
        },
    }
}

/// The state after the given steps.
pub open spec fn run<A>(steps: Seq<Step<A>>) -> PlanState<A>
    decreases steps.len(),
{
    if steps.len() == 0 {
        initial_state()
    } else {
        process(run(steps.drop_last()), steps.last())
    }
}

/// The segments that planning the given steps yields.
pub open spec fn spec_plan<A>(steps: Seq<Step<A>>) -> Seq<SegmentView<A>> {
    flush(run(steps)).done
}

/// The operations of the given steps, in order.
pub open spec fn ops_of<A>(steps: Seq<Step<A>>) -> Seq<OpStep<A>>
    decreases steps.len(),
{
    if steps.len() == 0 {
        Seq::empty()
    } else {
        let rest = ops_of(steps.drop_last());
        match steps.last() {
            Step::Op { name, args } => rest.push(OpStep { name, args }),
            _ => rest,
        }
    }
}

/// The operations of the given segments, in order.
pub open spec fn ops_in<A>(segs: Seq<SegmentView<A>>) -> Seq<OpStep<A>>
    decreases segs.len(),
{
    if segs.len() == 0 {
        Seq::empty()
    } else {
        ops_in(segs.drop_last()) + segs.last().ops
    }
}

/// A segment as the planner emits it: non-empty, of the kind of its starting
/// orientation's class, and an aggregation only ever alone.
pub open spec fn segment_ok<A>(seg: SegmentView<A>) -> bool {
    &&& seg.ops.len() > 0
    &&& seg.kind == kind_of_class(spec_class(seg.start_ori))
    &&& forall|k: int| 0 <= k < seg.ops.len() && spec_is_reducer(#[trigger] seg.ops[k].name)
        ==> seg.ops.len() == 1
}

pub struct Planner<A> {
    current_ori: Ori,
    current_segment: Option<Segment<A>>,
    segments: Vec<Segment<A>>,
}

impl<A> Planner<A> {
    pub closed spec fn view(&self) -> PlanState<A> {
        PlanState {
            ori: self.current_ori,
            open: match self.current_segment {
                Some(g) => Some(g@),
                None => None,
            },
            done: self.segments@.map_values(|g: Segment<A>| g@),
        }
    }

    /// A planner at the column-wise identity orientation, with nothing planned.
    pub fn new() -> (r: Planner<A>)
        ensures
            r@ == initial_state::<A>(),
    {
        let r = Planner {
            current_ori: Ori::D4 { swap: false, flip_i: false, flip_j: false },
            current_segment: None,
            segments: Vec::new(),
        };
        assert(r@.done =~= Seq::<SegmentView<A>>::empty());
        r
    }

    /// Plans a pipeline, which it consumes.
    pub fn plan(ir: PipeIR<A>) -> (r: ExecutionPlan<A>)
        ensures
            r@ == spec_plan(ir.steps@),
    {
        let ghost steps = ir.steps@;
        let mut planner = Planner::new();
        for step in it: ir.steps.into_iter()
            invariant
                it.seq() == steps,
                planner@ == run(steps.subrange(0, it.index() as int)),
        {
            let ghost before = steps.subrange(0, it.index() as int);
            planner.process_step(step);
            proof {
                let after = steps.subrange(0, it.index() + 1);
                assert(after.drop_last() =~= before);
            }
        }
        assert(steps.subrange(0, steps.len() as int) =~= steps);
        planner.flush_segment();
        let r = ExecutionPlan { segments: planner.segments };
        assert(r@ =~= spec_plan(steps));
        r
    }

    fn process_step(&mut self, step: Step<A>)
        ensures
            final(self)@ == process(old(self)@, step),
    {
        let ghost s0 = self@;
        match step {
            Step::OriSet(new_ori) => {
                self.flush_segment();
                self.current_ori = new_ori;
            },
            Step::OriRel(rel_ori) => {
                match compose(self.current_ori, rel_ori) {
                    Some(new_ori) => {
                        if !same_class(self.current_ori.class(), new_ori.class()) {
                            self.flush_segment();
                        }
                        self.current_ori = new_ori;
                    },
                    None => {
                        self.flush_segment();
                        self.current_ori = rel_ori;
                    },
                }
            },
            Step::Op { name, args } => {
                let reducer = is_reducer(&name);
                if reducer {
                    self.flush_segment();
                }
                if self.current_segment.is_none() {
                    self.start_segment();
                }
                let ghost s1 = self@;
                let op = OpStep { name, args };
                match self.current_segment.take() {
                    Some(mut seg) => {
                        seg.push(op);
                        self.current_segment = Some(seg);
                    },
                    None => {},
                }
                assert(self@.done =~= s1.done);
                if reducer {
                    self.flush_segment();
                }
            },
        }
    }

    fn start_segment(&mut self)
        requires
            old(self).current_segment is None,
        ensures
            final(self)@ == (PlanState {
                open: Some(
                    SegmentView {
                        kind: kind_of_class(spec_class(old(self)@.ori)),
                        start_ori: old(self)@.ori,
                        ops: Seq::empty(),
                    },
                ),
                ..old(self)@
            }),
    {
        let kind = segment_kind(self.current_ori);
        self.current_segment = Some(Segment::new(kind, self.current_ori));
        assert(self@.done =~= old(self)@.done);
    }

    fn flush_segment(&mut self)
        ensures
            final(self)@ == flush(old(self)@),
    {
        match self.current_segment.take() {
            Some(seg) => {
                if seg.ops.len() > 0 {
                    let ghost g = seg@;
                    self.segments.push(seg);
                    assert(self@.done =~= old(self)@.done.push(g));
                } else {
                    assert(self@.done =~= old(self)@.done);
                }
            },
            None => {
                assert(self@.done =~= old(self)@.done);
            },
        }
    }
}

impl<A> Default for Planner<A> {
    fn default() -> (r: Planner<A>)
        ensures
            r@ == initial_state::<A>(),
    {
        Planner::new()
    }
}

fn same_class(a: OriClass, b: OriClass) -> (r: bool)
    ensures
        r == (a == b),
{
    a == b
}

/// The segment kind of an orientation's class.
fn segment_kind(ori: Ori) -> (r: SegmentKind)
    ensures
        r == kind_of_class(spec_class(ori)),
{
    match ori.class() {
        OriClass::ColwiseLike => SegmentKind::Colwise,
        OriClass::RowwiseLike => SegmentKind::Rowwise,
        OriClass::Each => SegmentKind::Each,
        OriClass::Real => SegmentKind::Real,
    }
}

/// The operations of the open segment, if any.
pub open spec fn open_ops<A>(s: PlanState<A>) -> Seq<OpStep<A>> {
    match s.open {
        Some(g) => g.ops,
        None => Seq::empty(),
    }
}

/// What holds of the planner's state after the given steps.
pub open spec fn state_ok<A>(s: PlanState<A>, steps: Seq<Step<A>>) -> bool {
    &&& forall|k: int| 0 <= k < s.done.len() ==> segment_ok(#[trigger] s.done[k])
    &&& s.open matches Some(g) ==> {
        &&& g.kind == kind_of_class(spec_class(g.start_ori))
        &&& forall|t: int| 0 <= t < g.ops.len() ==> !spec_is_reducer(#[trigger] g.ops[t].name)
    }
    &&& ops_in(s.done) + open_ops(s) == ops_of(steps)
}

proof fn lemma_ops_in_push<A>(segs: Seq<SegmentView<A>>, g: SegmentView<A>)
    ensures
        ops_in(segs.push(g)) == ops_in(segs) + g.ops,
{
    assert(segs.push(g).drop_last() =~= segs);
}

proof fn lemma_flush_ok<A>(s: PlanState<A>, steps: Seq<Step<A>>)
    requires
        forall|k: int| 0 <= k < s.done.len() ==> segment_ok(#[trigger] s.done[k]),
        s.open matches Some(g) ==> g.kind == kind_of_class(spec_class(g.start_ori)) && (forall|
            t: int,
        |
            0 <= t < g.ops.len() && spec_is_reducer(#[trigger] g.ops[t].name) ==> g.ops.len()
                == 1),
        ops_in(s.done) + open_ops(s) == ops_of(steps),
    ensures
        state_ok(flush(s), steps),
        flush(s).open is None,
        flush(s).ori == s.ori,
{
    match s.open {
        Some(g) => {
            if g.ops.len() > 0 {
                lemma_ops_in_push(s.done, g);
                let f = flush(s);
                assert forall|k: int| 0 <= k < f.done.len() implies segment_ok(
                    #[trigger] f.done[k],
                ) by {
                    if k < s.done.len() {
                        assert(f.done[k] == s.done[k]);
                    }
                }
                assert(open_ops(f) =~= Seq::<OpStep<A>>::empty());
                assert(ops_in(f.done) + open_ops(f) =~= ops_in(s.done) + open_ops(s));
            } else {
                assert(g.ops =~= Seq::<OpStep<A>>::empty());
                assert(ops_in(s.done) + open_ops(s) =~= ops_in(s.done));
                assert(ops_in(flush(s).done) + open_ops(flush(s)) =~= ops_in(s.done));
            }
        },
        None => {},
    }
}

proof fn lemma_process_ok<A>(s: PlanState<A>, steps: Seq<Step<A>>, step: Step<A>)
    requires
        state_ok(s, steps),
    ensures
        state_ok(process(s, step), steps.push(step)),
{
    let steps2 = steps.push(step);
    assert(steps2.drop_last() =~= steps);
    assert(steps2.last() == step);
    match step {
        Step::Op { name, args } => {
            let op = OpStep { name, args };
            assert(ops_of(steps2) == ops_of(steps).push(op));
            if spec_is_reducer(name) {
                lemma_flush_ok(s, steps);
                let f = flush(s);
                let a = append_op(f, op);
                let g = a.open->Some_0;
                assert(g.ops =~= seq![op]);
                assert(ops_in(a.done) + open_ops(a) =~= ops_in(f.done) + open_ops(f) + seq![op]);
                assert(open_ops(f) =~= Seq::<OpStep<A>>::empty());
                assert(ops_in(f.done) + open_ops(f) =~= ops_in(f.done));
                assert(ops_in(a.done) + open_ops(a) =~= ops_of(steps2));
                lemma_flush_ok(a, steps2);
            } else {
                let a = append_op(s, op);
                let g = a.open->Some_0;
                assert(open_ops(a) =~= open_ops(s).push(op));
                assert(ops_in(a.done) + open_ops(a) =~= (ops_in(s.done) + open_ops(s)).push(op));
                assert forall|t: int| 0 <= t < g.ops.len() implies !spec_is_reducer(
                    #[trigger] g.ops[t].name,
                ) by {
                    if t < g.ops.len() - 1 {
                        assert(g.ops[t] == open_ops(s)[t]);
                    }
                }
            }
        },
        _ => {
            assert(ops_of(steps2) == ops_of(steps));
            lemma_flush_ok(s, steps);
        },
    }
}

proof fn lemma_run_ok<A>(steps: Seq<Step<A>>)
    ensures
        state_ok(run(steps), steps),
    decreases steps.len(),
{
    if steps.len() == 0 {
        assert(ops_in(initial_state::<A>().done) + open_ops(initial_state::<A>()) =~= Seq::<
            OpStep<A>,
        >::empty());
    } else {
        let rest = steps.drop_last();
        lemma_run_ok(rest);
        lemma_process_ok(run(rest), rest, steps.last());
        assert(rest.push(steps.last()) =~= steps);
    }
}

/// Planning loses, duplicates and reorders no operation: the operations of
/// the segments, read in order, are those of the pipeline.
pub proof fn lemma_plan_keeps_ops<A>(steps: Seq<Step<A>>)
    ensures
        ops_in(spec_plan(steps)) == ops_of(steps),
{
    lemma_run_ok(steps);
    lemma_flush_ok(run(steps), steps);
    let f = flush(run(steps));
    assert(ops_in(f.done) + open_ops(f) =~= ops_in(f.done));
}

/// Every segment of a plan is non-empty, has the kind of its starting
/// orientation's class, and holds an aggregation only as its sole operation.
pub proof fn lemma_plan_segments_ok<A>(steps: Seq<Step<A>>)
    ensures
        forall|k: int| 0 <= k < spec_plan(steps).len() ==> segment_ok(#[trigger] spec_plan(steps)[k]),
{
    lemma_run_ok(steps);
    lemma_flush_ok(run(steps), steps);
}

} // verus!
