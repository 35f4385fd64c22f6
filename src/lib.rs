//! Null-aware columnar compute core: validity bitmaps, the orientation
//! algebra and its D4 composition table, kernels generic over the element
//! type with a fast (no-nulls) and a masked path, the pipeline planner, the
//! executor's segment decisions and a bitmap pool for allocation-free reuse.

pub mod bitmap;
pub mod d4;
pub mod executor;
pub mod ir;
pub mod kernels;
pub mod moments;
pub mod nullable;
pub mod nulls;
pub mod orientation;
pub mod plan;
pub mod planner;
pub mod pool;
mod text;
pub mod validity;

pub use bitmap::{Bitmap, LengthMismatch};
pub use d4::{compose, d4_to_id, id_to_d4, D4_COMP};
pub use executor::{fused_chain, ExecError, ExecutionStats, Executor, FusedKind};
pub use ir::{OpId, PipeIR, Step};
pub use kernels::{
    binary_masked, binary_no_nulls, lag_masked, lag_no_nulls, lag_wordwise, past_window_map,
    trailing_window_map, transpose, unary_masked, unary_no_nulls,
};
pub use nullable::{binary_into, lag_into, unary_into, Nullable};
pub use moments::{past_window, MomentsMask};
pub use nulls::{
    date_validity, materialize_date_sentinel, materialize_timestamp_sentinel, timestamp_validity,
    validity_from_nulls, NULL_DATE, NULL_TIMESTAMP, NULL_TS,
};
pub use orientation::{
    lookup_ori, ori_h, ori_n, ori_r, ori_rev_h, ori_rev_n, ori_rev_s, ori_rev_z, ori_s, ori_specs,
    ori_x, ori_z, Ori, OriClass, OriSpec, ReduceMode, VecAxis,
};
pub use plan::{is_fusable_op, ExecutionPlan, OpStep, Segment, SegmentKind};
pub use planner::Planner;
pub use pool::{BitmapPool, ScratchStats};
pub use validity::{
    lag_validity_masked, lag_validity_wordwise, lag_word_plan, window_validity, WordPlan,
};
