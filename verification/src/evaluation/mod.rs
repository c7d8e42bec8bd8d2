//! Evaluation of rankings: recorded batches, labeled frames and live batches,
//! with what their reports say.

pub mod baselines;
pub mod comparison;
pub mod explain;
pub mod frame;
pub mod labels;
pub mod live;
pub mod policies;
pub mod preflight;
pub mod replay;
pub mod report;
pub mod review;
pub mod sampling;
pub mod settled;
pub mod variants;
