//! Staged task pipelines: stages run one after another, the tasks of a
//! stage in parallel; progress is the sum of finished task weights.

pub mod pipeline;
pub mod task;
