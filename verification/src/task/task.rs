use vstd::prelude::*;

verus! {

/// The smallest unit of work of a pipeline.
///
/// `weight` is its share of the pipeline's progress; any unit works as long
/// as one pipeline uses one. Running a task is the caller's business.
pub trait Task {
    /// Its share of the pipeline progress; 1 unless the task says otherwise.
    open spec fn spec_weight(&self) -> u64 {
        1
    }

    /// A human-readable label, shown in logs and events.
    fn label(&self) -> &str;

    /// Its share of the pipeline progress: 1 for a task that does not give
    /// `spec_weight`.
    fn weight(&self) -> (w: u64)
        ensures
            w == self.spec_weight(),
    ;
}

} // verus!
