//! Progress and log events reported by long-running operations.

use vstd::prelude::*;

verus! {

/// An event reported to the UI or the command line.
#[derive(Debug, Clone)]
pub enum ProgressEvent {
    TaskStarted { task_id: String, label: String, total_weight: u64 },
    TaskProgress { task_id: String, completed: u64, total: u64, message: Option<String> },
    TaskFinished { task_id: String, success: bool, error: Option<String> },
    Log { source: String, level: LogLevel, message: String },
}

/// Log severity.
#[derive(Debug, Clone, Copy, PartialEq, Eq, Structural)]
pub enum LogLevel {
    Trace,
    Debug,
    Info,
    Warn,
    Error,
}

/// Where progress events go: the command line, the UI, or nowhere.
pub trait ProgressSink {
    /// Reports one event.
    fn emit(&self, event: ProgressEvent);
}

/// A sink that drops every event.
pub struct NullSink;

impl ProgressSink for NullSink {
    fn emit(&self, event: ProgressEvent) {
    }
}

} // verus!
