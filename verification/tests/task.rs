use ncl::errors::Error;
use ncl::progress::{NullSink, ProgressEvent, ProgressSink};
use ncl::task::pipeline::{ExecTracker, Pipeline, Stage};
use ncl::task::task::Task;

struct Weighted {
    label: String,
    weight: u64,
}

impl Task for Weighted {
    fn spec_weight(&self) -> u64 {
        self.weight
    }
    fn label(&self) -> &str {
        &self.label
    }
    fn weight(&self) -> u64 {
        self.weight
    }
}

fn t(label: &str) -> Weighted {
    Weighted { label: label.to_string(), weight: 10 }
}

#[test]
fn pipeline_weights_add_up() {
    let pipeline = Pipeline::new("test".into(), 4)
        .add_stage(Stage::new("stage 1".into()).push(t("a")).push(t("b")))
        .add_stage(Stage::new("stage 2".into()).push(t("c")));
    assert_eq!(pipeline.total_weight(), 30);
    assert_eq!(pipeline.stages[0].total_weight(), 20);
    assert_eq!(pipeline.concurrency, 4);
    assert_eq!(Pipeline::<Weighted>::new("x".into(), 0).concurrency, 1);
    let s = Stage::new("s".into()).extend(vec![t("x"), t("y")]);
    assert_eq!(s.tasks.len(), 2);
    assert_eq!(s.tasks[1].label(), "y");
}

#[test]
fn tracker_reports_progress_to_total() {
    let (mut tr, start) = ExecTracker::start("id".into(), "test".into(), 30);
    assert!(matches!(start, ProgressEvent::TaskStarted { total_weight: 30, .. }));
    let _ = ExecTracker::stage_entered("stage 1");
    tr.task_finished(10, "a".into(), Ok(()));
    tr.task_finished(10, "b".into(), Ok(()));
    assert!(tr.continues());
    let e = tr.task_finished(10, "c".into(), Ok(()));
    match e {
        ProgressEvent::TaskProgress { completed, total, .. } => assert_eq!((completed, total), (30, 30)),
        _ => panic!("expected progress"),
    }
    assert!(matches!(tr.finish(), ProgressEvent::TaskFinished { success: true, .. }));
}

#[test]
fn tracker_first_failure_stops_later_stages() {
    let (mut tr, _) = ExecTracker::start("id".into(), "test".into(), 30);
    let e = tr.task_finished(10, "a".into(), Err(Error::Task("intentional fail: a".into())));
    match e {
        ProgressEvent::Log { message, .. } => assert_eq!(message, "task 'a' failed: task: intentional fail: a"),
        _ => panic!("expected a log"),
    }
    tr.task_finished(10, "b".into(), Ok(()));
    tr.task_finished(0, "<panicked>".into(), Err(Error::Task("later".into())));
    assert!(!tr.continues());
    assert_eq!(tr.completed, 10);
    match tr.finish() {
        ProgressEvent::TaskFinished { success, error, .. } => {
            assert!(!success);
            assert_eq!(error.as_deref(), Some("task: intentional fail: a"));
        }
        _ => panic!("expected finish"),
    }
}

#[test]
fn null_sink_accepts_events() {
    NullSink.emit(ExecTracker::stage_entered("x"));
}
