use vstd::prelude::*;
use crate::errors::{error_text, Error};
use crate::progress::{LogLevel, ProgressEvent};
use crate::task::task::Task;

verus! {

/// Tasks that may run in parallel: none depends on another.
pub struct Stage<T: Task> {
    pub label: String,
    pub tasks: Vec<T>,
}

/// Stages run strictly one after another.
pub struct Pipeline<T: Task> {
    pub label: String,
    pub stages: Vec<Stage<T>>,
    /// How many tasks may run at once; at least 1.
    pub concurrency: usize,
}

/// The progress bookkeeping of one pipeline run, fed with what the runner
/// observes and answering with the events to report.
#[derive(Debug, Clone)]
pub struct ExecTracker {
    pub pipeline_id: String,
    pub total: u64,
    pub completed: u64,
    /// The text of the first task failure.
    pub first_error: Option<String>,
}

// ───────────────────────────── specs ─────────────────────────────

/// The summed weight of `ts`.
pub open spec fn tasks_weight<T: Task>(ts: Seq<T>) -> int
    decreases ts.len(),
{
    if ts.len() == 0 {
        0
    } else {
        tasks_weight(ts.drop_last()) + ts.last().spec_weight()
    }
}

/// The summed weight of all tasks of `ss`.
pub open spec fn stages_weight<T: Task>(ss: Seq<Stage<T>>) -> int
    decreases ss.len(),
{
    if ss.len() == 0 {
        0
    } else {
        stages_weight(ss.drop_last()) + tasks_weight(ss.last().tasks@)
    }
}

proof fn lemma_tasks_weight_prefix<T: Task>(ts: Seq<T>, i: int)
    requires
        0 <= i <= ts.len(),
    ensures
        0 <= tasks_weight(ts.take(i)) <= tasks_weight(ts),
    decreases ts.len(),
{
    if i < ts.len() {
        assert(ts.drop_last().take(i) == ts.take(i));
        lemma_tasks_weight_prefix(ts.drop_last(), i);
    } else {
        assert(ts.take(i) == ts);
        lemma_tasks_weight_nonneg(ts);
    }
}

proof fn lemma_tasks_weight_nonneg<T: Task>(ts: Seq<T>)
    ensures
        tasks_weight(ts) >= 0,
    decreases ts.len(),
{
    if ts.len() > 0 {
        lemma_tasks_weight_nonneg(ts.drop_last());
    }
}

proof fn lemma_stages_weight_prefix<T: Task>(ss: Seq<Stage<T>>, i: int)
    requires
        0 <= i <= ss.len(),
    ensures
        0 <= stages_weight(ss.take(i)) <= stages_weight(ss),
        i < ss.len() ==> stages_weight(ss.take(i)) + tasks_weight(ss[i].tasks@) <= stages_weight(ss),
    decreases ss.len(),
{
    if i < ss.len() {
        assert(ss.drop_last().take(i) == ss.take(i));
        lemma_tasks_weight_nonneg(ss.last().tasks@);
        if i < ss.len() - 1 {
            lemma_stages_weight_prefix(ss.drop_last(), i);
            assert(ss.drop_last()[i] == ss[i]);
        } else {
            assert(ss.drop_last() == ss.take(i));
            lemma_stages_weight_prefix(ss.drop_last(), i);
        }
    } else {
        assert(ss.take(i) == ss);
        if ss.len() > 0 {
            lemma_stages_weight_prefix(ss.drop_last(), i - 1);
            lemma_tasks_weight_nonneg(ss.last().tasks@);
        }
    }
}

// ───────────────────────────── exec ─────────────────────────────

impl<T: Task> Stage<T> {
    /// An empty stage.
    pub fn new(label: String) -> (s: Self)
        ensures
            s.label == label,
            s.tasks@.len() == 0,
    {
        Stage { label, tasks: Vec::new() }
    }

    /// This stage with `task` added last.
    pub fn push(self, task: T) -> (s: Self)
        ensures
            s.label == self.label,
            s.tasks@ == self.tasks@.push(task),
    {
        let mut tasks = self.tasks;
        tasks.push(task);
        Stage { label: self.label, tasks }
    }

    /// This stage with `more` added last, in order.
    pub fn extend(self, more: Vec<T>) -> (s: Self)
        ensures
            s.label == self.label,
            s.tasks@ == self.tasks@ + more@,
    {
        let mut tasks = self.tasks;
        let mut more = more;
        tasks.append(&mut more);
        Stage { label: self.label, tasks }
    }

    /// The summed weight of the tasks.
    pub fn total_weight(&self) -> (w: u64)
        requires
            tasks_weight(self.tasks@) <= u64::MAX,
        ensures
            w == tasks_weight(self.tasks@),
    {
        let mut w: u64 = 0;
        let mut i: usize = 0;
        while i < self.tasks.len()
            invariant
                i <= self.tasks@.len(),
                tasks_weight(self.tasks@) <= u64::MAX,
                w == tasks_weight(self.tasks@.take(i as int)),
            decreases self.tasks@.len() - i,
        {
            assert(self.tasks@.take(i + 1).drop_last() == self.tasks@.take(i as int));
            proof {
                lemma_tasks_weight_prefix(self.tasks@, i + 1);
            }
            w = w + self.tasks[i].weight();
            i = i + 1;
        }
        assert(self.tasks@.take(i as int) == self.tasks@);
        w
    }
}

impl<T: Task> Pipeline<T> {
    /// An empty pipeline; a concurrency of 0 counts as 1.
    pub fn new(label: String, concurrency: usize) -> (p: Self)
        ensures
            p.label == label,
            p.stages@.len() == 0,
            p.concurrency == if concurrency == 0 { 1 } else { concurrency },
    {
        Pipeline { label, stages: Vec::new(), concurrency: if concurrency == 0 { 1 } else { concurrency } }
    }

    /// This pipeline with `stage` run last.
    pub fn add_stage(self, stage: Stage<T>) -> (p: Self)
        ensures
            p.label == self.label,
            p.concurrency == self.concurrency,
            p.stages@ == self.stages@.push(stage),
    {
        let mut stages = self.stages;
        stages.push(stage);
        Pipeline { label: self.label, stages, concurrency: self.concurrency }
    }

    /// The summed weight of every task of every stage.
    pub fn total_weight(&self) -> (w: u64)
        requires
            stages_weight(self.stages@) <= u64::MAX,
        ensures
            w == stages_weight(self.stages@),
    {
        let mut w: u64 = 0;
        let mut i: usize = 0;
        while i < self.stages.len()
            invariant
                i <= self.stages@.len(),
                stages_weight(self.stages@) <= u64::MAX,
                w == stages_weight(self.stages@.take(i as int)),
            decreases self.stages@.len() - i,
        {
            assert(self.stages@.take(i + 1).drop_last() == self.stages@.take(i as int));
            proof {
                lemma_stages_weight_prefix(self.stages@, i as int);
            }
            w = w + self.stages[i].total_weight();
            i = i + 1;
        }
        assert(self.stages@.take(i as int) == self.stages@);
        w
    }
}

impl ExecTracker {
    /// Starts the bookkeeping of a run of `total` weight; the event
    /// announces the run.
    pub fn start(pipeline_id: String, label: String, total: u64) -> (r: (ExecTracker, ProgressEvent))
        ensures
            r.0.pipeline_id == pipeline_id,
            r.0.total == total,
            r.0.completed == 0,
            r.0.first_error is None,
            r.1 == (ProgressEvent::TaskStarted { task_id: pipeline_id, label, total_weight: total }),
    {
        let t = ExecTracker { pipeline_id: pipeline_id.clone(), total, completed: 0, first_error: None };
        (t, ProgressEvent::TaskStarted { task_id: pipeline_id, label, total_weight: total })
    }

    /// The event that announces a stage.
    pub fn stage_entered(stage_label: &str) -> (e: ProgressEvent)
        ensures
            e matches ProgressEvent::Log { source, level, message } && source@ == "pipeline"@
                && level == LogLevel::Info && message@ == "→ "@ + stage_label@,
    {
        let mut m = "→ ".to_string();
        m.append(stage_label);
        ProgressEvent::Log { source: "pipeline".to_string(), level: LogLevel::Info, message: m }
    }

    /// Records that the task `label` of weight `weight` finished with
    /// `outcome`: a success adds its weight to the progress, a failure is
    /// logged and kept if it is the first.
    pub fn task_finished(&mut self, weight: u64, label: String, outcome: Result<(), Error>) -> (e:
        ProgressEvent)
        requires
            outcome is Ok ==> old(self).completed + weight <= u64::MAX,
        ensures
            final(self).pipeline_id == old(self).pipeline_id,
            final(self).total == old(self).total,
            outcome is Ok ==> final(self).completed == old(self).completed + weight,
            outcome is Err ==> final(self).completed == old(self).completed,
            old(self).first_error is Some ==> final(self).first_error == old(self).first_error,
            old(self).first_error is None && outcome is Ok ==> final(self).first_error is None,
            old(self).first_error is None ==> (outcome matches Err(err) ==> (final(self).first_error matches Some(m) && m@ == error_text(err))),
            outcome is Ok ==> (e matches ProgressEvent::TaskProgress { task_id, completed, total, message }
                && task_id == old(self).pipeline_id && completed == final(self).completed && total
                == old(self).total && message == Some(label)),
            outcome matches Err(err) ==> (e matches ProgressEvent::Log { source, level, message }
                && source@ == "pipeline"@ && level == LogLevel::Error && message@ == "task '"@
                + label@ + "' failed: "@ + error_text(err)),
    {
        match outcome {
            Ok(()) => {
                self.completed = self.completed + weight;
                ProgressEvent::TaskProgress {
                    task_id: self.pipeline_id.clone(),
                    completed: self.completed,
                    total: self.total,
                    message: Some(label),
                }
            },
            Err(err) => {
                let text = err.message();
                let mut m = "task '".to_string();
                m.append(label.as_str());
                m.append("' failed: ");
                m.append(text.as_str());
                if self.first_error.is_none() {
                    self.first_error = Some(text);
                }
                ProgressEvent::Log { source: "pipeline".to_string(), level: LogLevel::Error, message: m }
            },
        }
    }

    /// Whether the next stage runs: only while no task has failed.
    pub fn continues(&self) -> (b: bool)
        ensures
            b == (self.first_error is None),
    {
        self.first_error.is_none()
    }

    /// The event that ends the run.
    pub fn finish(&self) -> (e: ProgressEvent)
        ensures
            e matches ProgressEvent::TaskFinished { task_id, success, error } && task_id
                == self.pipeline_id && success == (self.first_error is None) && error
                == self.first_error,
    {
        let error = match &self.first_error {
            Some(m) => Some(m.clone()),
            None => None,
        };
        ProgressEvent::TaskFinished {
            task_id: self.pipeline_id.clone(),
            success: self.first_error.is_none(),
            error,
        }
    }
}

} // verus!
