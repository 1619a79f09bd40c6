//! The state of one workflow run.
//!
//! A run records, append-only, one result per step attempt and an
//! ordered log.  It is created running, mutated as steps finish, and
//! closed once by `complete`.  Per-step status during a run lives here,
//! in the step results, never on the shared workflow.

use vstd::prelude::*;

use crate::strings::str_eq;
use crate::sys::{fresh_id, now_ts};
use crate::workflow::{opt_text, WorkflowStatus, WorkflowStepStatus};

verus! {

/// Mathematical model of one step attempt's outcome.
pub struct StepResultModel {
    pub step_id: Seq<char>,
    pub status: WorkflowStepStatus,
    pub started_at: u64,
    pub completed_at: Option<u64>,
    pub output: Option<Seq<char>>,
    pub error_message: Option<Seq<char>>,
    pub exit_code: Option<i32>,
}

/// Mathematical model of one log entry.
pub struct LogModel {
    pub timestamp: u64,
    pub level: Seq<char>,
    pub message: Seq<char>,
    pub step_id: Option<Seq<char>>,
}

/// Mathematical model of a run.
pub struct ExecutionModel {
    pub id: Seq<char>,
    pub workflow_id: Seq<char>,
    pub trigger_id: Option<Seq<char>>,
    pub status: WorkflowStatus,
    pub started_at: u64,
    pub completed_at: Option<u64>,
    pub step_results: Seq<StepResultModel>,
    pub error_message: Option<Seq<char>>,
    pub logs: Seq<LogModel>,
}

/// The recorded outcome of one attempt of one step.
#[derive(Debug)]
pub struct WorkflowStepResult {
    pub step_id: String,
    pub status: WorkflowStepStatus,
    pub started_at: u64,
    pub completed_at: Option<u64>,
    pub output: Option<String>,
    pub error_message: Option<String>,
    pub exit_code: Option<i32>,
}

impl View for WorkflowStepResult {
    type V = StepResultModel;

    open spec fn view(&self) -> StepResultModel {
        StepResultModel {
            step_id: self.step_id@,
            status: self.status,
            started_at: self.started_at,
            completed_at: self.completed_at,
            output: opt_text(self.output),
            error_message: opt_text(self.error_message),
            exit_code: self.exit_code,
        }
    }
}

impl Clone for WorkflowStepResult {
    fn clone(&self) -> (r: Self)
        ensures
            r@ == self@,
    {
        WorkflowStepResult {
            step_id: self.step_id.clone(),
            status: self.status,
            started_at: self.started_at,
            completed_at: self.completed_at,
            output: crate::workflow::clone_opt_string(&self.output),
            error_message: crate::workflow::clone_opt_string(&self.error_message),
            exit_code: self.exit_code,
        }
    }
}

/// One timestamped log line of a run.
#[derive(Debug)]
pub struct WorkflowLog {
    pub timestamp: u64,
    pub level: String,
    pub message: String,
    pub step_id: Option<String>,
}

impl View for WorkflowLog {
    type V = LogModel;

    open spec fn view(&self) -> LogModel {
        LogModel {
            timestamp: self.timestamp,
            level: self.level@,
            message: self.message@,
            step_id: opt_text(self.step_id),
        }
    }
}

/// The models of a sequence of step results.
pub open spec fn results_view(rs: Seq<WorkflowStepResult>) -> Seq<StepResultModel> {
    rs.map_values(|r: WorkflowStepResult| r@)
}

/// The models of a sequence of log entries.
pub open spec fn logs_view(ls: Seq<WorkflowLog>) -> Seq<LogModel> {
    ls.map_values(|l: WorkflowLog| l@)
}

/// First result recorded for the given step id, if any.
pub open spec fn find_result_model(rs: Seq<StepResultModel>, id: Seq<char>) -> Option<
    StepResultModel,
>
    decreases rs.len(),
{
    if rs.len() == 0 {
        None
    } else if rs[0].step_id == id {
        Some(rs[0])
    } else {
        find_result_model(rs.subrange(1, rs.len() as int), id)
    }
}

/// How many results the given step id has.
pub open spec fn count_results(rs: Seq<StepResultModel>, id: Seq<char>) -> int
    decreases rs.len(),
{
    if rs.len() == 0 {
        0
    } else {
        (if rs[0].step_id == id {
            1int
        } else {
            0int
        }) + count_results(rs.subrange(1, rs.len() as int), id)
    }
}

/// If the first `i` results are not for `id`, the search only depends
/// on the rest.
pub proof fn lemma_find_result_skip(rs: Seq<StepResultModel>, id: Seq<char>, i: int)
    requires
        0 <= i <= rs.len(),
        forall|j: int| 0 <= j < i ==> (#[trigger] rs[j]).step_id != id,
    ensures
        find_result_model(rs, id) == find_result_model(rs.subrange(i, rs.len() as int), id),
    decreases i,
{
    if i == 0 {
        assert(rs.subrange(0, rs.len() as int) =~= rs);
    } else {
        let rest = rs.subrange(1, rs.len() as int);
        lemma_find_result_skip(rest, id, i - 1);
        assert(rest.subrange(i - 1, rest.len() as int) =~= rs.subrange(i, rs.len() as int));
    }
}

/// Counting one appended result.
pub proof fn lemma_count_results_push(rs: Seq<StepResultModel>, id: Seq<char>, e: StepResultModel)
    ensures
        count_results(rs.push(e), id) == count_results(rs, id) + (if e.step_id == id {
            1int
        } else {
            0int
        }),
    decreases rs.len(),
{
    if rs.len() == 0 {
        assert(rs.push(e)[0] == e);
        assert(rs.push(e).subrange(1, 1) =~= Seq::<StepResultModel>::empty());
        assert(count_results(Seq::<StepResultModel>::empty(), id) == 0);
    } else {
        let rest = rs.subrange(1, rs.len() as int);
        lemma_count_results_push(rest, id, e);
        assert(rs.push(e).subrange(1, rs.push(e).len() as int) =~= rest.push(e));
    }
}

/// One run of a workflow: status, results and logs.
#[derive(Debug)]
pub struct WorkflowExecution {
    pub id: String,
    pub workflow_id: String,
    pub trigger_id: Option<String>,
    pub status: WorkflowStatus,
    pub started_at: u64,
    pub completed_at: Option<u64>,
    pub step_results: Vec<WorkflowStepResult>,
    pub error_message: Option<String>,
    pub logs: Vec<WorkflowLog>,
}

impl View for WorkflowExecution {
    type V = ExecutionModel;

    open spec fn view(&self) -> ExecutionModel {
        ExecutionModel {
            id: self.id@,
            workflow_id: self.workflow_id@,
            trigger_id: opt_text(self.trigger_id),
            status: self.status,
            started_at: self.started_at,
            completed_at: self.completed_at,
            step_results: results_view(self.step_results@),
            error_message: opt_text(self.error_message),
            logs: logs_view(self.logs@),
        }
    }
}

impl WorkflowExecution {
    /// A fresh run: new id, running, no results, no logs.
    pub fn new(workflow_id: String, trigger_id: Option<String>) -> (r: Self)
        ensures
            r@.id.len() == 36,
            r@.workflow_id == workflow_id@,
            r@.trigger_id == opt_text(trigger_id),
            r@.status == WorkflowStatus::Running,
            r@.completed_at is None,
            r@.step_results.len() == 0,
            r@.error_message is None,
            r@.logs.len() == 0,
    {
        let r = WorkflowExecution {
            id: fresh_id(),
            workflow_id,
            trigger_id,
            status: WorkflowStatus::Running,
            started_at: now_ts(),
            completed_at: None,
            step_results: Vec::new(),
            error_message: None,
            logs: Vec::new(),
        };
        assert(r@.step_results =~= Seq::<StepResultModel>::empty());
        assert(r@.logs =~= Seq::<LogModel>::empty());
        r
    }

    /// Append one step result; attempts of a retried step accumulate.
    pub fn add_step_result(&mut self, result: WorkflowStepResult)
        ensures
            final(self)@ == (ExecutionModel {
                step_results: old(self)@.step_results.push(result@),
                ..old(self)@
            }),
    {
        self.step_results.push(result);
        assert(self@.step_results =~= old(self)@.step_results.push(
            self.step_results@[self.step_results@.len() - 1]@,
        ));
    }

    /// Append one log entry, stamped with the current time.
    pub fn add_log(&mut self, level: String, message: String, step_id: Option<String>)
        ensures
            final(self)@ == (ExecutionModel {
                logs: old(self)@.logs.push(final(self)@.logs.last()),
                ..old(self)@
            }),
            final(self)@.logs.len() == old(self)@.logs.len() + 1,
            final(self)@.logs.last().level == level@,
            final(self)@.logs.last().message == message@,
            final(self)@.logs.last().step_id == opt_text(step_id),
    {
        let entry = WorkflowLog { timestamp: now_ts(), level, message, step_id };
        self.logs.push(entry);
        assert(self@.logs =~= old(self)@.logs.push(self.logs@[self.logs@.len() - 1]@));
    }

    /// Close the run: set the final status, the completion time and the
    /// top-level error, if any.  Calling it again overwrites; the
    /// driver calls it once.
    pub fn complete(&mut self, status: WorkflowStatus, error_message: Option<String>)
        ensures
            final(self)@ == (ExecutionModel {
                status,
                completed_at: Some(final(self)@.completed_at->Some_0),
                error_message: opt_text(error_message),
                ..old(self)@
            }),
    {
        self.status = status;
        self.completed_at = Some(now_ts());
        self.error_message = error_message;
    }

    /// Milliseconds from start to completion, if completed; a clock
    /// that ran backwards reports zero.
    pub fn duration(&self) -> (r: Option<u64>)
        ensures
            r == match self@.completed_at {
                Some(c) => Some(
                    (if c >= self@.started_at {
                        (c - self@.started_at) as u64
                    } else {
                        0u64
                    }),
                ),
                None => None::<u64>,
            },
    {
        match self.completed_at {
            Some(c) => {
                if c >= self.started_at {
                    Some(c - self.started_at)
                } else {
                    Some(0)
                }
            },
            None => None,
        }
    }

    /// The first result recorded for the given step id, if any; retried
    /// steps keep their later attempts further down the list.
    pub fn get_step_result(&self, step_id: &String) -> (r: Option<&WorkflowStepResult>)
        ensures
            match r {
                Some(s) => find_result_model(self@.step_results, step_id@) == Some(s@),
                None => find_result_model(self@.step_results, step_id@) is None,
            },
    {
        let mut i: usize = 0;
        while i < self.step_results.len()
            invariant
                i <= self.step_results@.len(),
                forall|j: int|
                    0 <= j < i ==> (#[trigger] results_view(self.step_results@)[j]).step_id
                        != step_id@,
            decreases self.step_results@.len() - i,
        {
            if str_eq(&self.step_results[i].step_id, step_id) {
                proof {
                    lemma_find_result_skip(self@.step_results, step_id@, i as int);
                }
                return Some(&self.step_results[i]);
            }
            assert(results_view(self.step_results@)[i as int].step_id != step_id@);
            i = i + 1;
        }
        proof {
            lemma_find_result_skip(self@.step_results, step_id@, self@.step_results.len() as int);
            assert(self@.step_results.subrange(
                self@.step_results.len() as int,
                self@.step_results.len() as int,
            ) =~= Seq::<StepResultModel>::empty());
        }
        None
    }
}

/// Summary of a finished run.
#[derive(Debug, Clone)]
pub struct WorkflowResult {
    pub execution_id: String,
    pub workflow_id: String,
    pub status: WorkflowStatus,
    pub duration_seconds: u64,
    pub steps_completed: u32,
    pub steps_failed: u32,
    pub error_message: Option<String>,
}

} // verus!
