//! The run driver: how one run of a workflow advances.
//!
//! The driver owns a frozen copy of the workflow, the run state, and
//! the set of completed step ids.  It decides, purely, what to do next
//! ([`WorkflowDriver::poll`]) and how a reported step outcome changes
//! the run ([`WorkflowDriver::record_step_outcome`]): a failed attempt
//! is retried while the step's retry budget lasts, a failure with
//! continue-on-error lets dependents proceed and is logged, and any
//! other failure aborts the run.  What a step operationally does —
//! spawning processes, timing out — is the caller's side; it reports
//! back plain values, and a timed-out step is reported as failed.

use vstd::prelude::*;

use crate::execution::{
    count_results, lemma_count_results_push, results_view, ExecutionModel, StepResultModel,
    WorkflowExecution, WorkflowStepResult,
};
use crate::strings::{contains_string, seq_has_text, str_eq, strs_view};
use crate::sys::now_ts;
use crate::workflow::{
    find_step_model, opt_text, ready_filter, steps_view, StepModel, Workflow, WorkflowStatus,
    WorkflowStep, WorkflowStepStatus,
};
use vstd::string::StringExecFns;

verus! {

/// What the driver asks for next.
#[derive(Debug)]
pub enum DriverPoll {
    /// Run these steps; all of them are ready.
    Dispatch(Vec<WorkflowStep>),
    /// Every step is completed; close the run.
    Finished,
    /// Nothing is ready and steps remain: the graph is damaged.
    Stalled,
}

/// What to do after one step attempt.
#[derive(Debug, Clone, Copy, PartialEq, Eq, Structural)]
pub enum StepDisposition {
    /// Run the same step again: it failed inside its retry budget.
    Retry,
    /// Go on to the next poll.
    Proceed,
    /// The run is failed and closed.
    Abort,
}

/// The retry budget of the step `id`: extra attempts after the first.
pub open spec fn step_retry_limit(steps: Seq<StepModel>, id: Seq<char>) -> int {
    match find_step_model(steps, id) {
        Some(s) => s.retry_count as int,
        None => 0,
    }
}

/// Whether a failure of the step `id` lets dependents proceed.
pub open spec fn step_continues(steps: Seq<StepModel>, id: Seq<char>) -> bool {
    match find_step_model(steps, id) {
        Some(s) => s.continue_on_error,
        None => false,
    }
}

/// The disposition of an attempt: `prior` are the results recorded
/// before it, `status` its outcome.
pub open spec fn outcome_disposition(
    steps: Seq<StepModel>,
    prior: Seq<StepResultModel>,
    id: Seq<char>,
    status: WorkflowStepStatus,
) -> StepDisposition {
    if status == WorkflowStepStatus::Failed {
        if count_results(prior, id) + 1 <= step_retry_limit(steps, id) {
            StepDisposition::Retry
        } else if step_continues(steps, id) {
            StepDisposition::Proceed
        } else {
            StepDisposition::Abort
        }
    } else {
        StepDisposition::Proceed
    }
}

/// Every step's id is in `completed`.
pub open spec fn all_steps_completed(steps: Seq<StepModel>, completed: Seq<Seq<char>>) -> bool {
    forall|i: int| 0 <= i < steps.len() ==> seq_has_text(completed, (#[trigger] steps[i]).id)
}

/// How many of the recorded results carry the given step id.
fn count_results_for(rs: &Vec<WorkflowStepResult>, id: &String) -> (r: usize)
    ensures
        r == count_results(results_view(rs@), id@),
        r <= rs@.len(),
{
    let mut c: usize = 0;
    let mut i: usize = 0;
    proof {
        assert(results_view(rs@.subrange(0, 0)) =~= Seq::<StepResultModel>::empty());
    }
    while i < rs.len()
        invariant
            i <= rs@.len(),
            c <= i,
            c == count_results(results_view(rs@.subrange(0, i as int)), id@),
        decreases rs@.len() - i,
    {
        proof {
            lemma_count_results_push(results_view(rs@.subrange(0, i as int)), id@, rs@[i as int]@);
            assert(results_view(rs@.subrange(0, i as int + 1)) =~= results_view(
                rs@.subrange(0, i as int),
            ).push(rs@[i as int]@));
        }
        if str_eq(&rs[i].step_id, id) {
            c = c + 1;
        }
        i = i + 1;
    }
    proof {
        assert(rs@.subrange(0, rs@.len() as int) =~= rs@);
    }
    c
}

/// One run in progress: the frozen workflow, the run state, and the
/// ids of the steps completed so far.
#[derive(Debug)]
pub struct WorkflowDriver {
    pub workflow: Workflow,
    pub execution: WorkflowExecution,
    pub completed: Vec<String>,
}

impl WorkflowDriver {
    /// Open a run of the given workflow.
    pub fn start(workflow: Workflow, trigger_id: Option<String>) -> (r: Self)
        ensures
            r.workflow == workflow,
            r.execution@.workflow_id == workflow@.id,
            r.execution@.trigger_id == opt_text(trigger_id),
            r.execution@.status == WorkflowStatus::Running,
            r.execution@.step_results.len() == 0,
            r.execution@.logs.len() == 0,
            r.completed@.len() == 0,
    {
        let execution = WorkflowExecution::new(workflow.id.clone(), trigger_id);
        WorkflowDriver { workflow, execution, completed: Vec::new() }
    }

    /// What to do next: dispatch the ready steps; when none are ready,
    /// the run is finished if every step completed, and stalled
    /// otherwise.  A stall is reachable only through a damaged graph,
    /// since validation rejects cycles.
    pub fn poll(&self) -> (r: DriverPoll)
        ensures
            ({
                let ready = ready_filter(self.workflow@.steps, strs_view(self.completed@));
                &&& ready.len() > 0 ==> (r matches DriverPoll::Dispatch(v) && steps_view(v@)
                    == ready)
                &&& ready.len() == 0 && all_steps_completed(
                    self.workflow@.steps,
                    strs_view(self.completed@),
                ) ==> r is Finished
                &&& ready.len() == 0 && !all_steps_completed(
                    self.workflow@.steps,
                    strs_view(self.completed@),
                ) ==> r is Stalled
            }),
    {
        let ready = self.workflow.get_executable_steps(self.completed.as_slice());
        if ready.len() > 0 {
            return DriverPoll::Dispatch(ready);
        }
        let mut i: usize = 0;
        while i < self.workflow.steps.len()
            invariant
                i <= self.workflow.steps@.len(),
                ready_filter(self.workflow@.steps, strs_view(self.completed@)).len() == 0,
                forall|j: int|
                    0 <= j < i ==> seq_has_text(
                        strs_view(self.completed@),
                        (#[trigger] steps_view(self.workflow.steps@)[j]).id,
                    ),
            decreases self.workflow.steps@.len() - i,
        {
            if !contains_string(&self.completed, &self.workflow.steps[i].id) {
                assert(steps_view(self.workflow.steps@)[i as int].id
                    == self.workflow.steps@[i as int]@.id);
                return DriverPoll::Stalled;
            }
            assert(steps_view(self.workflow.steps@)[i as int].id
                == self.workflow.steps@[i as int]@.id);
            i = i + 1;
        }
        DriverPoll::Finished
    }

    /// Record the outcome of one attempt of a step and decide how the
    /// run goes on.  The attempt's result is always appended.  A
    /// failure within the step's retry budget asks for another
    /// attempt; a failure with continue-on-error marks the step
    /// completed anyway and logs it; any other failure closes the run
    /// as failed.  A completed step joins the completed set.
    pub fn record_step_outcome(
        &mut self,
        step_id: &String,
        status: WorkflowStepStatus,
        output: Option<String>,
        error_message: Option<String>,
        exit_code: Option<i32>,
    ) -> (r: StepDisposition)
        ensures
            final(self).workflow == old(self).workflow,
            final(self).execution@.step_results == old(self).execution@.step_results.push(
                final(self).execution@.step_results.last(),
            ),
            ({
                let last = final(self).execution@.step_results.last();
                &&& last.step_id == step_id@
                &&& last.status == status
                &&& last.output == opt_text(output)
                &&& last.error_message == opt_text(error_message)
                &&& last.exit_code == exit_code
            }),
            r == outcome_disposition(
                old(self).workflow@.steps,
                old(self).execution@.step_results,
                step_id@,
                status,
            ),
            r is Retry ==> strs_view(final(self).completed@) == strs_view(old(self).completed@)
                && final(self).execution@ == (ExecutionModel {
                step_results: final(self).execution@.step_results,
                ..old(self).execution@
            }),
            r is Proceed && status == WorkflowStepStatus::Completed ==> strs_view(
                final(self).completed@,
            ) == strs_view(old(self).completed@).push(step_id@) && final(self).execution@ == (
            ExecutionModel { step_results: final(self).execution@.step_results, ..old(self).execution@ }),
            r is Proceed && status == WorkflowStepStatus::Failed ==> strs_view(
                final(self).completed@,
            ) == strs_view(old(self).completed@).push(step_id@) && final(self).execution@ == (
            ExecutionModel {
                step_results: final(self).execution@.step_results,
                logs: old(self).execution@.logs.push(final(self).execution@.logs.last()),
                ..old(self).execution@
            }) && final(self).execution@.logs.last().level == "error"@ && final(self).execution@.logs.last().message == "Step '"@ + step_id@ + "' failed; continuing"@
                && final(self).execution@.logs.last().step_id == Some(step_id@),
            r is Proceed && status != WorkflowStepStatus::Completed && status
                != WorkflowStepStatus::Failed ==> strs_view(final(self).completed@) == strs_view(
                old(self).completed@,
            ) && final(self).execution@ == (ExecutionModel {
                step_results: final(self).execution@.step_results,
                ..old(self).execution@
            }),
            r is Abort ==> strs_view(final(self).completed@) == strs_view(old(self).completed@)
                && final(self).execution@ == (ExecutionModel {
                step_results: final(self).execution@.step_results,
                status: WorkflowStatus::Failed,
                completed_at: Some(final(self).execution@.completed_at->Some_0),
                error_message: Some("Step '"@ + step_id@ + "' failed"@),
                ..old(self).execution@
            }),
    {
        let prior = count_results_for(&self.execution.step_results, step_id);
        let started = now_ts();
        let result = WorkflowStepResult {
            step_id: step_id.clone(),
            status,
            started_at: started,
            completed_at: Some(now_ts()),
            output,
            error_message,
            exit_code,
        };
        self.execution.add_step_result(result);
        if status == WorkflowStepStatus::Failed {
            let limit: u32 = match crate::dag::find_step_index(&self.workflow.steps, step_id) {
                Some(k) => self.workflow.steps[k].retry_count,
                None => 0,
            };
            let continues: bool = match crate::dag::find_step_index(&self.workflow.steps, step_id)
                {
                Some(k) => self.workflow.steps[k].continue_on_error,
                None => false,
            };
            if (prior as u64) < (limit as u64) {
                return StepDisposition::Retry;
            }
            if continues {
                self.completed.push(step_id.clone());
                assert(strs_view(self.completed@) =~= strs_view(old(self).completed@).push(
                    step_id@,
                ));
                self.execution.add_log(
                    String::from_str("error"),
                    String::from_str("Step '").concat(step_id.as_str()).concat(
                        "' failed; continuing",
                    ),
                    Some(step_id.clone()),
                );
                return StepDisposition::Proceed;
            }
            self.execution.complete(
                WorkflowStatus::Failed,
                Some(String::from_str("Step '").concat(step_id.as_str()).concat("' failed")),
            );
            return StepDisposition::Abort;
        }
        if status == WorkflowStepStatus::Completed {
            self.completed.push(step_id.clone());
            assert(strs_view(self.completed@) =~= strs_view(old(self).completed@).push(step_id@));
        }
        StepDisposition::Proceed
    }

    /// Close a finished run as completed.
    pub fn finish(&mut self)
        ensures
            final(self).workflow == old(self).workflow,
            final(self).completed == old(self).completed,
            final(self).execution@ == (ExecutionModel {
                status: WorkflowStatus::Completed,
                completed_at: Some(final(self).execution@.completed_at->Some_0),
                error_message: None::<Seq<char>>,
                ..old(self).execution@
            }),
    {
        self.execution.complete(WorkflowStatus::Completed, None);
    }

    /// Close a stalled run as failed: nothing is ready, steps remain.
    pub fn abort_stalled(&mut self)
        ensures
            final(self).workflow == old(self).workflow,
            final(self).completed == old(self).completed,
            final(self).execution@ == (ExecutionModel {
                status: WorkflowStatus::Failed,
                completed_at: Some(final(self).execution@.completed_at->Some_0),
                error_message: Some("no executable steps remain"@),
                ..old(self).execution@
            }),
    {
        self.execution.complete(
            WorkflowStatus::Failed,
            Some(String::from_str("no executable steps remain")),
        );
    }

    /// Cancel the run: no new steps are dispatched and the run closes
    /// as cancelled; attempts already reported stay recorded.
    pub fn cancel(&mut self)
        ensures
            final(self).workflow == old(self).workflow,
            final(self).completed == old(self).completed,
            final(self).execution@ == (ExecutionModel {
                status: WorkflowStatus::Cancelled,
                completed_at: Some(final(self).execution@.completed_at->Some_0),
                error_message: None::<Seq<char>>,
                ..old(self).execution@
            }),
    {
        self.execution.complete(WorkflowStatus::Cancelled, None);
    }
}

} // verus!
