//! Workflows: triggers, steps and the workflow aggregate.
//!
//! A workflow is a named collection of triggers and steps.  Steps form a
//! directed graph through their `depends_on` lists; validation checks the
//! structural rules (names, required payloads per step type, required
//! conditions per trigger type) and rejects any cycle in the dependency
//! graph.  Given the set of already-completed step ids, the workflow
//! answers which steps are ready to run.
//!
//! Each type has a mathematical model (`TriggerModel`, `StepModel`,
//! `WorkflowModel`) and every operation is specified against it.

use vstd::prelude::*;

use crate::errors::WorkflowError;
use crate::strings::{
    blank_text, is_blank_string, seq_has_text, slice_contains_string, str_eq, strs_view,
};
use crate::strmap::{kv_has, KvPairs, StringMap};
use crate::sys::{fresh_id, now_ts};
use vstd::string::StringExecFns;

verus! {

/// The event kinds that can start a workflow.
#[derive(Debug, Clone, Copy, PartialEq, Eq, Structural)]
pub enum WorkflowTriggerType {
    Manual,
    FileChange,
    Schedule,
    EnvironmentActivation,
    GitCommit,
    BuildComplete,
    TestComplete,
}

/// The kinds of work a step can carry.
#[derive(Debug, Clone, Copy, PartialEq, Eq, Structural)]
pub enum WorkflowStepType {
    Command,
    Script,
    AIAnalysis,
    Notification,
    FileOperation,
    EnvironmentSetup,
}

/// Status of a workflow or of one of its runs.
#[derive(Debug, Clone, Copy, PartialEq, Eq, Structural)]
pub enum WorkflowStatus {
    Idle,
    Running,
    Completed,
    Failed,
    Cancelled,
    Paused,
}

/// Status of a single step.
#[derive(Debug, Clone, Copy, PartialEq, Eq, Structural)]
pub enum WorkflowStepStatus {
    Pending,
    Running,
    Completed,
    Failed,
    Skipped,
}

/// Mathematical model of a trigger.
pub struct TriggerModel {
    pub id: Seq<char>,
    pub trigger_type: WorkflowTriggerType,
    pub conditions: KvPairs,
    pub enabled: bool,
}

/// Mathematical model of a step.
pub struct StepModel {
    pub id: Seq<char>,
    pub name: Seq<char>,
    pub step_type: WorkflowStepType,
    pub command: Option<Seq<char>>,
    pub script_path: Option<Seq<char>>,
    pub parameters: KvPairs,
    pub timeout_seconds: Option<u64>,
    pub retry_count: u32,
    pub continue_on_error: bool,
    pub depends_on: Seq<Seq<char>>,
    pub status: WorkflowStepStatus,
}

/// Mathematical model of a workflow.
pub struct WorkflowModel {
    pub id: Seq<char>,
    pub name: Seq<char>,
    pub description: Seq<char>,
    pub triggers: Seq<TriggerModel>,
    pub steps: Seq<StepModel>,
    pub environment_id: Option<Seq<char>>,
    pub status: WorkflowStatus,
    pub created_at: u64,
    pub updated_at: u64,
    pub last_executed: Option<u64>,
    pub execution_count: u64,
    pub enabled: bool,
}

/// The characters of an optional string.
pub open spec fn opt_text(o: Option<String>) -> Option<Seq<char>> {
    match o {
        Some(s) => Some(s@),
        None => None,
    }
}

/// A condition that can start a workflow, with its type-specific
/// requirements.
#[derive(Debug)]
pub struct WorkflowTrigger {
    pub id: String,
    pub trigger_type: WorkflowTriggerType,
    pub conditions: StringMap,
    pub enabled: bool,
}

impl View for WorkflowTrigger {
    type V = TriggerModel;

    open spec fn view(&self) -> TriggerModel {
        TriggerModel {
            id: self.id@,
            trigger_type: self.trigger_type,
            conditions: self.conditions@,
            enabled: self.enabled,
        }
    }
}

/// A trigger is valid when the condition its type requires is present.
pub open spec fn trigger_valid(t: TriggerModel) -> bool {
    match t.trigger_type {
        WorkflowTriggerType::FileChange => kv_has(t.conditions, "path"@),
        WorkflowTriggerType::Schedule => kv_has(t.conditions, "cron"@),
        _ => true,
    }
}

/// The message reported for an invalid trigger.
pub open spec fn trigger_err_text(t: TriggerModel) -> Seq<char> {
    if t.trigger_type == WorkflowTriggerType::FileChange {
        "FileChange trigger requires 'path' condition"@
    } else {
        "Schedule trigger requires 'cron' condition"@
    }
}

impl Clone for WorkflowTrigger {
    fn clone(&self) -> (r: Self)
        ensures
            r@ == self@,
    {
        WorkflowTrigger {
            id: self.id.clone(),
            trigger_type: self.trigger_type,
            conditions: self.conditions.clone(),
            enabled: self.enabled,
        }
    }
}

impl WorkflowTrigger {
    /// A fresh trigger of the given type: new id, no conditions, enabled.
    pub fn new(trigger_type: WorkflowTriggerType) -> (r: Self)
        ensures
            r@.id.len() == 36,
            r@.trigger_type == trigger_type,
            r@.conditions.len() == 0,
            r@.enabled,
    {
        WorkflowTrigger { id: fresh_id(), trigger_type, conditions: StringMap::new(), enabled: true }
    }

    /// Add one condition; an earlier binding of the same key is replaced.
    pub fn with_condition(self, key: String, value: String) -> (r: Self)
        ensures
            r@ == (TriggerModel {
                conditions: crate::strmap::kv_remove(self@.conditions, key@).push((key@, value@)),
                ..self@
            }),
    {
        let mut t = self;
        t.conditions.insert(key, value);
        t
    }

    /// Check the type-specific required condition.
    pub fn validate(&self) -> (r: Result<(), WorkflowError>)
        ensures
            r is Ok <==> trigger_valid(self@),
            r matches Err(e) ==> e matches WorkflowError::ValidationFailed(m) && m@
                == trigger_err_text(self@),
    {
        match self.trigger_type {
            WorkflowTriggerType::FileChange => {
                if !self.conditions.contains_key(&String::from_str("path")) {
                    return Err(
                        WorkflowError::ValidationFailed(
                            String::from_str("FileChange trigger requires 'path' condition"),
                        ),
                    );
                }
            },
            WorkflowTriggerType::Schedule => {
                if !self.conditions.contains_key(&String::from_str("cron")) {
                    return Err(
                        WorkflowError::ValidationFailed(
                            String::from_str("Schedule trigger requires 'cron' condition"),
                        ),
                    );
                }
            },
            _ => {},
        }
        Ok(())
    }
}

/// One unit of work inside a workflow.
#[derive(Debug)]
pub struct WorkflowStep {
    pub id: String,
    pub name: String,
    pub step_type: WorkflowStepType,
    pub command: Option<String>,
    pub script_path: Option<String>,
    pub parameters: StringMap,
    pub timeout_seconds: Option<u64>,
    pub retry_count: u32,
    pub continue_on_error: bool,
    pub depends_on: Vec<String>,
    pub status: WorkflowStepStatus,
}

impl View for WorkflowStep {
    type V = StepModel;

    open spec fn view(&self) -> StepModel {
        StepModel {
            id: self.id@,
            name: self.name@,
            step_type: self.step_type,
            command: opt_text(self.command),
            script_path: opt_text(self.script_path),
            parameters: self.parameters@,
            timeout_seconds: self.timeout_seconds,
            retry_count: self.retry_count,
            continue_on_error: self.continue_on_error,
            depends_on: strs_view(self.depends_on@),
            status: self.status,
        }
    }
}

/// A step is valid when the payload its type requires is present and
/// non-empty.
pub open spec fn step_valid(s: StepModel) -> bool {
    match s.step_type {
        WorkflowStepType::Command => s.command matches Some(c) && c.len() > 0,
        WorkflowStepType::Script => s.script_path matches Some(p) && p.len() > 0,
        _ => true,
    }
}

/// The message reported for an invalid step.
pub open spec fn step_err_text(s: StepModel) -> Seq<char> {
    if s.step_type == WorkflowStepType::Command {
        "Command step '"@ + s.name + "' requires a command"@
    } else {
        "Script step '"@ + s.name + "' requires a script path"@
    }
}

/// Readiness of a step given the ids of completed steps: still pending,
/// not itself completed, and every dependency completed.
pub open spec fn step_ready(s: StepModel, completed: Seq<Seq<char>>) -> bool {
    &&& s.status == WorkflowStepStatus::Pending
    &&& !seq_has_text(completed, s.id)
    &&& forall|i: int|
        0 <= i < s.depends_on.len() ==> seq_has_text(completed, #[trigger] s.depends_on[i])
}

/// Clone of an optional string, preserving the characters.
pub fn clone_opt_string(o: &Option<String>) -> (r: Option<String>)
    ensures
        opt_text(r) == opt_text(*o),
{
    match o {
        Some(s) => Some(s.clone()),
        None => None,
    }
}

/// Clone of a vector of strings, preserving every element.
pub fn clone_strings(v: &Vec<String>) -> (r: Vec<String>)
    ensures
        r@ == v@,
{
    let mut out: Vec<String> = Vec::new();
    let mut i: usize = 0;
    while i < v.len()
        invariant
            i <= v@.len(),
            out@ =~= v@.subrange(0, i as int),
        decreases v@.len() - i,
    {
        out.push(v[i].clone());
        assert(out@ =~= v@.subrange(0, i as int + 1));
        i = i + 1;
    }
    assert(v@.subrange(0, v@.len() as int) =~= v@);
    out
}

impl Clone for WorkflowStep {
    fn clone(&self) -> (r: Self)
        ensures
            r@ == self@,
    {
        WorkflowStep {
            id: self.id.clone(),
            name: self.name.clone(),
            step_type: self.step_type,
            command: clone_opt_string(&self.command),
            script_path: clone_opt_string(&self.script_path),
            parameters: self.parameters.clone(),
            timeout_seconds: self.timeout_seconds,
            retry_count: self.retry_count,
            continue_on_error: self.continue_on_error,
            depends_on: clone_strings(&self.depends_on),
            status: self.status,
        }
    }
}

impl WorkflowStep {
    /// A fresh pending step: new id, five-minute timeout, no retries, no
    /// dependencies.
    pub fn new(name: String, step_type: WorkflowStepType) -> (r: Self)
        ensures
            r@.id.len() == 36,
            r@.name == name@,
            r@.step_type == step_type,
            r@.command is None,
            r@.script_path is None,
            r@.parameters.len() == 0,
            r@.timeout_seconds == Some(300u64),
            r@.retry_count == 0,
            !r@.continue_on_error,
            r@.depends_on.len() == 0,
            r@.status == WorkflowStepStatus::Pending,
    {
        WorkflowStep {
            id: fresh_id(),
            name,
            step_type,
            command: None,
            script_path: None,
            parameters: StringMap::new(),
            timeout_seconds: Some(300),
            retry_count: 0,
            continue_on_error: false,
            depends_on: Vec::new(),
            status: WorkflowStepStatus::Pending,
        }
    }

    /// Set the command to run.
    pub fn with_command(self, command: String) -> (r: Self)
        ensures
            r@ == (StepModel { command: Some(command@), ..self@ }),
    {
        let mut s = self;
        s.command = Some(command);
        s
    }

    /// Set the script to run.
    pub fn with_script(self, script_path: String) -> (r: Self)
        ensures
            r@ == (StepModel { script_path: Some(script_path@), ..self@ }),
    {
        let mut s = self;
        s.script_path = Some(script_path);
        s
    }

    /// Add one parameter; an earlier binding of the same key is replaced.
    pub fn with_parameter(self, key: String, value: String) -> (r: Self)
        ensures
            r@ == (StepModel {
                parameters: crate::strmap::kv_remove(self@.parameters, key@).push((key@, value@)),
                ..self@
            }),
    {
        let mut s = self;
        s.parameters.insert(key, value);
        s
    }

    /// Set the timeout in seconds.
    pub fn with_timeout(self, seconds: u64) -> (r: Self)
        ensures
            r@ == (StepModel { timeout_seconds: Some(seconds), ..self@ }),
    {
        let mut s = self;
        s.timeout_seconds = Some(seconds);
        s
    }

    /// Set how many extra attempts a failing run of this step gets.
    pub fn with_retry(self, count: u32) -> (r: Self)
        ensures
            r@ == (StepModel { retry_count: count, ..self@ }),
    {
        let mut s = self;
        s.retry_count = count;
        s
    }

    /// Let dependents proceed even if this step fails.
    pub fn continue_on_error(self) -> (r: Self)
        ensures
            r@ == (StepModel { continue_on_error: true, ..self@ }),
    {
        let mut s = self;
        s.continue_on_error = true;
        s
    }

    /// Append one dependency; duplicates are kept as given.
    pub fn depends_on_step(self, step_id: String) -> (r: Self)
        ensures
            r@ == (StepModel { depends_on: self@.depends_on.push(step_id@), ..self@ }),
    {
        let ghost before = self@;
        let mut s = self;
        s.depends_on.push(step_id);
        assert(s@.depends_on =~= before.depends_on.push(step_id@));
        s
    }

    /// Check the type-specific required payload: a command step needs
    /// a non-empty command, a script step a non-empty script path.
    pub fn validate(&self) -> (r: Result<(), WorkflowError>)
        ensures
            r is Ok <==> step_valid(self@),
            r matches Err(e) ==> e matches WorkflowError::ValidationFailed(m) && m@
                == step_err_text(self@),
    {
        match self.step_type {
            WorkflowStepType::Command => {
                let missing = match &self.command {
                    Some(c) => c.as_str().is_empty(),
                    None => true,
                };
                if missing {
                    return Err(
                        WorkflowError::ValidationFailed(
                            String::from_str("Command step '").concat(self.name.as_str()).concat(
                                "' requires a command",
                            ),
                        ),
                    );
                }
            },
            WorkflowStepType::Script => {
                let missing = match &self.script_path {
                    Some(p) => p.as_str().is_empty(),
                    None => true,
                };
                if missing {
                    return Err(
                        WorkflowError::ValidationFailed(
                            String::from_str("Script step '").concat(self.name.as_str()).concat(
                                "' requires a script path",
                            ),
                        ),
                    );
                }
            },
            _ => {},
        }
        Ok(())
    }

    /// Pure readiness test: pending, not already completed, and all
    /// dependencies completed.
    pub fn is_ready_to_execute(&self, completed_steps: &[String]) -> (r: bool)
        ensures
            r == step_ready(self@, strs_view(completed_steps@)),
    {
        if !(self.status == WorkflowStepStatus::Pending) {
            return false;
        }
        if slice_contains_string(completed_steps, &self.id) {
            return false;
        }
        let mut i: usize = 0;
        while i < self.depends_on.len()
            invariant
                i <= self.depends_on@.len(),
                forall|j: int|
                    0 <= j < i ==> seq_has_text(
                        strs_view(completed_steps@),
                        #[trigger] strs_view(self.depends_on@)[j],
                    ),
            decreases self.depends_on@.len() - i,
        {
            if !slice_contains_string(completed_steps, &self.depends_on[i]) {
                assert(self@.depends_on[i as int] == self.depends_on@[i as int]@);
                return false;
            }
            i = i + 1;
        }
        true
    }
}

/// The models of a sequence of triggers.
pub open spec fn triggers_view(ts: Seq<WorkflowTrigger>) -> Seq<TriggerModel> {
    ts.map_values(|t: WorkflowTrigger| t@)
}

/// The models of a sequence of steps.
pub open spec fn steps_view(ss: Seq<WorkflowStep>) -> Seq<StepModel> {
    ss.map_values(|s: WorkflowStep| s@)
}

/// First step with the given id, if any.
pub open spec fn find_step_model(steps: Seq<StepModel>, id: Seq<char>) -> Option<StepModel>
    decreases steps.len(),
{
    if steps.len() == 0 {
        None
    } else if steps[0].id == id {
        Some(steps[0])
    } else {
        find_step_model(steps.subrange(1, steps.len() as int), id)
    }
}

/// First trigger with the given id, if any.
pub open spec fn find_trigger_model(ts: Seq<TriggerModel>, id: Seq<char>) -> Option<TriggerModel>
    decreases ts.len(),
{
    if ts.len() == 0 {
        None
    } else if ts[0].id == id {
        Some(ts[0])
    } else {
        find_trigger_model(ts.subrange(1, ts.len() as int), id)
    }
}

/// If the first `i` steps do not carry `id`, the search only depends on
/// the rest.
pub proof fn lemma_find_step_skip(steps: Seq<StepModel>, id: Seq<char>, i: int)
    requires
        0 <= i <= steps.len(),
        forall|j: int| 0 <= j < i ==> (#[trigger] steps[j]).id != id,
    ensures
        find_step_model(steps, id) == find_step_model(steps.subrange(i, steps.len() as int), id),
    decreases i,
{
    if i == 0 {
        assert(steps.subrange(0, steps.len() as int) =~= steps);
    } else {
        let rest = steps.subrange(1, steps.len() as int);
        lemma_find_step_skip(rest, id, i - 1);
        assert(rest.subrange(i - 1, rest.len() as int) =~= steps.subrange(
            i,
            steps.len() as int,
        ));
    }
}

/// If the first `i` triggers do not carry `id`, the search only depends
/// on the rest.
pub proof fn lemma_find_trigger_skip(ts: Seq<TriggerModel>, id: Seq<char>, i: int)
    requires
        0 <= i <= ts.len(),
        forall|j: int| 0 <= j < i ==> (#[trigger] ts[j]).id != id,
    ensures
        find_trigger_model(ts, id) == find_trigger_model(ts.subrange(i, ts.len() as int), id),
    decreases i,
{
    if i == 0 {
        assert(ts.subrange(0, ts.len() as int) =~= ts);
    } else {
        let rest = ts.subrange(1, ts.len() as int);
        lemma_find_trigger_skip(rest, id, i - 1);
        assert(rest.subrange(i - 1, rest.len() as int) =~= ts.subrange(i, ts.len() as int));
    }
}

/// The predicate "is not the text `x`".
pub open spec fn text_ne(x: Seq<char>) -> spec_fn(Seq<char>) -> bool {
    |d: Seq<char>| d != x
}

/// The predicate "does not carry the step id `id`".
pub open spec fn keeps_id(id: Seq<char>) -> spec_fn(StepModel) -> bool {
    |s: StepModel| s.id != id
}

/// The predicate "does not carry the trigger id `id`".
pub open spec fn trigger_keeps_id(id: Seq<char>) -> spec_fn(TriggerModel) -> bool {
    |t: TriggerModel| t.id != id
}

/// A step without the dependency `id`.
pub open spec fn strip_dep(s: StepModel, id: Seq<char>) -> StepModel {
    StepModel { depends_on: s.depends_on.filter(text_ne(id)), ..s }
}

/// The map "strip the dependency `id`".
pub open spec fn dep_stripper(id: Seq<char>) -> spec_fn(StepModel) -> StepModel {
    |s: StepModel| strip_dep(s, id)
}

/// What removing the step `id` leaves: the other steps, each with any
/// dependency on `id` stripped.
pub open spec fn remove_step_model(steps: Seq<StepModel>, id: Seq<char>) -> Seq<StepModel> {
    steps.filter(keeps_id(id)).map_values(dep_stripper(id))
}

/// The predicate "ready given the completed ids `completed`".
pub open spec fn ready_pred(completed: Seq<Seq<char>>) -> spec_fn(StepModel) -> bool {
    |s: StepModel| step_ready(s, completed)
}

/// The steps of `steps` that are ready given `completed`.
pub open spec fn ready_filter(steps: Seq<StepModel>, completed: Seq<Seq<char>>) -> Seq<
    StepModel,
> {
    steps.filter(ready_pred(completed))
}

/// A copy of `v` without the occurrences of `x`.
fn remove_string_all(v: &Vec<String>, x: &String) -> (r: Vec<String>)
    ensures
        strs_view(r@) == strs_view(v@).filter(text_ne(x@)),
{
    broadcast use vstd::prelude::Seq::lemma_filter_push;

    let mut out: Vec<String> = Vec::new();
    let mut i: usize = 0;
    proof {
        assert(strs_view(v@.subrange(0, 0)) =~= Seq::<Seq<char>>::empty());
        assert(strs_view(out@) =~= strs_view(v@.subrange(0, 0)).filter(text_ne(x@)));
    }
    while i < v.len()
        invariant
            i <= v@.len(),
            strs_view(out@) == strs_view(v@.subrange(0, i as int)).filter(text_ne(x@)),
        decreases v@.len() - i,
    {
        proof {
            let prefix = strs_view(v@.subrange(0, i as int));
            let e = v@[i as int]@;
            assert(strs_view(v@.subrange(0, i as int + 1)) =~= prefix.push(e));
            prefix.lemma_filter_push(e, text_ne(x@));
        }
        if !str_eq(&v[i], x) {
            out.push(v[i].clone());
            assert(strs_view(out@) =~= strs_view(v@.subrange(0, i as int)).filter(
                text_ne(x@),
            ).push(v@[i as int]@));
        }
        i = i + 1;
    }
    proof {
        assert(v@.subrange(0, v@.len() as int) =~= v@);
    }
    out
}

/// A named set of triggers and steps, with the rules that make it
/// runnable.
#[derive(Debug)]
pub struct Workflow {
    pub id: String,
    pub name: String,
    pub description: String,
    pub triggers: Vec<WorkflowTrigger>,
    pub steps: Vec<WorkflowStep>,
    pub environment_id: Option<String>,
    pub status: WorkflowStatus,
    pub created_at: u64,
    pub updated_at: u64,
    pub last_executed: Option<u64>,
    pub execution_count: u64,
    pub enabled: bool,
}

impl View for Workflow {
    type V = WorkflowModel;

    open spec fn view(&self) -> WorkflowModel {
        WorkflowModel {
            id: self.id@,
            name: self.name@,
            description: self.description@,
            triggers: triggers_view(self.triggers@),
            steps: steps_view(self.steps@),
            environment_id: opt_text(self.environment_id),
            status: self.status,
            created_at: self.created_at,
            updated_at: self.updated_at,
            last_executed: self.last_executed,
            execution_count: self.execution_count,
            enabled: self.enabled,
        }
    }
}

impl Workflow {
    /// A fresh workflow: new id, no triggers or steps, idle and enabled.
    pub fn new(name: String, description: String) -> (r: Self)
        ensures
            r@.id.len() == 36,
            r@.name == name@,
            r@.description == description@,
            r@.triggers.len() == 0,
            r@.steps.len() == 0,
            r@.environment_id is None,
            r@.status == WorkflowStatus::Idle,
            r@.created_at == r@.updated_at,
            r@.last_executed is None,
            r@.execution_count == 0,
            r@.enabled,
    {
        let now = now_ts();
        let r = Workflow {
            id: fresh_id(),
            name,
            description,
            triggers: Vec::new(),
            steps: Vec::new(),
            environment_id: None,
            status: WorkflowStatus::Idle,
            created_at: now,
            updated_at: now,
            last_executed: None,
            execution_count: 0,
            enabled: true,
        };
        assert(r@.triggers =~= Seq::<TriggerModel>::empty());
        assert(r@.steps =~= Seq::<StepModel>::empty());
        r
    }

    /// Append a trigger after validating it; an invalid trigger leaves
    /// the workflow untouched and its error is returned.
    pub fn add_trigger(&mut self, trigger: WorkflowTrigger) -> (r: Result<(), WorkflowError>)
        ensures
            r is Ok <==> trigger_valid(trigger@),
            r is Ok ==> final(self)@ == (WorkflowModel {
                triggers: old(self)@.triggers.push(trigger@),
                updated_at: final(self)@.updated_at,
                ..old(self)@
            }),
            r matches Err(e) ==> *final(self) == *old(self) && (e matches WorkflowError::ValidationFailed(m)
                && m@ == trigger_err_text(trigger@)),
    {
        match trigger.validate() {
            Err(e) => Err(e),
            Ok(()) => {
                self.triggers.push(trigger);
                self.updated_at = now_ts();
                assert(self@.triggers =~= old(self)@.triggers.push(
                    self.triggers@[self.triggers@.len() - 1]@,
                ));
                Ok(())
            },
        }
    }

    /// Drop every trigger with the given id.
    pub fn remove_trigger(&mut self, trigger_id: &String)
        ensures
            final(self)@ == (WorkflowModel {
                triggers: old(self)@.triggers.filter(trigger_keeps_id(trigger_id@)),
                updated_at: final(self)@.updated_at,
                ..old(self)@
            }),
    {
        broadcast use vstd::prelude::Seq::lemma_filter_push;

        let mut out: Vec<WorkflowTrigger> = Vec::new();
        let mut i: usize = 0;
        proof {
            assert(triggers_view(self.triggers@.subrange(0, 0)) =~= Seq::<TriggerModel>::empty());
            assert(triggers_view(out@) =~= triggers_view(self.triggers@.subrange(0, 0)).filter(
                trigger_keeps_id(trigger_id@),
            ));
        }
        while i < self.triggers.len()
            invariant
                i <= self.triggers@.len(),
                triggers_view(out@) == triggers_view(self.triggers@.subrange(0, i as int)).filter(
                    trigger_keeps_id(trigger_id@),
                ),
            decreases self.triggers@.len() - i,
        {
            proof {
                let prefix = triggers_view(self.triggers@.subrange(0, i as int));
                let e = self.triggers@[i as int]@;
                assert(triggers_view(self.triggers@.subrange(0, i as int + 1)) =~= prefix.push(e));
                prefix.lemma_filter_push(e, trigger_keeps_id(trigger_id@));
            }
            if !str_eq(&self.triggers[i].id, trigger_id) {
                out.push(self.triggers[i].clone());
                assert(triggers_view(out@) =~= triggers_view(
                    self.triggers@.subrange(0, i as int),
                ).filter(trigger_keeps_id(trigger_id@)).push(self.triggers@[i as int]@));
            }
            i = i + 1;
        }
        proof {
            assert(self.triggers@.subrange(0, self.triggers@.len() as int) =~= self.triggers@);
        }
        self.triggers = out;
        self.updated_at = now_ts();
    }

    /// Append a step after validating it; an invalid step leaves the
    /// workflow untouched and its error is returned.
    pub fn add_step(&mut self, step: WorkflowStep) -> (r: Result<(), WorkflowError>)
        ensures
            r is Ok <==> step_valid(step@),
            r is Ok ==> final(self)@ == (WorkflowModel {
                steps: old(self)@.steps.push(step@),
                updated_at: final(self)@.updated_at,
                ..old(self)@
            }),
            r matches Err(e) ==> *final(self) == *old(self) && (e matches WorkflowError::ValidationFailed(m)
                && m@ == step_err_text(step@)),
    {
        match step.validate() {
            Err(e) => Err(e),
            Ok(()) => {
                self.steps.push(step);
                self.updated_at = now_ts();
                assert(self@.steps =~= old(self)@.steps.push(
                    self.steps@[self.steps@.len() - 1]@,
                ));
                Ok(())
            },
        }
    }

    /// Drop the step with the given id and strip that id from every
    /// other step's dependency list.
    pub fn remove_step(&mut self, step_id: &String)
        ensures
            final(self)@ == (WorkflowModel {
                steps: remove_step_model(old(self)@.steps, step_id@),
                updated_at: final(self)@.updated_at,
                ..old(self)@
            }),
    {
        broadcast use vstd::prelude::Seq::lemma_filter_push;

        let mut out: Vec<WorkflowStep> = Vec::new();
        let mut i: usize = 0;
        proof {
            assert(steps_view(self.steps@.subrange(0, 0)) =~= Seq::<StepModel>::empty());
            assert(steps_view(out@) =~= remove_step_model(
                steps_view(self.steps@.subrange(0, 0)),
                step_id@,
            ));
        }
        while i < self.steps.len()
            invariant
                i <= self.steps@.len(),
                steps_view(out@) == remove_step_model(
                    steps_view(self.steps@.subrange(0, i as int)),
                    step_id@,
                ),
            decreases self.steps@.len() - i,
        {
            proof {
                let prefix = steps_view(self.steps@.subrange(0, i as int));
                let e = self.steps@[i as int]@;
                assert(steps_view(self.steps@.subrange(0, i as int + 1)) =~= prefix.push(e));
                prefix.lemma_filter_push(e, keeps_id(step_id@));
            }
            if !str_eq(&self.steps[i].id, step_id) {
                let mut kept = self.steps[i].clone();
                kept.depends_on = remove_string_all(&self.steps[i].depends_on, step_id);
                out.push(kept);
                proof {
                    let prefix = steps_view(self.steps@.subrange(0, i as int));
                    let p = keeps_id(step_id@);
                    let f = dep_stripper(step_id@);
                    assert(kept@ == strip_dep(self.steps@[i as int]@, step_id@));
                    assert(prefix.push(self.steps@[i as int]@).filter(p) == prefix.filter(p).push(
                        self.steps@[i as int]@,
                    ));
                    assert(prefix.filter(p).push(self.steps@[i as int]@).map_values(f)
                        =~= prefix.filter(p).map_values(f).push(f(self.steps@[i as int]@)));
                    assert(steps_view(out@) =~= prefix.filter(p).push(
                        self.steps@[i as int]@,
                    ).map_values(f));
                }
            } else {
                proof {
                    let prefix = steps_view(self.steps@.subrange(0, i as int));
                    let p = keeps_id(step_id@);
                    assert(prefix.push(self.steps@[i as int]@).filter(p) == prefix.filter(p));
                }
            }
            i = i + 1;
        }
        proof {
            assert(self.steps@.subrange(0, self.steps@.len() as int) =~= self.steps@);
        }
        self.steps = out;
        self.updated_at = now_ts();
    }

    /// Every step that is ready to run given the completed step ids, in
    /// workflow order.
    pub fn get_executable_steps(&self, completed_steps: &[String]) -> (r: Vec<WorkflowStep>)
        ensures
            steps_view(r@) == ready_filter(self@.steps, strs_view(completed_steps@)),
    {
        broadcast use vstd::prelude::Seq::lemma_filter_push;

        let mut out: Vec<WorkflowStep> = Vec::new();
        let mut i: usize = 0;
        proof {
            assert(steps_view(self.steps@.subrange(0, 0)) =~= Seq::<StepModel>::empty());
            assert(steps_view(out@) =~= ready_filter(
                steps_view(self.steps@.subrange(0, 0)),
                strs_view(completed_steps@),
            ));
        }
        while i < self.steps.len()
            invariant
                i <= self.steps@.len(),
                steps_view(out@) == ready_filter(
                    steps_view(self.steps@.subrange(0, i as int)),
                    strs_view(completed_steps@),
                ),
            decreases self.steps@.len() - i,
        {
            proof {
                let prefix = steps_view(self.steps@.subrange(0, i as int));
                let e = self.steps@[i as int]@;
                assert(steps_view(self.steps@.subrange(0, i as int + 1)) =~= prefix.push(e));
                prefix.lemma_filter_push(e, ready_pred(strs_view(completed_steps@)));
            }
            if self.steps[i].is_ready_to_execute(completed_steps) {
                out.push(self.steps[i].clone());
                assert(steps_view(out@) =~= ready_filter(
                    steps_view(self.steps@.subrange(0, i as int)),
                    strs_view(completed_steps@),
                ).push(self.steps@[i as int]@));
            }
            i = i + 1;
        }
        proof {
            assert(self.steps@.subrange(0, self.steps@.len() as int) =~= self.steps@);
        }
        out
    }

    /// The first step with the given id, if any.
    pub fn get_step(&self, step_id: &String) -> (r: Option<&WorkflowStep>)
        ensures
            match r {
                Some(s) => find_step_model(self@.steps, step_id@) == Some(s@),
                None => find_step_model(self@.steps, step_id@) is None,
            },
    {
        let mut i: usize = 0;
        while i < self.steps.len()
            invariant
                i <= self.steps@.len(),
                forall|j: int| 0 <= j < i ==> (#[trigger] steps_view(self.steps@)[j]).id != step_id@,
            decreases self.steps@.len() - i,
        {
            if str_eq(&self.steps[i].id, step_id) {
                proof {
                    lemma_find_step_skip(self@.steps, step_id@, i as int);
                }
                return Some(&self.steps[i]);
            }
            assert(steps_view(self.steps@)[i as int].id != step_id@);
            i = i + 1;
        }
        proof {
            lemma_find_step_skip(self@.steps, step_id@, self@.steps.len() as int);
            assert(self@.steps.subrange(self@.steps.len() as int, self@.steps.len() as int)
                =~= Seq::<StepModel>::empty());
        }
        None
    }

    /// The first trigger with the given id, if any.
    pub fn get_trigger(&self, trigger_id: &String) -> (r: Option<&WorkflowTrigger>)
        ensures
            match r {
                Some(t) => find_trigger_model(self@.triggers, trigger_id@) == Some(t@),
                None => find_trigger_model(self@.triggers, trigger_id@) is None,
            },
    {
        let mut i: usize = 0;
        while i < self.triggers.len()
            invariant
                i <= self.triggers@.len(),
                forall|j: int|
                    0 <= j < i ==> (#[trigger] triggers_view(self.triggers@)[j]).id != trigger_id@,
            decreases self.triggers@.len() - i,
        {
            if str_eq(&self.triggers[i].id, trigger_id) {
                proof {
                    lemma_find_trigger_skip(self@.triggers, trigger_id@, i as int);
                }
                return Some(&self.triggers[i]);
            }
            assert(triggers_view(self.triggers@)[i as int].id != trigger_id@);
            i = i + 1;
        }
        proof {
            lemma_find_trigger_skip(self@.triggers, trigger_id@, self@.triggers.len() as int);
            assert(self@.triggers.subrange(self@.triggers.len() as int, self@.triggers.len() as int)
                =~= Seq::<TriggerModel>::empty());
        }
        None
    }

    /// Set the status of the first step with the given id; true iff such
    /// a step exists.  The run driver and tests use this to mark
    /// progress on a step.
    pub fn set_step_status(&mut self, step_id: &String, status: WorkflowStepStatus) -> (r: bool)
        ensures
            r == (find_step_model(old(self)@.steps, step_id@) is Some),
            !r ==> *final(self) == *old(self),
            r ==> exists|i: int|
                #![auto]
                0 <= i < old(self)@.steps.len() && old(self)@.steps[i].id == step_id@ && (forall|
                    j: int,
                |
                    0 <= j < i ==> old(self)@.steps[j].id != step_id@) && final(self)@ == (
                WorkflowModel {
                    steps: old(self)@.steps.update(
                        i,
                        StepModel { status, ..old(self)@.steps[i] },
                    ),
                    ..old(self)@
                }),
    {
        let mut i: usize = 0;
        while i < self.steps.len()
            invariant
                i <= self.steps@.len(),
                *self == *old(self),
                forall|j: int| 0 <= j < i ==> (#[trigger] steps_view(self.steps@)[j]).id != step_id@,
            decreases self.steps@.len() - i,
        {
            if str_eq(&self.steps[i].id, step_id) {
                proof {
                    lemma_find_step_skip(self@.steps, step_id@, i as int);
                }
                let mut changed = self.steps.remove(i);
                changed.status = status;
                self.steps.insert(i, changed);
                proof {
                    assert(steps_view(self.steps@) =~= steps_view(old(self).steps@).update(
                        i as int,
                        StepModel { status, ..old(self)@.steps[i as int] },
                    ));
                }
                return true;
            }
            assert(steps_view(self.steps@)[i as int].id != step_id@);
            i = i + 1;
        }
        proof {
            lemma_find_step_skip(self@.steps, step_id@, self@.steps.len() as int);
            assert(self@.steps.subrange(self@.steps.len() as int, self@.steps.len() as int)
                =~= Seq::<StepModel>::empty());
        }
        false
    }

    /// Append a dependency to the first step with the given id; true iff
    /// such a step exists.  This writes the edge directly, without the
    /// re-validation that `add_step` performs.
    pub fn add_step_dependency(&mut self, step_id: &String, dep: String) -> (r: bool)
        ensures
            r == (find_step_model(old(self)@.steps, step_id@) is Some),
            !r ==> *final(self) == *old(self),
            r ==> exists|i: int|
                #![auto]
                0 <= i < old(self)@.steps.len() && old(self)@.steps[i].id == step_id@ && (forall|
                    j: int,
                |
                    0 <= j < i ==> old(self)@.steps[j].id != step_id@) && final(self)@ == (
                WorkflowModel {
                    steps: old(self)@.steps.update(
                        i,
                        StepModel {
                            depends_on: old(self)@.steps[i].depends_on.push(dep@),
                            ..old(self)@.steps[i]
                        },
                    ),
                    ..old(self)@
                }),
    {
        let mut i: usize = 0;
        while i < self.steps.len()
            invariant
                i <= self.steps@.len(),
                *self == *old(self),
                forall|j: int| 0 <= j < i ==> (#[trigger] steps_view(self.steps@)[j]).id != step_id@,
            decreases self.steps@.len() - i,
        {
            if str_eq(&self.steps[i].id, step_id) {
                proof {
                    lemma_find_step_skip(self@.steps, step_id@, i as int);
                }
                let mut changed = self.steps.remove(i);
                let ghost before = changed@;
                changed.depends_on.push(dep);
                proof {
                    assert(changed@.depends_on =~= before.depends_on.push(dep@));
                }
                self.steps.insert(i, changed);
                proof {
                    assert(steps_view(self.steps@) =~= steps_view(old(self).steps@).update(
                        i as int,
                        StepModel {
                            depends_on: old(self)@.steps[i as int].depends_on.push(dep@),
                            ..old(self)@.steps[i as int]
                        },
                    ));
                }
                return true;
            }
            assert(steps_view(self.steps@)[i as int].id != step_id@);
            i = i + 1;
        }
        proof {
            lemma_find_step_skip(self@.steps, step_id@, self@.steps.len() as int);
            assert(self@.steps.subrange(self@.steps.len() as int, self@.steps.len() as int)
                =~= Seq::<StepModel>::empty());
        }
        false
    }


    /// Full validation: name, step count, each trigger, each step, and
    /// cycle detection, in that order; the first failure is reported.
    pub fn validate(&self) -> (r: Result<(), WorkflowError>)
        ensures
            r is Ok <==> wf_error(self@) is None,
            r matches Err(e) ==> (e matches WorkflowError::ValidationFailed(m) && Some(m@)
                == wf_error(self@)),
    {
        if is_blank_string(&self.name) {
            return Err(
                WorkflowError::ValidationFailed(String::from_str("Workflow name cannot be empty")),
            );
        }
        if self.steps.len() == 0 {
            return Err(
                WorkflowError::ValidationFailed(
                    String::from_str("Workflow must have at least one step"),
                ),
            );
        }
        let mut i: usize = 0;
        while i < self.triggers.len()
            invariant
                i <= self.triggers@.len(),
                !blank_text(self@.name),
                self@.steps.len() > 0,
                forall|j: int| 0 <= j < i ==> trigger_valid(#[trigger] triggers_view(self.triggers@)[j]),
            decreases self.triggers@.len() - i,
        {
            match self.triggers[i].validate() {
                Err(e) => {
                    proof {
                        lemma_trigger_err_skip(self@.triggers, i as int);
                        assert(self@.triggers.subrange(i as int, self@.triggers.len() as int)[0]
                            == self@.triggers[i as int]);
                    }
                    return Err(e);
                },
                Ok(()) => {},
            }
            i = i + 1;
        }
        proof {
            lemma_trigger_err_skip(self@.triggers, self@.triggers.len() as int);
            assert(self@.triggers.subrange(self@.triggers.len() as int, self@.triggers.len() as int)
                =~= Seq::<TriggerModel>::empty());
        }
        let mut i: usize = 0;
        while i < self.steps.len()
            invariant
                i <= self.steps@.len(),
                !blank_text(self@.name),
                self@.steps.len() > 0,
                first_trigger_err(self@.triggers) is None,
                forall|j: int| 0 <= j < i ==> step_valid(#[trigger] steps_view(self.steps@)[j]),
            decreases self.steps@.len() - i,
        {
            match self.steps[i].validate() {
                Err(e) => {
                    proof {
                        lemma_step_err_skip(self@.steps, i as int);
                        assert(self@.steps.subrange(i as int, self@.steps.len() as int)[0]
                            == self@.steps[i as int]);
                    }
                    return Err(e);
                },
                Ok(()) => {},
            }
            i = i + 1;
        }
        proof {
            lemma_step_err_skip(self@.steps, self@.steps.len() as int);
            assert(self@.steps.subrange(self@.steps.len() as int, self@.steps.len() as int)
                =~= Seq::<StepModel>::empty());
        }
        match crate::dag::first_cycle_origin(&self.steps) {
            Some(k) => {
                let msg = String::from_str("Circular dependency detected involving step '").concat(
                    self.steps[k].name.as_str(),
                ).concat("'");
                proof {
                    lemma_cycle_origin_at(self@.steps, 0, k as int);
                }
                Err(WorkflowError::ValidationFailed(msg))
            },
            None => {
                proof {
                    lemma_cycle_origin_none(self@.steps, 0);
                }
                Ok(())
            },
        }
    }

    /// Link the workflow to an environment.
    pub fn set_environment(&mut self, environment_id: String)
        ensures
            final(self)@ == (WorkflowModel {
                environment_id: Some(environment_id@),
                updated_at: final(self)@.updated_at,
                ..old(self)@
            }),
    {
        self.environment_id = Some(environment_id);
        self.updated_at = now_ts();
    }

    /// Allow the workflow to run.
    pub fn enable(&mut self)
        ensures
            final(self)@ == (WorkflowModel {
                enabled: true,
                updated_at: final(self)@.updated_at,
                ..old(self)@
            }),
    {
        self.enabled = true;
        self.updated_at = now_ts();
    }

    /// Keep the workflow from running.
    pub fn disable(&mut self)
        ensures
            final(self)@ == (WorkflowModel {
                enabled: false,
                updated_at: final(self)@.updated_at,
                ..old(self)@
            }),
    {
        self.enabled = false;
        self.updated_at = now_ts();
    }

    /// Whether the workflow may run.
    pub fn is_enabled(&self) -> (r: bool)
        ensures
            r == self@.enabled,
    {
        self.enabled
    }

    /// A workflow can start a run iff it is enabled, idle and has at
    /// least one step.
    pub fn can_execute(&self) -> (r: bool)
        ensures
            r == (self@.enabled && self@.status == WorkflowStatus::Idle && self@.steps.len() > 0),
    {
        self.enabled && self.status == WorkflowStatus::Idle && self.steps.len() > 0
    }
}


/// The message of the first invalid trigger, if any.
pub open spec fn first_trigger_err(ts: Seq<TriggerModel>) -> Option<Seq<char>>
    decreases ts.len(),
{
    if ts.len() == 0 {
        None
    } else if !trigger_valid(ts[0]) {
        Some(trigger_err_text(ts[0]))
    } else {
        first_trigger_err(ts.subrange(1, ts.len() as int))
    }
}

/// The message of the first invalid step, if any.
pub open spec fn first_step_err(ss: Seq<StepModel>) -> Option<Seq<char>>
    decreases ss.len(),
{
    if ss.len() == 0 {
        None
    } else if !step_valid(ss[0]) {
        Some(step_err_text(ss[0]))
    } else {
        first_step_err(ss.subrange(1, ss.len() as int))
    }
}

/// The name of the first step at or after `k` that reaches a cycle, if
/// any.
pub open spec fn cycle_origin_name(steps: Seq<StepModel>, k: int) -> Option<Seq<char>>
    decreases steps.len() - k,
{
    if k < 0 || k >= steps.len() {
        None
    } else if crate::dag::reaches_cycle(steps, steps[k].id) {
        Some(steps[k].name)
    } else {
        cycle_origin_name(steps, k + 1)
    }
}

/// The message `validate` reports, if any: the checks run in order
/// (name, step count, triggers, steps, cycles) and the first failure
/// wins.
pub open spec fn wf_error(m: WorkflowModel) -> Option<Seq<char>> {
    if blank_text(m.name) {
        Some("Workflow name cannot be empty"@)
    } else if m.steps.len() == 0 {
        Some("Workflow must have at least one step"@)
    } else if first_trigger_err(m.triggers) is Some {
        first_trigger_err(m.triggers)
    } else if first_step_err(m.steps) is Some {
        first_step_err(m.steps)
    } else {
        match cycle_origin_name(m.steps, 0) {
            Some(n) => Some("Circular dependency detected involving step '"@ + n + "'"@),
            None => None,
        }
    }
}

/// Structural validity of a workflow: a name that is not blank, at
/// least one step, every trigger and step valid, and an acyclic
/// dependency graph.
pub open spec fn wf_valid(m: WorkflowModel) -> bool {
    &&& !blank_text(m.name)
    &&& m.steps.len() >= 1
    &&& forall|i: int| 0 <= i < m.triggers.len() ==> trigger_valid(#[trigger] m.triggers[i])
    &&& forall|i: int| 0 <= i < m.steps.len() ==> step_valid(#[trigger] m.steps[i])
    &&& !crate::dag::has_cycle(m.steps)
}

/// If the first `i` triggers are valid, the first error only depends on
/// the rest.
proof fn lemma_trigger_err_skip(ts: Seq<TriggerModel>, i: int)
    requires
        0 <= i <= ts.len(),
        forall|j: int| 0 <= j < i ==> trigger_valid(#[trigger] ts[j]),
    ensures
        first_trigger_err(ts) == first_trigger_err(ts.subrange(i, ts.len() as int)),
    decreases i,
{
    if i == 0 {
        assert(ts.subrange(0, ts.len() as int) =~= ts);
    } else {
        let rest = ts.subrange(1, ts.len() as int);
        lemma_trigger_err_skip(rest, i - 1);
        assert(rest.subrange(i - 1, rest.len() as int) =~= ts.subrange(i, ts.len() as int));
    }
}

/// If the first `i` steps are valid, the first error only depends on
/// the rest.
proof fn lemma_step_err_skip(ss: Seq<StepModel>, i: int)
    requires
        0 <= i <= ss.len(),
        forall|j: int| 0 <= j < i ==> step_valid(#[trigger] ss[j]),
    ensures
        first_step_err(ss) == first_step_err(ss.subrange(i, ss.len() as int)),
    decreases i,
{
    if i == 0 {
        assert(ss.subrange(0, ss.len() as int) =~= ss);
    } else {
        let rest = ss.subrange(1, ss.len() as int);
        lemma_step_err_skip(rest, i - 1);
        assert(rest.subrange(i - 1, rest.len() as int) =~= ss.subrange(i, ss.len() as int));
    }
}

/// There is no trigger error exactly when every trigger is valid.
proof fn lemma_trigger_err_none(ts: Seq<TriggerModel>)
    ensures
        first_trigger_err(ts) is None <==> forall|i: int|
            0 <= i < ts.len() ==> trigger_valid(#[trigger] ts[i]),
    decreases ts.len(),
{
    if ts.len() > 0 {
        let rest = ts.subrange(1, ts.len() as int);
        lemma_trigger_err_none(rest);
        if trigger_valid(ts[0]) && (forall|i: int|
            0 <= i < rest.len() ==> trigger_valid(#[trigger] rest[i])) {
            assert forall|i: int| 0 <= i < ts.len() implies trigger_valid(#[trigger] ts[i]) by {
                if i > 0 {
                    assert(ts[i] == rest[i - 1]);
                }
            }
        }
        if forall|i: int| 0 <= i < ts.len() ==> trigger_valid(#[trigger] ts[i]) {
            assert forall|i: int| 0 <= i < rest.len() implies trigger_valid(
                #[trigger] rest[i],
            ) by {
                assert(rest[i] == ts[i + 1]);
            }
        }
    }
}

/// There is no step error exactly when every step is valid.
proof fn lemma_step_err_none(ss: Seq<StepModel>)
    ensures
        first_step_err(ss) is None <==> forall|i: int|
            0 <= i < ss.len() ==> step_valid(#[trigger] ss[i]),
    decreases ss.len(),
{
    if ss.len() > 0 {
        let rest = ss.subrange(1, ss.len() as int);
        lemma_step_err_none(rest);
        if step_valid(ss[0]) && (forall|i: int|
            0 <= i < rest.len() ==> step_valid(#[trigger] rest[i])) {
            assert forall|i: int| 0 <= i < ss.len() implies step_valid(#[trigger] ss[i]) by {
                if i > 0 {
                    assert(ss[i] == rest[i - 1]);
                }
            }
        }
        if forall|i: int| 0 <= i < ss.len() ==> step_valid(#[trigger] ss[i]) {
            assert forall|i: int| 0 <= i < rest.len() implies step_valid(#[trigger] rest[i]) by {
                assert(rest[i] == ss[i + 1]);
            }
        }
    }
}

/// When no step from `k` on reaches a cycle, no origin is reported.
proof fn lemma_cycle_origin_none(steps: Seq<StepModel>, k: int)
    requires
        forall|j: int|
            k <= j < steps.len() ==> !crate::dag::reaches_cycle(
                steps,
                (#[trigger] steps[j]).id,
            ),
    ensures
        cycle_origin_name(steps, k) is None,
    decreases steps.len() - k,
{
    if 0 <= k < steps.len() {
        lemma_cycle_origin_none(steps, k + 1);
    }
}

/// When `i` is the first step reaching a cycle, its name is reported.
proof fn lemma_cycle_origin_at(steps: Seq<StepModel>, k: int, i: int)
    requires
        0 <= k <= i < steps.len(),
        crate::dag::reaches_cycle(steps, steps[i].id),
        forall|j: int|
            k <= j < i ==> !crate::dag::reaches_cycle(steps, (#[trigger] steps[j]).id),
    ensures
        cycle_origin_name(steps, k) == Some(steps[i].name),
    decreases i - k,
{
    if k < i {
        lemma_cycle_origin_at(steps, k + 1, i);
    }
}

/// The law of validation: `validate` accepts a workflow exactly when it
/// is structurally valid — a name that is not blank, at least one
/// step, every trigger valid, every step valid, and no cycle in the
/// dependency graph.
pub proof fn lemma_validate_exact(m: WorkflowModel)
    ensures
        wf_error(m) is None <==> wf_valid(m),
{
    lemma_trigger_err_none(m.triggers);
    lemma_step_err_none(m.steps);
    crate::dag::lemma_cycle_iff_origin(m.steps);
    if wf_error(m) is None {
        if !blank_text(m.name) && m.steps.len() > 0 {
            assert(cycle_origin_name(m.steps, 0) is None);
            if crate::dag::has_cycle(m.steps) {
                let i = choose|i: int|
                    0 <= i < m.steps.len() && crate::dag::reaches_cycle(
                        m.steps,
                        (#[trigger] m.steps[i]).id,
                    );
                lemma_cycle_origin_some_exists(m.steps, 0, i);
            }
        }
    }
    if wf_valid(m) {
        lemma_cycle_origin_none(m.steps, 0);
    }
}

/// If some step at or after `k` reaches a cycle, an origin is reported.
proof fn lemma_cycle_origin_some_exists(steps: Seq<StepModel>, k: int, i: int)
    requires
        0 <= k <= i < steps.len(),
        crate::dag::reaches_cycle(steps, steps[i].id),
    ensures
        cycle_origin_name(steps, k) is Some,
    decreases i - k,
{
    if !crate::dag::reaches_cycle(steps, steps[k].id) {
        lemma_cycle_origin_some_exists(steps, k + 1, i);
    }
}


/// A filter that keeps every element changes nothing.
proof fn lemma_filter_all<A>(s: Seq<A>, p: spec_fn(A) -> bool)
    requires
        forall|k: int| 0 <= k < s.len() ==> p(#[trigger] s[k]),
    ensures
        s.filter(p) == s,
    decreases s.len(),
{
    if s.len() == 0 {
        assert(s.filter(p) =~= s);
    } else {
        let dl = s.drop_last();
        assert forall|k: int| 0 <= k < dl.len() implies p(#[trigger] dl[k]) by {
            assert(dl[k] == s[k]);
        }
        lemma_filter_all(dl, p);
        dl.lemma_filter_push(s.last(), p);
        assert(dl.push(s.last()) =~= s);
        assert(s.filter(p) =~= s);
    }
}

/// The law of readiness: a step is among the executable steps exactly
/// when it is one of the workflow's steps and is ready — pending, not
/// already completed, and with every dependency completed.  In
/// particular a step with an unmet dependency is never returned.
pub proof fn lemma_executable_steps_exact(
    steps: Seq<StepModel>,
    completed: Seq<Seq<char>>,
    s: StepModel,
)
    ensures
        ready_filter(steps, completed).contains(s) <==> steps.contains(s) && step_ready(
            s,
            completed,
        ),
{
    let flt = ready_filter(steps, completed);
    let p = ready_pred(completed);
    if flt.contains(s) {
        let i = choose|i: int| 0 <= i < flt.len() && flt[i] == s;
        steps.lemma_filter_pred(p, i);
        steps.lemma_filter_contains_rev(p, s);
        assert(steps.contains(s) && step_ready(s, completed));
    }
    if steps.contains(s) && step_ready(s, completed) {
        let i = choose|i: int| 0 <= i < steps.len() && steps[i] == s;
        steps.lemma_filter_contains(p, i);
    }
}

/// The law of uniqueness: when the workflow's steps carry pairwise
/// distinct ids, no id appears twice among the executable steps.
pub proof fn lemma_executable_steps_once(steps: Seq<StepModel>, completed: Seq<Seq<char>>)
    requires
        forall|i: int, j: int|
            0 <= i < j < steps.len() ==> (#[trigger] steps[i]).id != (#[trigger] steps[j]).id,
    ensures
        forall|i: int, j: int|
            0 <= i < j < ready_filter(steps, completed).len() ==> (#[trigger] ready_filter(
                steps,
                completed,
            )[i]).id != (#[trigger] ready_filter(steps, completed)[j]).id,
    decreases steps.len(),
{
    let p = ready_pred(completed);
    if steps.len() > 0 {
        let dl = steps.drop_last();
        let last = steps.last();
        assert forall|i: int, j: int| 0 <= i < j < dl.len() implies (#[trigger] dl[i]).id != (
        #[trigger] dl[j]).id by {
            assert(dl[i] == steps[i] && dl[j] == steps[j]);
        }
        lemma_executable_steps_once(dl, completed);
        dl.lemma_filter_push(last, p);
        assert(dl.push(last) =~= steps);
        let flt = ready_filter(steps, completed);
        let fdl = ready_filter(dl, completed);
        assert forall|i: int, j: int| 0 <= i < j < flt.len() implies (#[trigger] flt[i]).id != (
        #[trigger] flt[j]).id by {
            if p(last) && j == flt.len() - 1 {
                assert(flt =~= fdl.push(last));
                assert(flt[i] == fdl[i]);
                assert(fdl.contains(fdl[i]));
                dl.lemma_filter_contains_rev(p, fdl[i]);
                assert(dl.contains(fdl[i]));
                let k = choose|k: int| 0 <= k < dl.len() && dl[k] == fdl[i];
                assert(steps[k] == fdl[i] && steps[steps.len() - 1] == last);
                assert(steps[k].id != last.id);
            } else {
                assert(flt[i] == fdl[i] && flt[j] == fdl[j]);
            }
        }
    }
}

/// The law of absent removal: removing a step id that no step carries
/// and no step depends on is a no-op.
pub proof fn lemma_remove_step_absent(steps: Seq<StepModel>, id: Seq<char>)
    requires
        forall|i: int| 0 <= i < steps.len() ==> (#[trigger] steps[i]).id != id,
        forall|i: int, d: int|
            0 <= i < steps.len() && 0 <= d < steps[i].depends_on.len() ==> (
            #[trigger] steps[i].depends_on[d]) != id,
    ensures
        remove_step_model(steps, id) == steps,
{
    let p = keeps_id(id);
    let f = dep_stripper(id);
    assert forall|k: int| 0 <= k < steps.len() implies p(#[trigger] steps[k]) by {
        assert(steps[k].id != id);
    }
    lemma_filter_all(steps, p);
    assert forall|k: int| 0 <= k < steps.len() implies f(#[trigger] steps[k]) == steps[k] by {
        let dd = steps[k].depends_on;
        assert forall|d: int| 0 <= d < dd.len() implies text_ne(id)(#[trigger] dd[d]) by {
            assert(steps[k].depends_on[d] != id);
        }
        lemma_filter_all(dd, text_ne(id));
    }
    assert(remove_step_model(steps, id) =~= steps);
}

/// The law of repeated removal: removing the same step id a second
/// time changes nothing further, so the operation never fails and is
/// idempotent.
pub proof fn lemma_remove_step_idempotent(steps: Seq<StepModel>, id: Seq<char>)
    ensures
        remove_step_model(remove_step_model(steps, id), id) == remove_step_model(steps, id),
{
    let p = keeps_id(id);
    let f = dep_stripper(id);
    let once = remove_step_model(steps, id);
    assert forall|i: int| 0 <= i < once.len() implies (#[trigger] once[i]).id != id by {
        assert(once[i] == f(steps.filter(p)[i]));
        steps.lemma_filter_pred(p, i);
    }
    assert forall|i: int, d: int|
        0 <= i < once.len() && 0 <= d < once[i].depends_on.len() implies (
    #[trigger] once[i].depends_on[d]) != id by {
        assert(once[i] == f(steps.filter(p)[i]));
        let dd = steps.filter(p)[i].depends_on;
        dd.lemma_filter_pred(text_ne(id), d);
    }
    lemma_remove_step_absent(once, id);
}


} // verus!
