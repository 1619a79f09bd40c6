//! The external representation of workflows and runs.
//!
//! A workflow or a run is written as a tree of plain values — booleans,
//! numbers, texts and lists — and read back from one.  The encoding is
//! total and the decoding checks every shape, and decoding an encoded
//! record gives back exactly the record that was written: the round
//! trip is proved at the model level and carried by the contracts of
//! the executable functions.  How such a tree reaches disk or a
//! database row is the caller's concern.

use vstd::prelude::*;

use crate::execution::{
    logs_view, results_view, ExecutionModel, LogModel, StepResultModel, WorkflowExecution,
    WorkflowLog, WorkflowStepResult,
};
use crate::strings::strs_view;
use crate::strmap::{KvPairs, StringMap};
use crate::workflow::{
    opt_text, steps_view, triggers_view, StepModel, TriggerModel, Workflow, WorkflowModel,
    WorkflowStatus, WorkflowStep, WorkflowStepStatus, WorkflowStepType, WorkflowTrigger,
    WorkflowTriggerType,
};

verus! {

/// A tree of plain values: the external form of the library's types.
#[derive(Debug)]
pub enum Value {
    Bit(bool),
    Num(u64),
    Int(i64),
    Text(String),
    List(Vec<Value>),
}

/// Mathematical model of a value tree.
pub enum ValueModel {
    Bit(bool),
    Num(u64),
    Int(i64),
    Text(Seq<char>),
    List(Seq<ValueModel>),
}

/// The model of a value tree, by structural recursion.
pub open spec fn value_model(v: Value) -> ValueModel
    decreases v, 1int,
    via value_model_decreases
{
    match v {
        Value::Bit(b) => ValueModel::Bit(b),
        Value::Num(n) => ValueModel::Num(n),
        Value::Int(n) => ValueModel::Int(n),
        Value::Text(s) => ValueModel::Text(s@),
        Value::List(vs) => ValueModel::List(values_model(vs@)),
    }
}

/// The models of a sequence of value trees.
pub open spec fn values_model(vs: Seq<Value>) -> Seq<ValueModel>
    decreases vs, 0int,
{
    if vs.len() == 0 {
        Seq::empty()
    } else {
        seq![value_model(vs[0])] + values_model(vs.subrange(1, vs.len() as int))
    }
}

#[via_fn]
proof fn value_model_decreases(v: Value) {
    if let Value::List(vs) = v {
        assert(decreases_to!(v => vs@));
    }
}

impl View for Value {
    type V = ValueModel;

    open spec fn view(&self) -> ValueModel {
        value_model(*self)
    }
}

/// The tag a trigger type is written as.
pub open spec fn trigger_type_tag(t: WorkflowTriggerType) -> u64 {
    match t {
        WorkflowTriggerType::Manual => 0,
        WorkflowTriggerType::FileChange => 1,
        WorkflowTriggerType::Schedule => 2,
        WorkflowTriggerType::EnvironmentActivation => 3,
        WorkflowTriggerType::GitCommit => 4,
        WorkflowTriggerType::BuildComplete => 5,
        WorkflowTriggerType::TestComplete => 6,
    }
}

/// The trigger type a tag is read as.
pub open spec fn trigger_type_of_tag(n: u64) -> Option<WorkflowTriggerType> {
    if n == 0 {
        Some(WorkflowTriggerType::Manual)
    } else if n == 1 {
        Some(WorkflowTriggerType::FileChange)
    } else if n == 2 {
        Some(WorkflowTriggerType::Schedule)
    } else if n == 3 {
        Some(WorkflowTriggerType::EnvironmentActivation)
    } else if n == 4 {
        Some(WorkflowTriggerType::GitCommit)
    } else if n == 5 {
        Some(WorkflowTriggerType::BuildComplete)
    } else if n == 6 {
        Some(WorkflowTriggerType::TestComplete)
    } else {
        None
    }
}

/// The tag a step type is written as.
pub open spec fn step_type_tag(t: WorkflowStepType) -> u64 {
    match t {
        WorkflowStepType::Command => 0,
        WorkflowStepType::Script => 1,
        WorkflowStepType::AIAnalysis => 2,
        WorkflowStepType::Notification => 3,
        WorkflowStepType::FileOperation => 4,
        WorkflowStepType::EnvironmentSetup => 5,
    }
}

/// The step type a tag is read as.
pub open spec fn step_type_of_tag(n: u64) -> Option<WorkflowStepType> {
    if n == 0 {
        Some(WorkflowStepType::Command)
    } else if n == 1 {
        Some(WorkflowStepType::Script)
    } else if n == 2 {
        Some(WorkflowStepType::AIAnalysis)
    } else if n == 3 {
        Some(WorkflowStepType::Notification)
    } else if n == 4 {
        Some(WorkflowStepType::FileOperation)
    } else if n == 5 {
        Some(WorkflowStepType::EnvironmentSetup)
    } else {
        None
    }
}

/// The tag a workflow status is written as.
pub open spec fn status_tag(t: WorkflowStatus) -> u64 {
    match t {
        WorkflowStatus::Idle => 0,
        WorkflowStatus::Running => 1,
        WorkflowStatus::Completed => 2,
        WorkflowStatus::Failed => 3,
        WorkflowStatus::Cancelled => 4,
        WorkflowStatus::Paused => 5,
    }
}

/// The workflow status a tag is read as.
pub open spec fn status_of_tag(n: u64) -> Option<WorkflowStatus> {
    if n == 0 {
        Some(WorkflowStatus::Idle)
    } else if n == 1 {
        Some(WorkflowStatus::Running)
    } else if n == 2 {
        Some(WorkflowStatus::Completed)
    } else if n == 3 {
        Some(WorkflowStatus::Failed)
    } else if n == 4 {
        Some(WorkflowStatus::Cancelled)
    } else if n == 5 {
        Some(WorkflowStatus::Paused)
    } else {
        None
    }
}

/// The tag a step status is written as.
pub open spec fn step_status_tag(t: WorkflowStepStatus) -> u64 {
    match t {
        WorkflowStepStatus::Pending => 0,
        WorkflowStepStatus::Running => 1,
        WorkflowStepStatus::Completed => 2,
        WorkflowStepStatus::Failed => 3,
        WorkflowStepStatus::Skipped => 4,
    }
}

/// The step status a tag is read as.
pub open spec fn step_status_of_tag(n: u64) -> Option<WorkflowStepStatus> {
    if n == 0 {
        Some(WorkflowStepStatus::Pending)
    } else if n == 1 {
        Some(WorkflowStepStatus::Running)
    } else if n == 2 {
        Some(WorkflowStepStatus::Completed)
    } else if n == 3 {
        Some(WorkflowStepStatus::Failed)
    } else if n == 4 {
        Some(WorkflowStepStatus::Skipped)
    } else {
        None
    }
}

/// An optional text, as a list of zero or one texts.
pub open spec fn val_of_opt_text(o: Option<Seq<char>>) -> ValueModel {
    match o {
        Some(s) => ValueModel::List(seq![ValueModel::Text(s)]),
        None => ValueModel::List(Seq::empty()),
    }
}

/// Read back an optional text.
pub open spec fn opt_text_of_val(v: ValueModel) -> Option<Option<Seq<char>>> {
    match v {
        ValueModel::List(fs) => if fs.len() == 0 {
            Some(None)
        } else if fs.len() == 1 {
            match fs[0] {
                ValueModel::Text(s) => Some(Some(s)),
                _ => None,
            }
        } else {
            None
        },
        _ => None,
    }
}

/// An optional number, as a list of zero or one numbers.
pub open spec fn val_of_opt_num(o: Option<u64>) -> ValueModel {
    match o {
        Some(n) => ValueModel::List(seq![ValueModel::Num(n)]),
        None => ValueModel::List(Seq::empty()),
    }
}

/// Read back an optional number.
pub open spec fn opt_num_of_val(v: ValueModel) -> Option<Option<u64>> {
    match v {
        ValueModel::List(fs) => if fs.len() == 0 {
            Some(None)
        } else if fs.len() == 1 {
            match fs[0] {
                ValueModel::Num(n) => Some(Some(n)),
                _ => None,
            }
        } else {
            None
        },
        _ => None,
    }
}

/// Key/value entries, each written as a two-text list.
pub open spec fn vals_of_pairs(kvs: KvPairs) -> Seq<ValueModel>
    decreases kvs.len(),
{
    if kvs.len() == 0 {
        Seq::empty()
    } else {
        seq![
            ValueModel::List(
                seq![ValueModel::Text(kvs[0].0), ValueModel::Text(kvs[0].1)],
            ),
        ] + vals_of_pairs(kvs.subrange(1, kvs.len() as int))
    }
}

/// Read back key/value entries.
pub open spec fn pairs_of_vals(vs: Seq<ValueModel>) -> Option<KvPairs>
    decreases vs.len(),
{
    if vs.len() == 0 {
        Some(Seq::empty())
    } else {
        match vs[0] {
            ValueModel::List(fs) => if fs.len() == 2 {
                match (fs[0], fs[1]) {
                    (ValueModel::Text(k), ValueModel::Text(v)) => {
                        match pairs_of_vals(vs.subrange(1, vs.len() as int)) {
                            Some(rest) => Some(seq![(k, v)] + rest),
                            None => None,
                        }
                    },
                    _ => None,
                }
            } else {
                None
            },
            _ => None,
        }
    }
}

/// Texts, written one by one.
pub open spec fn vals_of_texts(ts: Seq<Seq<char>>) -> Seq<ValueModel>
    decreases ts.len(),
{
    if ts.len() == 0 {
        Seq::empty()
    } else {
        seq![ValueModel::Text(ts[0])] + vals_of_texts(ts.subrange(1, ts.len() as int))
    }
}

/// Read back a list of texts.
pub open spec fn texts_of_vals(vs: Seq<ValueModel>) -> Option<Seq<Seq<char>>>
    decreases vs.len(),
{
    if vs.len() == 0 {
        Some(Seq::empty())
    } else {
        match vs[0] {
            ValueModel::Text(t) => {
                match texts_of_vals(vs.subrange(1, vs.len() as int)) {
                    Some(rest) => Some(seq![t] + rest),
                    None => None,
                }
            },
            _ => None,
        }
    }
}

/// Entries written out are read back unchanged.
pub proof fn lemma_pairs_round_trip(kvs: KvPairs)
    ensures
        pairs_of_vals(vals_of_pairs(kvs)) == Some(kvs),
    decreases kvs.len(),
{
    if kvs.len() == 0 {
        assert(pairs_of_vals(vals_of_pairs(kvs)) == Some(kvs));
    } else {
        let rest = kvs.subrange(1, kvs.len() as int);
        lemma_pairs_round_trip(rest);
        let vs = vals_of_pairs(kvs);
        assert(vs.subrange(1, vs.len() as int) =~= vals_of_pairs(rest));
        assert(seq![kvs[0]] + rest =~= kvs);
    }
}

/// Texts written out are read back unchanged.
pub proof fn lemma_texts_round_trip(ts: Seq<Seq<char>>)
    ensures
        texts_of_vals(vals_of_texts(ts)) == Some(ts),
    decreases ts.len(),
{
    if ts.len() == 0 {
        assert(texts_of_vals(vals_of_texts(ts)) == Some(ts));
    } else {
        let rest = ts.subrange(1, ts.len() as int);
        lemma_texts_round_trip(rest);
        let vs = vals_of_texts(ts);
        assert(vs.subrange(1, vs.len() as int) =~= vals_of_texts(rest));
        assert(seq![ts[0]] + rest =~= ts);
    }
}

/// Index view of a modelled list of values.
pub proof fn lemma_values_model_index(vs: Seq<Value>)
    ensures
        values_model(vs).len() == vs.len(),
        forall|i: int| 0 <= i < vs.len() ==> values_model(vs)[i] == value_model(#[trigger] vs[i]),
    decreases vs.len(),
{
    if vs.len() > 0 {
        let rest = vs.subrange(1, vs.len() as int);
        lemma_values_model_index(rest);
        assert forall|i: int| 0 <= i < vs.len() implies values_model(vs)[i] == value_model(
            #[trigger] vs[i],
        ) by {
            if i > 0 {
                assert(values_model(vs)[i] == values_model(rest)[i - 1]);
                assert(rest[i - 1] == vs[i]);
            }
        }
    }
}

/// Writing one more entry appends one more value.
pub proof fn lemma_vals_of_pairs_push(kvs: KvPairs, p: (Seq<char>, Seq<char>))
    ensures
        vals_of_pairs(kvs.push(p)) == vals_of_pairs(kvs).push(
            ValueModel::List(seq![ValueModel::Text(p.0), ValueModel::Text(p.1)]),
        ),
    decreases kvs.len(),
{
    if kvs.len() == 0 {
        assert(kvs.push(p)[0] == p);
        assert(kvs.push(p).subrange(1, 1) =~= kvs);
        assert(vals_of_pairs(kvs.push(p)) =~= vals_of_pairs(kvs).push(
            ValueModel::List(seq![ValueModel::Text(p.0), ValueModel::Text(p.1)]),
        ));
    } else {
        let rest = kvs.subrange(1, kvs.len() as int);
        lemma_vals_of_pairs_push(rest, p);
        assert(kvs.push(p).subrange(1, kvs.push(p).len() as int) =~= rest.push(p));
        assert(vals_of_pairs(kvs.push(p)) =~= vals_of_pairs(kvs).push(
            ValueModel::List(seq![ValueModel::Text(p.0), ValueModel::Text(p.1)]),
        ));
    }
}

/// Writing one more text appends one more value.
pub proof fn lemma_vals_of_texts_push(ts: Seq<Seq<char>>, t: Seq<char>)
    ensures
        vals_of_texts(ts.push(t)) == vals_of_texts(ts).push(ValueModel::Text(t)),
    decreases ts.len(),
{
    if ts.len() == 0 {
        assert(ts.push(t)[0] == t);
        assert(ts.push(t).subrange(1, 1) =~= ts);
        assert(vals_of_texts(ts.push(t)) =~= vals_of_texts(ts).push(ValueModel::Text(t)));
    } else {
        let rest = ts.subrange(1, ts.len() as int);
        lemma_vals_of_texts_push(rest, t);
        assert(ts.push(t).subrange(1, ts.push(t).len() as int) =~= rest.push(t));
        assert(vals_of_texts(ts.push(t)) =~= vals_of_texts(ts).push(ValueModel::Text(t)));
    }
}

/// A trigger, as a value tree: id, type tag, conditions, enabled flag.
pub open spec fn val_of_trigger(t: TriggerModel) -> ValueModel {
    ValueModel::List(
        seq![
            ValueModel::Text(t.id),
            ValueModel::Num(trigger_type_tag(t.trigger_type)),
            ValueModel::List(vals_of_pairs(t.conditions)),
            ValueModel::Bit(t.enabled),
        ],
    )
}

/// Read back a trigger.
pub open spec fn trigger_of_val(v: ValueModel) -> Option<TriggerModel> {
    match v {
        ValueModel::List(fs) => if fs.len() == 4 {
            match (fs[0], fs[1], fs[2], fs[3]) {
                (
                    ValueModel::Text(id),
                    ValueModel::Num(tag),
                    ValueModel::List(cvs),
                    ValueModel::Bit(enabled),
                ) => {
                    match (trigger_type_of_tag(tag), pairs_of_vals(cvs)) {
                        (Some(trigger_type), Some(conditions)) => Some(
                            TriggerModel { id, trigger_type, conditions, enabled },
                        ),
                        _ => None,
                    }
                },
                _ => None,
            }
        } else {
            None
        },
        _ => None,
    }
}

/// A written trigger is read back unchanged.
pub proof fn lemma_trigger_round_trip(t: TriggerModel)
    ensures
        trigger_of_val(val_of_trigger(t)) == Some(t),
{
    lemma_pairs_round_trip(t.conditions);
}

/// A step, as a value tree: id, name, type tag, command, script,
/// parameters, timeout, retry count, continue-on-error flag,
/// dependencies and status tag.
pub open spec fn val_of_step(s: StepModel) -> ValueModel {
    ValueModel::List(
        seq![
            ValueModel::Text(s.id),
            ValueModel::Text(s.name),
            ValueModel::Num(step_type_tag(s.step_type)),
            val_of_opt_text(s.command),
            val_of_opt_text(s.script_path),
            ValueModel::List(vals_of_pairs(s.parameters)),
            val_of_opt_num(s.timeout_seconds),
            ValueModel::Num(s.retry_count as u64),
            ValueModel::Bit(s.continue_on_error),
            ValueModel::List(vals_of_texts(s.depends_on)),
            ValueModel::Num(step_status_tag(s.status)),
        ],
    )
}

/// Read back a step.
pub open spec fn step_of_val(v: ValueModel) -> Option<StepModel> {
    match v {
        ValueModel::List(fs) => if fs.len() == 11 {
            match (fs[0], fs[1], fs[2], fs[5], fs[7], fs[8], fs[9], fs[10]) {
                (
                    ValueModel::Text(id),
                    ValueModel::Text(name),
                    ValueModel::Num(type_tag),
                    ValueModel::List(pvs),
                    ValueModel::Num(retries),
                    ValueModel::Bit(continue_on_error),
                    ValueModel::List(dvs),
                    ValueModel::Num(status_tag),
                ) => {
                    match (
                        step_type_of_tag(type_tag),
                        opt_text_of_val(fs[3]),
                        opt_text_of_val(fs[4]),
                        pairs_of_vals(pvs),
                        opt_num_of_val(fs[6]),
                        texts_of_vals(dvs),
                        step_status_of_tag(status_tag),
                    ) {
                        (
                            Some(step_type),
                            Some(command),
                            Some(script_path),
                            Some(parameters),
                            Some(timeout_seconds),
                            Some(depends_on),
                            Some(status),
                        ) => {
                            if retries <= u32::MAX as u64 {
                                Some(
                                    StepModel {
                                        id,
                                        name,
                                        step_type,
                                        command,
                                        script_path,
                                        parameters,
                                        timeout_seconds,
                                        retry_count: retries as u32,
                                        continue_on_error,
                                        depends_on,
                                        status,
                                    },
                                )
                            } else {
                                None
                            }
                        },
                        _ => None,
                    }
                },
                _ => None,
            }
        } else {
            None
        },
        _ => None,
    }
}

/// A written step is read back unchanged.
pub proof fn lemma_step_round_trip(s: StepModel)
    ensures
        step_of_val(val_of_step(s)) == Some(s),
{
    lemma_pairs_round_trip(s.parameters);
    lemma_texts_round_trip(s.depends_on);
}

/// Triggers, written one by one.
pub open spec fn vals_of_triggers(ts: Seq<TriggerModel>) -> Seq<ValueModel>
    decreases ts.len(),
{
    if ts.len() == 0 {
        Seq::empty()
    } else {
        seq![val_of_trigger(ts[0])] + vals_of_triggers(ts.subrange(1, ts.len() as int))
    }
}

/// Read back a list of triggers.
pub open spec fn triggers_of_vals(vs: Seq<ValueModel>) -> Option<Seq<TriggerModel>>
    decreases vs.len(),
{
    if vs.len() == 0 {
        Some(Seq::empty())
    } else {
        match trigger_of_val(vs[0]) {
            Some(t) => {
                match triggers_of_vals(vs.subrange(1, vs.len() as int)) {
                    Some(rest) => Some(seq![t] + rest),
                    None => None,
                }
            },
            None => None,
        }
    }
}

/// Steps, written one by one.
pub open spec fn vals_of_steps(ss: Seq<StepModel>) -> Seq<ValueModel>
    decreases ss.len(),
{
    if ss.len() == 0 {
        Seq::empty()
    } else {
        seq![val_of_step(ss[0])] + vals_of_steps(ss.subrange(1, ss.len() as int))
    }
}

/// Read back a list of steps.
pub open spec fn steps_of_vals(vs: Seq<ValueModel>) -> Option<Seq<StepModel>>
    decreases vs.len(),
{
    if vs.len() == 0 {
        Some(Seq::empty())
    } else {
        match step_of_val(vs[0]) {
            Some(s) => {
                match steps_of_vals(vs.subrange(1, vs.len() as int)) {
                    Some(rest) => Some(seq![s] + rest),
                    None => None,
                }
            },
            None => None,
        }
    }
}

/// Written triggers are read back unchanged.
pub proof fn lemma_triggers_round_trip(ts: Seq<TriggerModel>)
    ensures
        triggers_of_vals(vals_of_triggers(ts)) == Some(ts),
    decreases ts.len(),
{
    if ts.len() == 0 {
        assert(triggers_of_vals(vals_of_triggers(ts)) == Some(ts));
    } else {
        let rest = ts.subrange(1, ts.len() as int);
        lemma_triggers_round_trip(rest);
        lemma_trigger_round_trip(ts[0]);
        let vs = vals_of_triggers(ts);
        assert(vs.subrange(1, vs.len() as int) =~= vals_of_triggers(rest));
        assert(seq![ts[0]] + rest =~= ts);
    }
}

/// Written steps are read back unchanged.
pub proof fn lemma_steps_round_trip(ss: Seq<StepModel>)
    ensures
        steps_of_vals(vals_of_steps(ss)) == Some(ss),
    decreases ss.len(),
{
    if ss.len() == 0 {
        assert(steps_of_vals(vals_of_steps(ss)) == Some(ss));
    } else {
        let rest = ss.subrange(1, ss.len() as int);
        lemma_steps_round_trip(rest);
        lemma_step_round_trip(ss[0]);
        let vs = vals_of_steps(ss);
        assert(vs.subrange(1, vs.len() as int) =~= vals_of_steps(rest));
        assert(seq![ss[0]] + rest =~= ss);
    }
}

/// A workflow, as a value tree.
pub open spec fn val_of_workflow(m: WorkflowModel) -> ValueModel {
    ValueModel::List(
        seq![
            ValueModel::Text(m.id),
            ValueModel::Text(m.name),
            ValueModel::Text(m.description),
            ValueModel::List(vals_of_triggers(m.triggers)),
            ValueModel::List(vals_of_steps(m.steps)),
            val_of_opt_text(m.environment_id),
            ValueModel::Num(status_tag(m.status)),
            ValueModel::Num(m.created_at),
            ValueModel::Num(m.updated_at),
            val_of_opt_num(m.last_executed),
            ValueModel::Num(m.execution_count),
            ValueModel::Bit(m.enabled),
        ],
    )
}

/// Read back a workflow.
pub open spec fn workflow_of_val(v: ValueModel) -> Option<WorkflowModel> {
    match v {
        ValueModel::List(fs) => if fs.len() == 12 {
            match (fs[0], fs[1], fs[2], fs[3], fs[4], fs[6], fs[7], fs[8], fs[10], fs[11]) {
                (
                    ValueModel::Text(id),
                    ValueModel::Text(name),
                    ValueModel::Text(description),
                    ValueModel::List(tvs),
                    ValueModel::List(svs),
                    ValueModel::Num(stag),
                    ValueModel::Num(created_at),
                    ValueModel::Num(updated_at),
                    ValueModel::Num(execution_count),
                    ValueModel::Bit(enabled),
                ) => {
                    match (
                        triggers_of_vals(tvs),
                        steps_of_vals(svs),
                        opt_text_of_val(fs[5]),
                        status_of_tag(stag),
                        opt_num_of_val(fs[9]),
                    ) {
                        (
                            Some(triggers),
                            Some(steps),
                            Some(environment_id),
                            Some(status),
                            Some(last_executed),
                        ) => Some(
                            WorkflowModel {
                                id,
                                name,
                                description,
                                triggers,
                                steps,
                                environment_id,
                                status,
                                created_at,
                                updated_at,
                                last_executed,
                                execution_count,
                                enabled,
                            },
                        ),
                        _ => None,
                    }
                },
                _ => None,
            }
        } else {
            None
        },
        _ => None,
    }
}

/// The law of the round trip: a workflow written to its external
/// representation and read back is reproduced exactly — id, name,
/// description, triggers with their conditions, steps with their
/// dependency lists and parameters, status, timestamps and counters.
pub proof fn lemma_workflow_round_trip(m: WorkflowModel)
    ensures
        workflow_of_val(val_of_workflow(m)) == Some(m),
{
    lemma_triggers_round_trip(m.triggers);
    lemma_steps_round_trip(m.steps);
}


/// Appending a value appends its model.
pub proof fn lemma_values_model_push(vs: Seq<Value>, v: Value)
    ensures
        values_model(vs.push(v)) == values_model(vs).push(value_model(v)),
    decreases vs.len(),
{
    if vs.len() == 0 {
        assert(vs.push(v)[0] == v);
        assert(vs.push(v).subrange(1, 1) =~= vs);
        assert(values_model(vs.push(v)) =~= values_model(vs).push(value_model(v)));
    } else {
        let rest = vs.subrange(1, vs.len() as int);
        lemma_values_model_push(rest, v);
        assert(vs.push(v).subrange(1, vs.push(v).len() as int) =~= rest.push(v));
        assert(values_model(vs.push(v)) =~= values_model(vs).push(value_model(v)));
    }
}

/// The tag a trigger type is written as.
pub fn trigger_type_to_tag(t: WorkflowTriggerType) -> (r: u64)
    ensures
        r == trigger_type_tag(t),
{
    match t {
        WorkflowTriggerType::Manual => 0,
        WorkflowTriggerType::FileChange => 1,
        WorkflowTriggerType::Schedule => 2,
        WorkflowTriggerType::EnvironmentActivation => 3,
        WorkflowTriggerType::GitCommit => 4,
        WorkflowTriggerType::BuildComplete => 5,
        WorkflowTriggerType::TestComplete => 6,
    }
}

/// The trigger type a tag is read as.
pub fn trigger_type_from_tag(n: u64) -> (r: Option<WorkflowTriggerType>)
    ensures
        r == trigger_type_of_tag(n),
{
    if n == 0 {
        Some(WorkflowTriggerType::Manual)
    } else if n == 1 {
        Some(WorkflowTriggerType::FileChange)
    } else if n == 2 {
        Some(WorkflowTriggerType::Schedule)
    } else if n == 3 {
        Some(WorkflowTriggerType::EnvironmentActivation)
    } else if n == 4 {
        Some(WorkflowTriggerType::GitCommit)
    } else if n == 5 {
        Some(WorkflowTriggerType::BuildComplete)
    } else if n == 6 {
        Some(WorkflowTriggerType::TestComplete)
    } else {
        None
    }
}

/// The tag a step type is written as.
pub fn step_type_to_tag(t: WorkflowStepType) -> (r: u64)
    ensures
        r == step_type_tag(t),
{
    match t {
        WorkflowStepType::Command => 0,
        WorkflowStepType::Script => 1,
        WorkflowStepType::AIAnalysis => 2,
        WorkflowStepType::Notification => 3,
        WorkflowStepType::FileOperation => 4,
        WorkflowStepType::EnvironmentSetup => 5,
    }
}

/// The step type a tag is read as.
pub fn step_type_from_tag(n: u64) -> (r: Option<WorkflowStepType>)
    ensures
        r == step_type_of_tag(n),
{
    if n == 0 {
        Some(WorkflowStepType::Command)
    } else if n == 1 {
        Some(WorkflowStepType::Script)
    } else if n == 2 {
        Some(WorkflowStepType::AIAnalysis)
    } else if n == 3 {
        Some(WorkflowStepType::Notification)
    } else if n == 4 {
        Some(WorkflowStepType::FileOperation)
    } else if n == 5 {
        Some(WorkflowStepType::EnvironmentSetup)
    } else {
        None
    }
}

/// The tag a workflow status is written as.
pub fn status_to_tag(t: WorkflowStatus) -> (r: u64)
    ensures
        r == status_tag(t),
{
    match t {
        WorkflowStatus::Idle => 0,
        WorkflowStatus::Running => 1,
        WorkflowStatus::Completed => 2,
        WorkflowStatus::Failed => 3,
        WorkflowStatus::Cancelled => 4,
        WorkflowStatus::Paused => 5,
    }
}

/// The workflow status a tag is read as.
pub fn status_from_tag(n: u64) -> (r: Option<WorkflowStatus>)
    ensures
        r == status_of_tag(n),
{
    if n == 0 {
        Some(WorkflowStatus::Idle)
    } else if n == 1 {
        Some(WorkflowStatus::Running)
    } else if n == 2 {
        Some(WorkflowStatus::Completed)
    } else if n == 3 {
        Some(WorkflowStatus::Failed)
    } else if n == 4 {
        Some(WorkflowStatus::Cancelled)
    } else if n == 5 {
        Some(WorkflowStatus::Paused)
    } else {
        None
    }
}

/// The tag a step status is written as.
pub fn step_status_to_tag(t: WorkflowStepStatus) -> (r: u64)
    ensures
        r == step_status_tag(t),
{
    match t {
        WorkflowStepStatus::Pending => 0,
        WorkflowStepStatus::Running => 1,
        WorkflowStepStatus::Completed => 2,
        WorkflowStepStatus::Failed => 3,
        WorkflowStepStatus::Skipped => 4,
    }
}

/// The step status a tag is read as.
pub fn step_status_from_tag(n: u64) -> (r: Option<WorkflowStepStatus>)
    ensures
        r == step_status_of_tag(n),
{
    if n == 0 {
        Some(WorkflowStepStatus::Pending)
    } else if n == 1 {
        Some(WorkflowStepStatus::Running)
    } else if n == 2 {
        Some(WorkflowStepStatus::Completed)
    } else if n == 3 {
        Some(WorkflowStepStatus::Failed)
    } else if n == 4 {
        Some(WorkflowStepStatus::Skipped)
    } else {
        None
    }
}

/// Write an optional text.
fn opt_text_to_value(o: &Option<String>) -> (r: Value)
    ensures
        r@ == val_of_opt_text(opt_text(*o)),
{
    match o {
        Some(s) => {
            let mut fs: Vec<Value> = Vec::new();
            fs.push(Value::Text(s.clone()));
            let r = Value::List(fs);
            proof {
                lemma_values_model_index(fs@);
                assert(values_model(fs@) =~= seq![ValueModel::Text(s@)]);
            }
            r
        },
        None => {
            let fs: Vec<Value> = Vec::new();
            let r = Value::List(fs);
            proof {
                assert(values_model(fs@) =~= Seq::<ValueModel>::empty());
            }
            r
        },
    }
}

/// Write an optional number.
fn opt_num_to_value(o: &Option<u64>) -> (r: Value)
    ensures
        r@ == val_of_opt_num(*o),
{
    match o {
        Some(n) => {
            let mut fs: Vec<Value> = Vec::new();
            fs.push(Value::Num(*n));
            let r = Value::List(fs);
            proof {
                lemma_values_model_index(fs@);
                assert(values_model(fs@) =~= seq![ValueModel::Num(*n)]);
            }
            r
        },
        None => {
            let fs: Vec<Value> = Vec::new();
            let r = Value::List(fs);
            proof {
                assert(values_model(fs@) =~= Seq::<ValueModel>::empty());
            }
            r
        },
    }
}

/// Read back an optional text.
fn opt_text_from_value(v: &Value) -> (r: Option<Option<String>>)
    ensures
        match r {
            Some(o) => opt_text_of_val(v@) == Some(opt_text(o)),
            None => opt_text_of_val(v@) is None,
        },
{
    match v {
        Value::List(fs) => {
            proof {
                lemma_values_model_index(fs@);
            }
            if fs.len() == 0 {
                Some(None)
            } else if fs.len() == 1 {
                match &fs[0] {
                    Value::Text(s) => Some(Some(s.clone())),
                    _ => None,
                }
            } else {
                None
            }
        },
        _ => None,
    }
}

/// Read back an optional number.
fn opt_num_from_value(v: &Value) -> (r: Option<Option<u64>>)
    ensures
        match r {
            Some(o) => opt_num_of_val(v@) == Some(o),
            None => opt_num_of_val(v@) is None,
        },
{
    match v {
        Value::List(fs) => {
            proof {
                lemma_values_model_index(fs@);
            }
            if fs.len() == 0 {
                Some(None)
            } else if fs.len() == 1 {
                match &fs[0] {
                    Value::Num(n) => Some(Some(*n)),
                    _ => None,
                }
            } else {
                None
            }
        },
        _ => None,
    }
}

/// Write a mapping as its list of entries.
fn conditions_to_value(m: &StringMap) -> (r: Value)
    ensures
        r@ == ValueModel::List(vals_of_pairs(m@)),
{
    let mut out: Vec<Value> = Vec::new();
    let mut i: usize = 0;
    proof {
        assert(m@.subrange(0, 0) =~= Seq::<(Seq<char>, Seq<char>)>::empty());
        assert(values_model(out@) =~= vals_of_pairs(m@.subrange(0, 0)));
    }
    while i < m.len()
        invariant
            i <= m@.len(),
            values_model(out@) == vals_of_pairs(m@.subrange(0, i as int)),
        decreases m@.len() - i,
    {
        let e = m.entry(i);
        let mut pair: Vec<Value> = Vec::new();
        pair.push(Value::Text(e.0.clone()));
        pair.push(Value::Text(e.1.clone()));
        let ghost out0 = out@;
        let ghost pv = pair@;
        out.push(Value::List(pair));
        proof {
            lemma_values_model_index(pv);
            assert(values_model(pv).len() == 2);
            assert(values_model(pv)[0] == value_model(pv[0]));
            assert(values_model(pv)[1] == value_model(pv[1]));
            assert(values_model(pv) =~= seq![
                ValueModel::Text(m@[i as int].0),
                ValueModel::Text(m@[i as int].1),
            ]);
            assert(value_model(out@[out@.len() - 1]) == ValueModel::List(values_model(pv)));
            lemma_values_model_push(out0, out@[out@.len() - 1]);
            lemma_vals_of_pairs_push(m@.subrange(0, i as int), m@[i as int]);
            assert(m@.subrange(0, i as int + 1) =~= m@.subrange(0, i as int).push(m@[i as int]));
        }
        i = i + 1;
    }
    proof {
        assert(m@.subrange(0, m@.len() as int) =~= m@);
    }
    Value::List(out)
}

/// Write a list of texts.
fn texts_to_value(v: &Vec<String>) -> (r: Value)
    ensures
        r@ == ValueModel::List(vals_of_texts(strs_view(v@))),
{
    let mut out: Vec<Value> = Vec::new();
    let mut i: usize = 0;
    proof {
        assert(strs_view(v@.subrange(0, 0)) =~= Seq::<Seq<char>>::empty());
        assert(values_model(out@) =~= vals_of_texts(strs_view(v@.subrange(0, 0))));
    }
    while i < v.len()
        invariant
            i <= v@.len(),
            values_model(out@) == vals_of_texts(strs_view(v@.subrange(0, i as int))),
        decreases v@.len() - i,
    {
        let ghost out0 = out@;
        out.push(Value::Text(v[i].clone()));
        proof {
            lemma_values_model_push(out0, out@[out@.len() - 1]);
            lemma_vals_of_texts_push(strs_view(v@.subrange(0, i as int)), v@[i as int]@);
            assert(strs_view(v@.subrange(0, i as int + 1)) =~= strs_view(
                v@.subrange(0, i as int),
            ).push(v@[i as int]@));
        }
        i = i + 1;
    }
    proof {
        assert(v@.subrange(0, v@.len() as int) =~= v@);
    }
    Value::List(out)
}


/// Writing one more trigger appends one more value.
pub proof fn lemma_vals_of_triggers_push(ts: Seq<TriggerModel>, t: TriggerModel)
    ensures
        vals_of_triggers(ts.push(t)) == vals_of_triggers(ts).push(val_of_trigger(t)),
    decreases ts.len(),
{
    if ts.len() == 0 {
        assert(ts.push(t)[0] == t);
        assert(ts.push(t).subrange(1, 1) =~= ts);
        assert(vals_of_triggers(ts.push(t)) =~= vals_of_triggers(ts).push(val_of_trigger(t)));
    } else {
        let rest = ts.subrange(1, ts.len() as int);
        lemma_vals_of_triggers_push(rest, t);
        assert(ts.push(t).subrange(1, ts.push(t).len() as int) =~= rest.push(t));
        assert(vals_of_triggers(ts.push(t)) =~= vals_of_triggers(ts).push(val_of_trigger(t)));
    }
}

/// Writing one more step appends one more value.
pub proof fn lemma_vals_of_steps_push(ss: Seq<StepModel>, e: StepModel)
    ensures
        vals_of_steps(ss.push(e)) == vals_of_steps(ss).push(val_of_step(e)),
    decreases ss.len(),
{
    if ss.len() == 0 {
        assert(ss.push(e)[0] == e);
        assert(ss.push(e).subrange(1, 1) =~= ss);
        assert(vals_of_steps(ss.push(e)) =~= vals_of_steps(ss).push(val_of_step(e)));
    } else {
        let rest = ss.subrange(1, ss.len() as int);
        lemma_vals_of_steps_push(rest, e);
        assert(ss.push(e).subrange(1, ss.push(e).len() as int) =~= rest.push(e));
        assert(vals_of_steps(ss.push(e)) =~= vals_of_steps(ss).push(val_of_step(e)));
    }
}

/// Write a trigger.
pub fn trigger_to_value(t: &WorkflowTrigger) -> (r: Value)
    ensures
        r@ == val_of_trigger(t@),
{
    let mut fs: Vec<Value> = Vec::new();
    fs.push(Value::Text(t.id.clone()));
    fs.push(Value::Num(trigger_type_to_tag(t.trigger_type)));
    fs.push(conditions_to_value(&t.conditions));
    fs.push(Value::Bit(t.enabled));
    let ghost fv = fs@;
    let r = Value::List(fs);
    proof {
        lemma_values_model_index(fv);
        assert(values_model(fv).len() == 4);
        assert(values_model(fv)[0] == value_model(fv[0]));
        assert(values_model(fv)[1] == value_model(fv[1]));
        assert(values_model(fv)[2] == value_model(fv[2]));
        assert(values_model(fv)[3] == value_model(fv[3]));
        assert(values_model(fv) =~= val_of_trigger(t@)->List_0);
    }
    r
}

/// Write a step.
pub fn step_to_value(s: &WorkflowStep) -> (r: Value)
    ensures
        r@ == val_of_step(s@),
{
    let mut fs: Vec<Value> = Vec::new();
    fs.push(Value::Text(s.id.clone()));
    fs.push(Value::Text(s.name.clone()));
    fs.push(Value::Num(step_type_to_tag(s.step_type)));
    fs.push(opt_text_to_value(&s.command));
    fs.push(opt_text_to_value(&s.script_path));
    fs.push(conditions_to_value(&s.parameters));
    fs.push(opt_num_to_value(&s.timeout_seconds));
    fs.push(Value::Num(s.retry_count as u64));
    fs.push(Value::Bit(s.continue_on_error));
    fs.push(texts_to_value(&s.depends_on));
    fs.push(Value::Num(step_status_to_tag(s.status)));
    let ghost fv = fs@;
    let r = Value::List(fs);
    proof {
        lemma_values_model_index(fv);
        assert(values_model(fv).len() == 11);
        assert forall|j: int| 0 <= j < 11 implies values_model(fv)[j] == value_model(
            #[trigger] fv[j],
        ) by {}
        assert(values_model(fv)[0] == value_model(fv[0]));
        assert(values_model(fv)[1] == value_model(fv[1]));
        assert(values_model(fv)[2] == value_model(fv[2]));
        assert(values_model(fv)[3] == value_model(fv[3]));
        assert(values_model(fv)[4] == value_model(fv[4]));
        assert(values_model(fv)[5] == value_model(fv[5]));
        assert(values_model(fv)[6] == value_model(fv[6]));
        assert(values_model(fv)[7] == value_model(fv[7]));
        assert(values_model(fv)[8] == value_model(fv[8]));
        assert(values_model(fv)[9] == value_model(fv[9]));
        assert(values_model(fv)[10] == value_model(fv[10]));
        assert(values_model(fv) =~= val_of_step(s@)->List_0);
    }
    r
}

/// Read back a mapping from its list of entries.
fn conditions_from_values(cs: &Vec<Value>) -> (r: Option<StringMap>)
    ensures
        match r {
            Some(m) => pairs_of_vals(values_model(cs@)) == Some(m@),
            None => pairs_of_vals(values_model(cs@)) is None,
        },
{
    let ghost full = values_model(cs@);
    let mut out = StringMap::new();
    let mut i: usize = 0;
    proof {
        lemma_values_model_index(cs@);
        assert(full.subrange(0, full.len() as int) =~= full);
    }
    while i < cs.len()
        invariant
            i <= cs@.len(),
            full == values_model(cs@),
            full.len() == cs@.len(),
            forall|j: int| 0 <= j < cs@.len() ==> full[j] == value_model(#[trigger] cs@[j]),
            pairs_of_vals(full) == (match pairs_of_vals(
                full.subrange(i as int, full.len() as int),
            ) {
                Some(rest) => Some(out@ + rest),
                None => None::<KvPairs>,
            }),
        decreases cs@.len() - i,
    {
        let ghost suf = full.subrange(i as int, full.len() as int);
        proof {
            assert(suf[0] == full[i as int]);
            assert(suf.subrange(1, suf.len() as int) =~= full.subrange(
                i as int + 1,
                full.len() as int,
            ));
        }
        match &cs[i] {
            Value::List(pf) => {
                proof {
                    lemma_values_model_index(pf@);
                }
                if pf.len() != 2 {
                    return None;
                }
                let k = match &pf[0] {
                    Value::Text(t) => t.clone(),
                    _ => {
                        return None;
                    },
                };
                let v = match &pf[1] {
                    Value::Text(t) => t.clone(),
                    _ => {
                        return None;
                    },
                };
                let ghost kk = k@;
                let ghost vv = v@;
                let ghost out0 = out@;
                out.push_entry(k, v);
                proof {
                    assert(values_model(pf@)[0] == value_model(pf@[0]));
                    assert(values_model(pf@)[1] == value_model(pf@[1]));
                    assert(suf[0] == ValueModel::List(
                        seq![ValueModel::Text(kk), ValueModel::Text(vv)],
                    )) by {
                        assert(values_model(pf@) =~= seq![
                            ValueModel::Text(kk),
                            ValueModel::Text(vv),
                        ]);
                    }
                    let tail = full.subrange(i as int + 1, full.len() as int);
                    if pairs_of_vals(tail) is Some {
                        let rest = pairs_of_vals(tail)->Some_0;
                        assert(pairs_of_vals(suf) == Some(seq![(kk, vv)] + rest));
                        assert(out0 + (seq![(kk, vv)] + rest) =~= out@ + rest);
                    } else {
                        assert(pairs_of_vals(suf) is None);
                    }
                }
            },
            _ => {
                return None;
            },
        }
        i = i + 1;
    }
    proof {
        let tail = full.subrange(full.len() as int, full.len() as int);
        assert(tail =~= Seq::<ValueModel>::empty());
        assert(pairs_of_vals(tail) == Some(Seq::<(Seq<char>, Seq<char>)>::empty()));
        assert(out@ + Seq::<(Seq<char>, Seq<char>)>::empty() =~= out@);
    }
    Some(out)
}

/// Read back a list of texts.
fn texts_from_values(cs: &Vec<Value>) -> (r: Option<Vec<String>>)
    ensures
        match r {
            Some(v) => texts_of_vals(values_model(cs@)) == Some(strs_view(v@)),
            None => texts_of_vals(values_model(cs@)) is None,
        },
{
    let ghost full = values_model(cs@);
    let mut out: Vec<String> = Vec::new();
    let mut i: usize = 0;
    proof {
        lemma_values_model_index(cs@);
        assert(full.subrange(0, full.len() as int) =~= full);
        assert(strs_view(out@) =~= Seq::<Seq<char>>::empty());
    }
    while i < cs.len()
        invariant
            i <= cs@.len(),
            full == values_model(cs@),
            full.len() == cs@.len(),
            forall|j: int| 0 <= j < cs@.len() ==> full[j] == value_model(#[trigger] cs@[j]),
            texts_of_vals(full) == (match texts_of_vals(
                full.subrange(i as int, full.len() as int),
            ) {
                Some(rest) => Some(strs_view(out@) + rest),
                None => None::<Seq<Seq<char>>>,
            }),
        decreases cs@.len() - i,
    {
        let ghost suf = full.subrange(i as int, full.len() as int);
        proof {
            assert(suf[0] == full[i as int]);
            assert(suf.subrange(1, suf.len() as int) =~= full.subrange(
                i as int + 1,
                full.len() as int,
            ));
        }
        match &cs[i] {
            Value::Text(t) => {
                let ghost out0 = strs_view(out@);
                out.push(t.clone());
                proof {
                    assert(strs_view(out@) =~= out0.push(t@));
                    let tail = full.subrange(i as int + 1, full.len() as int);
                    if texts_of_vals(tail) is Some {
                        let rest = texts_of_vals(tail)->Some_0;
                        assert(texts_of_vals(suf) == Some(seq![t@] + rest));
                        assert(out0 + (seq![t@] + rest) =~= strs_view(out@) + rest);
                    } else {
                        assert(texts_of_vals(suf) is None);
                    }
                }
            },
            _ => {
                return None;
            },
        }
        i = i + 1;
    }
    proof {
        let tail = full.subrange(full.len() as int, full.len() as int);
        assert(tail =~= Seq::<ValueModel>::empty());
        assert(strs_view(out@) + Seq::<Seq<char>>::empty() =~= strs_view(out@));
    }
    Some(out)
}

/// Read back a trigger.
pub fn trigger_from_value(v: &Value) -> (r: Option<WorkflowTrigger>)
    ensures
        match r {
            Some(t) => trigger_of_val(v@) == Some(t@),
            None => trigger_of_val(v@) is None,
        },
{
    match v {
        Value::List(fs) => {
            proof {
                lemma_values_model_index(fs@);
            }
            if fs.len() != 4 {
                return None;
            }
            let id = match &fs[0] {
                Value::Text(s) => s.clone(),
                _ => {
                    return None;
                },
            };
            let tag = match &fs[1] {
                Value::Num(n) => *n,
                _ => {
                    return None;
                },
            };
            let trigger_type = match trigger_type_from_tag(tag) {
                Some(t) => t,
                None => {
                    return None;
                },
            };
            let conditions = match &fs[2] {
                Value::List(cs) => {
                    match conditions_from_values(cs) {
                        Some(m) => m,
                        None => {
                            return None;
                        },
                    }
                },
                _ => {
                    return None;
                },
            };
            let enabled = match &fs[3] {
                Value::Bit(b) => *b,
                _ => {
                    return None;
                },
            };
            Some(WorkflowTrigger { id, trigger_type, conditions, enabled })
        },
        _ => None,
    }
}

/// Read back a step.
pub fn step_from_value(v: &Value) -> (r: Option<WorkflowStep>)
    ensures
        match r {
            Some(s) => step_of_val(v@) == Some(s@),
            None => step_of_val(v@) is None,
        },
{
    match v {
        Value::List(fs) => {
            proof {
                lemma_values_model_index(fs@);
            }
            if fs.len() != 11 {
                return None;
            }
            let id = match &fs[0] {
                Value::Text(s) => s.clone(),
                _ => {
                    return None;
                },
            };
            let name = match &fs[1] {
                Value::Text(s) => s.clone(),
                _ => {
                    return None;
                },
            };
            let type_tag = match &fs[2] {
                Value::Num(n) => *n,
                _ => {
                    return None;
                },
            };
            let step_type = match step_type_from_tag(type_tag) {
                Some(t) => t,
                None => {
                    return None;
                },
            };
            let command = match opt_text_from_value(&fs[3]) {
                Some(o) => o,
                None => {
                    return None;
                },
            };
            let script_path = match opt_text_from_value(&fs[4]) {
                Some(o) => o,
                None => {
                    return None;
                },
            };
            let parameters = match &fs[5] {
                Value::List(cs) => {
                    match conditions_from_values(cs) {
                        Some(m) => m,
                        None => {
                            return None;
                        },
                    }
                },
                _ => {
                    return None;
                },
            };
            let timeout_seconds = match opt_num_from_value(&fs[6]) {
                Some(o) => o,
                None => {
                    return None;
                },
            };
            let retries = match &fs[7] {
                Value::Num(n) => *n,
                _ => {
                    return None;
                },
            };
            if retries > u32::MAX as u64 {
                return None;
            }
            let continue_on_error = match &fs[8] {
                Value::Bit(b) => *b,
                _ => {
                    return None;
                },
            };
            let depends_on = match &fs[9] {
                Value::List(ds) => {
                    match texts_from_values(ds) {
                        Some(v2) => v2,
                        None => {
                            return None;
                        },
                    }
                },
                _ => {
                    return None;
                },
            };
            let status_tag = match &fs[10] {
                Value::Num(n) => *n,
                _ => {
                    return None;
                },
            };
            let status = match step_status_from_tag(status_tag) {
                Some(t) => t,
                None => {
                    return None;
                },
            };
            Some(
                WorkflowStep {
                    id,
                    name,
                    step_type,
                    command,
                    script_path,
                    parameters,
                    timeout_seconds,
                    retry_count: retries as u32,
                    continue_on_error,
                    depends_on,
                    status,
                },
            )
        },
        _ => None,
    }
}


/// Write a list of triggers.
fn triggers_to_value(ts: &Vec<WorkflowTrigger>) -> (r: Value)
    ensures
        r@ == ValueModel::List(vals_of_triggers(triggers_view(ts@))),
{
    let mut out: Vec<Value> = Vec::new();
    let mut i: usize = 0;
    proof {
        assert(triggers_view(ts@.subrange(0, 0)) =~= Seq::<TriggerModel>::empty());
        assert(values_model(out@) =~= vals_of_triggers(triggers_view(ts@.subrange(0, 0))));
    }
    while i < ts.len()
        invariant
            i <= ts@.len(),
            values_model(out@) == vals_of_triggers(triggers_view(ts@.subrange(0, i as int))),
        decreases ts@.len() - i,
    {
        let ghost out0 = out@;
        out.push(trigger_to_value(&ts[i]));
        proof {
            lemma_values_model_push(out0, out@[out@.len() - 1]);
            lemma_vals_of_triggers_push(triggers_view(ts@.subrange(0, i as int)), ts@[i as int]@);
            assert(triggers_view(ts@.subrange(0, i as int + 1)) =~= triggers_view(
                ts@.subrange(0, i as int),
            ).push(ts@[i as int]@));
        }
        i = i + 1;
    }
    proof {
        assert(ts@.subrange(0, ts@.len() as int) =~= ts@);
    }
    Value::List(out)
}

/// Write a list of steps.
fn steps_to_value(ss: &Vec<WorkflowStep>) -> (r: Value)
    ensures
        r@ == ValueModel::List(vals_of_steps(steps_view(ss@))),
{
    let mut out: Vec<Value> = Vec::new();
    let mut i: usize = 0;
    proof {
        assert(steps_view(ss@.subrange(0, 0)) =~= Seq::<StepModel>::empty());
        assert(values_model(out@) =~= vals_of_steps(steps_view(ss@.subrange(0, 0))));
    }
    while i < ss.len()
        invariant
            i <= ss@.len(),
            values_model(out@) == vals_of_steps(steps_view(ss@.subrange(0, i as int))),
        decreases ss@.len() - i,
    {
        let ghost out0 = out@;
        out.push(step_to_value(&ss[i]));
        proof {
            lemma_values_model_push(out0, out@[out@.len() - 1]);
            lemma_vals_of_steps_push(steps_view(ss@.subrange(0, i as int)), ss@[i as int]@);
            assert(steps_view(ss@.subrange(0, i as int + 1)) =~= steps_view(
                ss@.subrange(0, i as int),
            ).push(ss@[i as int]@));
        }
        i = i + 1;
    }
    proof {
        assert(ss@.subrange(0, ss@.len() as int) =~= ss@);
    }
    Value::List(out)
}

/// Read back a list of triggers.
fn triggers_from_values(cs: &Vec<Value>) -> (r: Option<Vec<WorkflowTrigger>>)
    ensures
        match r {
            Some(ts) => triggers_of_vals(values_model(cs@)) == Some(triggers_view(ts@)),
            None => triggers_of_vals(values_model(cs@)) is None,
        },
{
    let ghost full = values_model(cs@);
    let mut out: Vec<WorkflowTrigger> = Vec::new();
    let mut i: usize = 0;
    proof {
        lemma_values_model_index(cs@);
        assert(full.subrange(0, full.len() as int) =~= full);
        assert(triggers_view(out@) =~= Seq::<TriggerModel>::empty());
    }
    while i < cs.len()
        invariant
            i <= cs@.len(),
            full == values_model(cs@),
            full.len() == cs@.len(),
            forall|j: int| 0 <= j < cs@.len() ==> full[j] == value_model(#[trigger] cs@[j]),
            triggers_of_vals(full) == (match triggers_of_vals(
                full.subrange(i as int, full.len() as int),
            ) {
                Some(rest) => Some(triggers_view(out@) + rest),
                None => None::<Seq<TriggerModel>>,
            }),
        decreases cs@.len() - i,
    {
        let ghost suf = full.subrange(i as int, full.len() as int);
        proof {
            assert(suf[0] == full[i as int]);
            assert(suf.subrange(1, suf.len() as int) =~= full.subrange(
                i as int + 1,
                full.len() as int,
            ));
        }
        match trigger_from_value(&cs[i]) {
            Some(t) => {
                let ghost tm = t@;
                let ghost out0 = triggers_view(out@);
                out.push(t);
                proof {
                    assert(triggers_view(out@) =~= out0.push(tm));
                    let tail = full.subrange(i as int + 1, full.len() as int);
                    if triggers_of_vals(tail) is Some {
                        let rest = triggers_of_vals(tail)->Some_0;
                        assert(triggers_of_vals(suf) == Some(seq![tm] + rest));
                        assert(out0 + (seq![tm] + rest) =~= triggers_view(out@) + rest);
                    } else {
                        assert(triggers_of_vals(suf) is None);
                    }
                }
            },
            None => {
                return None;
            },
        }
        i = i + 1;
    }
    proof {
        let tail = full.subrange(full.len() as int, full.len() as int);
        assert(tail =~= Seq::<ValueModel>::empty());
        assert(triggers_view(out@) + Seq::<TriggerModel>::empty() =~= triggers_view(out@));
    }
    Some(out)
}

/// Read back a list of steps.
fn steps_from_values(cs: &Vec<Value>) -> (r: Option<Vec<WorkflowStep>>)
    ensures
        match r {
            Some(ss) => steps_of_vals(values_model(cs@)) == Some(steps_view(ss@)),
            None => steps_of_vals(values_model(cs@)) is None,
        },
{
    let ghost full = values_model(cs@);
    let mut out: Vec<WorkflowStep> = Vec::new();
    let mut i: usize = 0;
    proof {
        lemma_values_model_index(cs@);
        assert(full.subrange(0, full.len() as int) =~= full);
        assert(steps_view(out@) =~= Seq::<StepModel>::empty());
    }
    while i < cs.len()
        invariant
            i <= cs@.len(),
            full == values_model(cs@),
            full.len() == cs@.len(),
            forall|j: int| 0 <= j < cs@.len() ==> full[j] == value_model(#[trigger] cs@[j]),
            steps_of_vals(full) == (match steps_of_vals(
                full.subrange(i as int, full.len() as int),
            ) {
                Some(rest) => Some(steps_view(out@) + rest),
                None => None::<Seq<StepModel>>,
            }),
        decreases cs@.len() - i,
    {
        let ghost suf = full.subrange(i as int, full.len() as int);
        proof {
            assert(suf[0] == full[i as int]);
            assert(suf.subrange(1, suf.len() as int) =~= full.subrange(
                i as int + 1,
                full.len() as int,
            ));
        }
        match step_from_value(&cs[i]) {
            Some(e) => {
                let ghost em = e@;
                let ghost out0 = steps_view(out@);
                out.push(e);
                proof {
                    assert(steps_view(out@) =~= out0.push(em));
                    let tail = full.subrange(i as int + 1, full.len() as int);
                    if steps_of_vals(tail) is Some {
                        let rest = steps_of_vals(tail)->Some_0;
                        assert(steps_of_vals(suf) == Some(seq![em] + rest));
                        assert(out0 + (seq![em] + rest) =~= steps_view(out@) + rest);
                    } else {
                        assert(steps_of_vals(suf) is None);
                    }
                }
            },
            None => {
                return None;
            },
        }
        i = i + 1;
    }
    proof {
        let tail = full.subrange(full.len() as int, full.len() as int);
        assert(tail =~= Seq::<ValueModel>::empty());
        assert(steps_view(out@) + Seq::<StepModel>::empty() =~= steps_view(out@));
    }
    Some(out)
}

/// Write a workflow to its external representation.
pub fn workflow_to_value(w: &Workflow) -> (r: Value)
    ensures
        r@ == val_of_workflow(w@),
{
    let mut fs: Vec<Value> = Vec::new();
    fs.push(Value::Text(w.id.clone()));
    fs.push(Value::Text(w.name.clone()));
    fs.push(Value::Text(w.description.clone()));
    fs.push(triggers_to_value(&w.triggers));
    fs.push(steps_to_value(&w.steps));
    fs.push(opt_text_to_value(&w.environment_id));
    fs.push(Value::Num(status_to_tag(w.status)));
    fs.push(Value::Num(w.created_at));
    fs.push(Value::Num(w.updated_at));
    fs.push(opt_num_to_value(&w.last_executed));
    fs.push(Value::Num(w.execution_count));
    fs.push(Value::Bit(w.enabled));
    let ghost fv = fs@;
    let r = Value::List(fs);
    proof {
        lemma_values_model_index(fv);
        assert(values_model(fv).len() == 12);
        assert(values_model(fv)[0] == value_model(fv[0]));
        assert(values_model(fv)[1] == value_model(fv[1]));
        assert(values_model(fv)[2] == value_model(fv[2]));
        assert(values_model(fv)[3] == value_model(fv[3]));
        assert(values_model(fv)[4] == value_model(fv[4]));
        assert(values_model(fv)[5] == value_model(fv[5]));
        assert(values_model(fv)[6] == value_model(fv[6]));
        assert(values_model(fv)[7] == value_model(fv[7]));
        assert(values_model(fv)[8] == value_model(fv[8]));
        assert(values_model(fv)[9] == value_model(fv[9]));
        assert(values_model(fv)[10] == value_model(fv[10]));
        assert(values_model(fv)[11] == value_model(fv[11]));
        assert(values_model(fv) =~= val_of_workflow(w@)->List_0);
    }
    r
}

/// Read a workflow back from its external representation.  Decoding
/// what [`workflow_to_value`] wrote returns exactly the written
/// workflow.
pub fn workflow_from_value(v: &Value) -> (r: Option<Workflow>)
    ensures
        match r {
            Some(w) => workflow_of_val(v@) == Some(w@),
            None => workflow_of_val(v@) is None,
        },
{
    match v {
        Value::List(fs) => {
            proof {
                lemma_values_model_index(fs@);
            }
            if fs.len() != 12 {
                return None;
            }
            let id = match &fs[0] {
                Value::Text(s) => s.clone(),
                _ => {
                    return None;
                },
            };
            let name = match &fs[1] {
                Value::Text(s) => s.clone(),
                _ => {
                    return None;
                },
            };
            let description = match &fs[2] {
                Value::Text(s) => s.clone(),
                _ => {
                    return None;
                },
            };
            let triggers = match &fs[3] {
                Value::List(cs) => {
                    match triggers_from_values(cs) {
                        Some(ts) => ts,
                        None => {
                            return None;
                        },
                    }
                },
                _ => {
                    return None;
                },
            };
            let steps = match &fs[4] {
                Value::List(cs) => {
                    match steps_from_values(cs) {
                        Some(ss) => ss,
                        None => {
                            return None;
                        },
                    }
                },
                _ => {
                    return None;
                },
            };
            let environment_id = match opt_text_from_value(&fs[5]) {
                Some(o) => o,
                None => {
                    return None;
                },
            };
            let status = match &fs[6] {
                Value::Num(n) => {
                    match status_from_tag(*n) {
                        Some(t) => t,
                        None => {
                            return None;
                        },
                    }
                },
                _ => {
                    return None;
                },
            };
            let created_at = match &fs[7] {
                Value::Num(n) => *n,
                _ => {
                    return None;
                },
            };
            let updated_at = match &fs[8] {
                Value::Num(n) => *n,
                _ => {
                    return None;
                },
            };
            let last_executed = match opt_num_from_value(&fs[9]) {
                Some(o) => o,
                None => {
                    return None;
                },
            };
            let execution_count = match &fs[10] {
                Value::Num(n) => *n,
                _ => {
                    return None;
                },
            };
            let enabled = match &fs[11] {
                Value::Bit(b) => *b,
                _ => {
                    return None;
                },
            };
            Some(
                Workflow {
                    id,
                    name,
                    description,
                    triggers,
                    steps,
                    environment_id,
                    status,
                    created_at,
                    updated_at,
                    last_executed,
                    execution_count,
                    enabled,
                },
            )
        },
        _ => None,
    }
}


/// An optional exit code, as a list of zero or one signed numbers.
pub open spec fn val_of_opt_int(o: Option<i32>) -> ValueModel {
    match o {
        Some(n) => ValueModel::List(seq![ValueModel::Int(n as i64)]),
        None => ValueModel::List(Seq::empty()),
    }
}

/// Read back an optional exit code.
pub open spec fn opt_int_of_val(v: ValueModel) -> Option<Option<i32>> {
    match v {
        ValueModel::List(fs) => if fs.len() == 0 {
            Some(None)
        } else if fs.len() == 1 {
            match fs[0] {
                ValueModel::Int(n) => if i32::MIN <= n <= i32::MAX {
                    Some(Some(n as i32))
                } else {
                    None
                },
                _ => None,
            }
        } else {
            None
        },
        _ => None,
    }
}

/// A step result, as a value tree: step id, status tag, timestamps,
/// output, error and exit code.
pub open spec fn val_of_result(r: StepResultModel) -> ValueModel {
    ValueModel::List(
        seq![
            ValueModel::Text(r.step_id),
            ValueModel::Num(step_status_tag(r.status)),
            ValueModel::Num(r.started_at),
            val_of_opt_num(r.completed_at),
            val_of_opt_text(r.output),
            val_of_opt_text(r.error_message),
            val_of_opt_int(r.exit_code),
        ],
    )
}

/// Read back a step result.
pub open spec fn result_of_val(v: ValueModel) -> Option<StepResultModel> {
    match v {
        ValueModel::List(fs) => if fs.len() == 7 {
            match (fs[0], fs[1], fs[2]) {
                (ValueModel::Text(step_id), ValueModel::Num(stag), ValueModel::Num(started_at)) => {
                    match (
                        step_status_of_tag(stag),
                        opt_num_of_val(fs[3]),
                        opt_text_of_val(fs[4]),
                        opt_text_of_val(fs[5]),
                        opt_int_of_val(fs[6]),
                    ) {
                        (
                            Some(status),
                            Some(completed_at),
                            Some(output),
                            Some(error_message),
                            Some(exit_code),
                        ) => Some(
                            StepResultModel {
                                step_id,
                                status,
                                started_at,
                                completed_at,
                                output,
                                error_message,
                                exit_code,
                            },
                        ),
                        _ => None,
                    }
                },
                _ => None,
            }
        } else {
            None
        },
        _ => None,
    }
}

/// A written step result is read back unchanged.
pub proof fn lemma_result_round_trip(r: StepResultModel)
    ensures
        result_of_val(val_of_result(r)) == Some(r),
{
}

/// A log entry, as a value tree: timestamp, level, message and step.
pub open spec fn val_of_log(l: LogModel) -> ValueModel {
    ValueModel::List(
        seq![
            ValueModel::Num(l.timestamp),
            ValueModel::Text(l.level),
            ValueModel::Text(l.message),
            val_of_opt_text(l.step_id),
        ],
    )
}

/// Read back a log entry.
pub open spec fn log_of_val(v: ValueModel) -> Option<LogModel> {
    match v {
        ValueModel::List(fs) => if fs.len() == 4 {
            match (fs[0], fs[1], fs[2]) {
                (ValueModel::Num(timestamp), ValueModel::Text(level), ValueModel::Text(message)) => {
                    match opt_text_of_val(fs[3]) {
                        Some(step_id) => Some(LogModel { timestamp, level, message, step_id }),
                        None => None,
                    }
                },
                _ => None,
            }
        } else {
            None
        },
        _ => None,
    }
}

/// A written log entry is read back unchanged.
pub proof fn lemma_log_round_trip(l: LogModel)
    ensures
        log_of_val(val_of_log(l)) == Some(l),
{
}

/// Step results, written one by one.
pub open spec fn vals_of_results(rs: Seq<StepResultModel>) -> Seq<ValueModel>
    decreases rs.len(),
{
    if rs.len() == 0 {
        Seq::empty()
    } else {
        seq![val_of_result(rs[0])] + vals_of_results(rs.subrange(1, rs.len() as int))
    }
}

/// Read back a list of step results.
pub open spec fn results_of_vals(vs: Seq<ValueModel>) -> Option<Seq<StepResultModel>>
    decreases vs.len(),
{
    if vs.len() == 0 {
        Some(Seq::empty())
    } else {
        match result_of_val(vs[0]) {
            Some(r) => {
                match results_of_vals(vs.subrange(1, vs.len() as int)) {
                    Some(rest) => Some(seq![r] + rest),
                    None => None,
                }
            },
            None => None,
        }
    }
}

/// Log entries, written one by one.
pub open spec fn vals_of_logs(ls: Seq<LogModel>) -> Seq<ValueModel>
    decreases ls.len(),
{
    if ls.len() == 0 {
        Seq::empty()
    } else {
        seq![val_of_log(ls[0])] + vals_of_logs(ls.subrange(1, ls.len() as int))
    }
}

/// Read back a list of log entries.
pub open spec fn logs_of_vals(vs: Seq<ValueModel>) -> Option<Seq<LogModel>>
    decreases vs.len(),
{
    if vs.len() == 0 {
        Some(Seq::empty())
    } else {
        match log_of_val(vs[0]) {
            Some(l) => {
                match logs_of_vals(vs.subrange(1, vs.len() as int)) {
                    Some(rest) => Some(seq![l] + rest),
                    None => None,
                }
            },
            None => None,
        }
    }
}

/// Written step results are read back unchanged.
pub proof fn lemma_results_round_trip(rs: Seq<StepResultModel>)
    ensures
        results_of_vals(vals_of_results(rs)) == Some(rs),
    decreases rs.len(),
{
    if rs.len() == 0 {
        assert(results_of_vals(vals_of_results(rs)) == Some(rs));
    } else {
        let rest = rs.subrange(1, rs.len() as int);
        lemma_results_round_trip(rest);
        lemma_result_round_trip(rs[0]);
        let vs = vals_of_results(rs);
        assert(vs.subrange(1, vs.len() as int) =~= vals_of_results(rest));
        assert(seq![rs[0]] + rest =~= rs);
    }
}

/// Written log entries are read back unchanged.
pub proof fn lemma_logs_round_trip(ls: Seq<LogModel>)
    ensures
        logs_of_vals(vals_of_logs(ls)) == Some(ls),
    decreases ls.len(),
{
    if ls.len() == 0 {
        assert(logs_of_vals(vals_of_logs(ls)) == Some(ls));
    } else {
        let rest = ls.subrange(1, ls.len() as int);
        lemma_logs_round_trip(rest);
        lemma_log_round_trip(ls[0]);
        let vs = vals_of_logs(ls);
        assert(vs.subrange(1, vs.len() as int) =~= vals_of_logs(rest));
        assert(seq![ls[0]] + rest =~= ls);
    }
}

/// A run, as a value tree.
pub open spec fn val_of_execution(m: ExecutionModel) -> ValueModel {
    ValueModel::List(
        seq![
            ValueModel::Text(m.id),
            ValueModel::Text(m.workflow_id),
            val_of_opt_text(m.trigger_id),
            ValueModel::Num(status_tag(m.status)),
            ValueModel::Num(m.started_at),
            val_of_opt_num(m.completed_at),
            ValueModel::List(vals_of_results(m.step_results)),
            val_of_opt_text(m.error_message),
            ValueModel::List(vals_of_logs(m.logs)),
        ],
    )
}

/// Read back a run.
pub open spec fn execution_of_val(v: ValueModel) -> Option<ExecutionModel> {
    match v {
        ValueModel::List(fs) => if fs.len() == 9 {
            match (fs[0], fs[1], fs[3], fs[4], fs[6], fs[8]) {
                (
                    ValueModel::Text(id),
                    ValueModel::Text(workflow_id),
                    ValueModel::Num(stag),
                    ValueModel::Num(started_at),
                    ValueModel::List(rvs),
                    ValueModel::List(lvs),
                ) => {
                    match (
                        opt_text_of_val(fs[2]),
                        status_of_tag(stag),
                        opt_num_of_val(fs[5]),
                        results_of_vals(rvs),
                        opt_text_of_val(fs[7]),
                        logs_of_vals(lvs),
                    ) {
                        (
                            Some(trigger_id),
                            Some(status),
                            Some(completed_at),
                            Some(step_results),
                            Some(error_message),
                            Some(logs),
                        ) => Some(
                            ExecutionModel {
                                id,
                                workflow_id,
                                trigger_id,
                                status,
                                started_at,
                                completed_at,
                                step_results,
                                error_message,
                                logs,
                            },
                        ),
                        _ => None,
                    }
                },
                _ => None,
            }
        } else {
            None
        },
        _ => None,
    }
}

/// The law of the run round trip: a run written to its external
/// representation and read back is reproduced exactly — identity,
/// status, timestamps, every step result and every log line.
pub proof fn lemma_execution_round_trip(m: ExecutionModel)
    ensures
        execution_of_val(val_of_execution(m)) == Some(m),
{
    lemma_results_round_trip(m.step_results);
    lemma_logs_round_trip(m.logs);
}


/// Writing one more step result appends one more value.
pub proof fn lemma_vals_of_results_push(rs: Seq<StepResultModel>, r: StepResultModel)
    ensures
        vals_of_results(rs.push(r)) == vals_of_results(rs).push(val_of_result(r)),
    decreases rs.len(),
{
    if rs.len() == 0 {
        assert(rs.push(r)[0] == r);
        assert(rs.push(r).subrange(1, 1) =~= rs);
        assert(vals_of_results(rs.push(r)) =~= vals_of_results(rs).push(val_of_result(r)));
    } else {
        let rest = rs.subrange(1, rs.len() as int);
        lemma_vals_of_results_push(rest, r);
        assert(rs.push(r).subrange(1, rs.push(r).len() as int) =~= rest.push(r));
        assert(vals_of_results(rs.push(r)) =~= vals_of_results(rs).push(val_of_result(r)));
    }
}

/// Writing one more log entry appends one more value.
pub proof fn lemma_vals_of_logs_push(ls: Seq<LogModel>, l: LogModel)
    ensures
        vals_of_logs(ls.push(l)) == vals_of_logs(ls).push(val_of_log(l)),
    decreases ls.len(),
{
    if ls.len() == 0 {
        assert(ls.push(l)[0] == l);
        assert(ls.push(l).subrange(1, 1) =~= ls);
        assert(vals_of_logs(ls.push(l)) =~= vals_of_logs(ls).push(val_of_log(l)));
    } else {
        let rest = ls.subrange(1, ls.len() as int);
        lemma_vals_of_logs_push(rest, l);
        assert(ls.push(l).subrange(1, ls.push(l).len() as int) =~= rest.push(l));
        assert(vals_of_logs(ls.push(l)) =~= vals_of_logs(ls).push(val_of_log(l)));
    }
}

/// Write an optional exit code.
fn opt_int_to_value(o: &Option<i32>) -> (r: Value)
    ensures
        r@ == val_of_opt_int(*o),
{
    match o {
        Some(n) => {
            let mut fs: Vec<Value> = Vec::new();
            fs.push(Value::Int(*n as i64));
            let r = Value::List(fs);
            proof {
                lemma_values_model_index(fs@);
                assert(values_model(fs@) =~= seq![ValueModel::Int(*n as i64)]);
            }
            r
        },
        None => {
            let fs: Vec<Value> = Vec::new();
            let r = Value::List(fs);
            proof {
                assert(values_model(fs@) =~= Seq::<ValueModel>::empty());
            }
            r
        },
    }
}

/// Read back an optional exit code.
fn opt_int_from_value(v: &Value) -> (r: Option<Option<i32>>)
    ensures
        match r {
            Some(o) => opt_int_of_val(v@) == Some(o),
            None => opt_int_of_val(v@) is None,
        },
{
    match v {
        Value::List(fs) => {
            proof {
                lemma_values_model_index(fs@);
            }
            if fs.len() == 0 {
                Some(None)
            } else if fs.len() == 1 {
                match &fs[0] {
                    Value::Int(n) => {
                        if i32::MIN as i64 <= *n && *n <= i32::MAX as i64 {
                            Some(Some(*n as i32))
                        } else {
                            None
                        }
                    },
                    _ => None,
                }
            } else {
                None
            }
        },
        _ => None,
    }
}

/// Write a step result.
pub fn result_to_value(r: &WorkflowStepResult) -> (v: Value)
    ensures
        v@ == val_of_result(r@),
{
    let mut fs: Vec<Value> = Vec::new();
    fs.push(Value::Text(r.step_id.clone()));
    fs.push(Value::Num(step_status_to_tag(r.status)));
    fs.push(Value::Num(r.started_at));
    fs.push(opt_num_to_value(&r.completed_at));
    fs.push(opt_text_to_value(&r.output));
    fs.push(opt_text_to_value(&r.error_message));
    fs.push(opt_int_to_value(&r.exit_code));
    let ghost fv = fs@;
    let v = Value::List(fs);
    proof {
        lemma_values_model_index(fv);
        assert(values_model(fv).len() == 7);
        assert(values_model(fv)[0] == value_model(fv[0]));
        assert(values_model(fv)[1] == value_model(fv[1]));
        assert(values_model(fv)[2] == value_model(fv[2]));
        assert(values_model(fv)[3] == value_model(fv[3]));
        assert(values_model(fv)[4] == value_model(fv[4]));
        assert(values_model(fv)[5] == value_model(fv[5]));
        assert(values_model(fv)[6] == value_model(fv[6]));
        assert(values_model(fv) =~= val_of_result(r@)->List_0);
    }
    v
}

/// Read back a step result.
pub fn result_from_value(v: &Value) -> (r: Option<WorkflowStepResult>)
    ensures
        match r {
            Some(s) => result_of_val(v@) == Some(s@),
            None => result_of_val(v@) is None,
        },
{
    match v {
        Value::List(fs) => {
            proof {
                lemma_values_model_index(fs@);
            }
            if fs.len() != 7 {
                return None;
            }
            let step_id = match &fs[0] {
                Value::Text(s) => s.clone(),
                _ => {
                    return None;
                },
            };
            let status = match &fs[1] {
                Value::Num(n) => {
                    match step_status_from_tag(*n) {
                        Some(t) => t,
                        None => {
                            return None;
                        },
                    }
                },
                _ => {
                    return None;
                },
            };
            let started_at = match &fs[2] {
                Value::Num(n) => *n,
                _ => {
                    return None;
                },
            };
            let completed_at = match opt_num_from_value(&fs[3]) {
                Some(o) => o,
                None => {
                    return None;
                },
            };
            let output = match opt_text_from_value(&fs[4]) {
                Some(o) => o,
                None => {
                    return None;
                },
            };
            let error_message = match opt_text_from_value(&fs[5]) {
                Some(o) => o,
                None => {
                    return None;
                },
            };
            let exit_code = match opt_int_from_value(&fs[6]) {
                Some(o) => o,
                None => {
                    return None;
                },
            };
            Some(
                WorkflowStepResult {
                    step_id,
                    status,
                    started_at,
                    completed_at,
                    output,
                    error_message,
                    exit_code,
                },
            )
        },
        _ => None,
    }
}

/// Write a log entry.
pub fn log_to_value(l: &WorkflowLog) -> (v: Value)
    ensures
        v@ == val_of_log(l@),
{
    let mut fs: Vec<Value> = Vec::new();
    fs.push(Value::Num(l.timestamp));
    fs.push(Value::Text(l.level.clone()));
    fs.push(Value::Text(l.message.clone()));
    fs.push(opt_text_to_value(&l.step_id));
    let ghost fv = fs@;
    let v = Value::List(fs);
    proof {
        lemma_values_model_index(fv);
        assert(values_model(fv).len() == 4);
        assert(values_model(fv)[0] == value_model(fv[0]));
        assert(values_model(fv)[1] == value_model(fv[1]));
        assert(values_model(fv)[2] == value_model(fv[2]));
        assert(values_model(fv)[3] == value_model(fv[3]));
        assert(values_model(fv) =~= val_of_log(l@)->List_0);
    }
    v
}

/// Read back a log entry.
pub fn log_from_value(v: &Value) -> (r: Option<WorkflowLog>)
    ensures
        match r {
            Some(l) => log_of_val(v@) == Some(l@),
            None => log_of_val(v@) is None,
        },
{
    match v {
        Value::List(fs) => {
            proof {
                lemma_values_model_index(fs@);
            }
            if fs.len() != 4 {
                return None;
            }
            let timestamp = match &fs[0] {
                Value::Num(n) => *n,
                _ => {
                    return None;
                },
            };
            let level = match &fs[1] {
                Value::Text(s) => s.clone(),
                _ => {
                    return None;
                },
            };
            let message = match &fs[2] {
                Value::Text(s) => s.clone(),
                _ => {
                    return None;
                },
            };
            let step_id = match opt_text_from_value(&fs[3]) {
                Some(o) => o,
                None => {
                    return None;
                },
            };
            Some(WorkflowLog { timestamp, level, message, step_id })
        },
        _ => None,
    }
}

/// Write a list of step results.
fn results_to_value(rs: &Vec<WorkflowStepResult>) -> (r: Value)
    ensures
        r@ == ValueModel::List(vals_of_results(results_view(rs@))),
{
    let mut out: Vec<Value> = Vec::new();
    let mut i: usize = 0;
    proof {
        assert(results_view(rs@.subrange(0, 0)) =~= Seq::<StepResultModel>::empty());
        assert(values_model(out@) =~= vals_of_results(results_view(rs@.subrange(0, 0))));
    }
    while i < rs.len()
        invariant
            i <= rs@.len(),
            values_model(out@) == vals_of_results(results_view(rs@.subrange(0, i as int))),
        decreases rs@.len() - i,
    {
        let ghost out0 = out@;
        out.push(result_to_value(&rs[i]));
        proof {
            lemma_values_model_push(out0, out@[out@.len() - 1]);
            lemma_vals_of_results_push(results_view(rs@.subrange(0, i as int)), rs@[i as int]@);
            assert(results_view(rs@.subrange(0, i as int + 1)) =~= results_view(
                rs@.subrange(0, i as int),
            ).push(rs@[i as int]@));
        }
        i = i + 1;
    }
    proof {
        assert(rs@.subrange(0, rs@.len() as int) =~= rs@);
    }
    Value::List(out)
}

/// Write a list of log entries.
fn logs_to_value(ls: &Vec<WorkflowLog>) -> (r: Value)
    ensures
        r@ == ValueModel::List(vals_of_logs(logs_view(ls@))),
{
    let mut out: Vec<Value> = Vec::new();
    let mut i: usize = 0;
    proof {
        assert(logs_view(ls@.subrange(0, 0)) =~= Seq::<LogModel>::empty());
        assert(values_model(out@) =~= vals_of_logs(logs_view(ls@.subrange(0, 0))));
    }
    while i < ls.len()
        invariant
            i <= ls@.len(),
            values_model(out@) == vals_of_logs(logs_view(ls@.subrange(0, i as int))),
        decreases ls@.len() - i,
    {
        let ghost out0 = out@;
        out.push(log_to_value(&ls[i]));
        proof {
            lemma_values_model_push(out0, out@[out@.len() - 1]);
            lemma_vals_of_logs_push(logs_view(ls@.subrange(0, i as int)), ls@[i as int]@);
            assert(logs_view(ls@.subrange(0, i as int + 1)) =~= logs_view(
                ls@.subrange(0, i as int),
            ).push(ls@[i as int]@));
        }
        i = i + 1;
    }
    proof {
        assert(ls@.subrange(0, ls@.len() as int) =~= ls@);
    }
    Value::List(out)
}

/// Read back a list of step results.
fn results_from_values(cs: &Vec<Value>) -> (r: Option<Vec<WorkflowStepResult>>)
    ensures
        match r {
            Some(rs) => results_of_vals(values_model(cs@)) == Some(results_view(rs@)),
            None => results_of_vals(values_model(cs@)) is None,
        },
{
    let ghost full = values_model(cs@);
    let mut out: Vec<WorkflowStepResult> = Vec::new();
    let mut i: usize = 0;
    proof {
        lemma_values_model_index(cs@);
        assert(full.subrange(0, full.len() as int) =~= full);
        assert(results_view(out@) =~= Seq::<StepResultModel>::empty());
    }
    while i < cs.len()
        invariant
            i <= cs@.len(),
            full == values_model(cs@),
            full.len() == cs@.len(),
            forall|j: int| 0 <= j < cs@.len() ==> full[j] == value_model(#[trigger] cs@[j]),
            results_of_vals(full) == (match results_of_vals(
                full.subrange(i as int, full.len() as int),
            ) {
                Some(rest) => Some(results_view(out@) + rest),
                None => None::<Seq<StepResultModel>>,
            }),
        decreases cs@.len() - i,
    {
        let ghost suf = full.subrange(i as int, full.len() as int);
        proof {
            assert(suf[0] == full[i as int]);
            assert(suf.subrange(1, suf.len() as int) =~= full.subrange(
                i as int + 1,
                full.len() as int,
            ));
        }
        match result_from_value(&cs[i]) {
            Some(e) => {
                let ghost em = e@;
                let ghost out0 = results_view(out@);
                out.push(e);
                proof {
                    assert(results_view(out@) =~= out0.push(em));
                    let tail = full.subrange(i as int + 1, full.len() as int);
                    if results_of_vals(tail) is Some {
                        let rest = results_of_vals(tail)->Some_0;
                        assert(results_of_vals(suf) == Some(seq![em] + rest));
                        assert(out0 + (seq![em] + rest) =~= results_view(out@) + rest);
                    } else {
                        assert(results_of_vals(suf) is None);
                    }
                }
            },
            None => {
                return None;
            },
        }
        i = i + 1;
    }
    proof {
        let tail = full.subrange(full.len() as int, full.len() as int);
        assert(tail =~= Seq::<ValueModel>::empty());
        assert(results_view(out@) + Seq::<StepResultModel>::empty() =~= results_view(out@));
    }
    Some(out)
}

/// Read back a list of log entries.
fn logs_from_values(cs: &Vec<Value>) -> (r: Option<Vec<WorkflowLog>>)
    ensures
        match r {
            Some(ls) => logs_of_vals(values_model(cs@)) == Some(logs_view(ls@)),
            None => logs_of_vals(values_model(cs@)) is None,
        },
{
    let ghost full = values_model(cs@);
    let mut out: Vec<WorkflowLog> = Vec::new();
    let mut i: usize = 0;
    proof {
        lemma_values_model_index(cs@);
        assert(full.subrange(0, full.len() as int) =~= full);
        assert(logs_view(out@) =~= Seq::<LogModel>::empty());
    }
    while i < cs.len()
        invariant
            i <= cs@.len(),
            full == values_model(cs@),
            full.len() == cs@.len(),
            forall|j: int| 0 <= j < cs@.len() ==> full[j] == value_model(#[trigger] cs@[j]),
            logs_of_vals(full) == (match logs_of_vals(
                full.subrange(i as int, full.len() as int),
            ) {
                Some(rest) => Some(logs_view(out@) + rest),
                None => None::<Seq<LogModel>>,
            }),
        decreases cs@.len() - i,
    {
        let ghost suf = full.subrange(i as int, full.len() as int);
        proof {
            assert(suf[0] == full[i as int]);
            assert(suf.subrange(1, suf.len() as int) =~= full.subrange(
                i as int + 1,
                full.len() as int,
            ));
        }
        match log_from_value(&cs[i]) {
            Some(e) => {
                let ghost em = e@;
                let ghost out0 = logs_view(out@);
                out.push(e);
                proof {
                    assert(logs_view(out@) =~= out0.push(em));
                    let tail = full.subrange(i as int + 1, full.len() as int);
                    if logs_of_vals(tail) is Some {
                        let rest = logs_of_vals(tail)->Some_0;
                        assert(logs_of_vals(suf) == Some(seq![em] + rest));
                        assert(out0 + (seq![em] + rest) =~= logs_view(out@) + rest);
                    } else {
                        assert(logs_of_vals(suf) is None);
                    }
                }
            },
            None => {
                return None;
            },
        }
        i = i + 1;
    }
    proof {
        let tail = full.subrange(full.len() as int, full.len() as int);
        assert(tail =~= Seq::<ValueModel>::empty());
        assert(logs_view(out@) + Seq::<LogModel>::empty() =~= logs_view(out@));
    }
    Some(out)
}

/// Write a run to its external representation.
pub fn execution_to_value(e: &WorkflowExecution) -> (r: Value)
    ensures
        r@ == val_of_execution(e@),
{
    let mut fs: Vec<Value> = Vec::new();
    fs.push(Value::Text(e.id.clone()));
    fs.push(Value::Text(e.workflow_id.clone()));
    fs.push(opt_text_to_value(&e.trigger_id));
    fs.push(Value::Num(status_to_tag(e.status)));
    fs.push(Value::Num(e.started_at));
    fs.push(opt_num_to_value(&e.completed_at));
    fs.push(results_to_value(&e.step_results));
    fs.push(opt_text_to_value(&e.error_message));
    fs.push(logs_to_value(&e.logs));
    let ghost fv = fs@;
    let r = Value::List(fs);
    proof {
        lemma_values_model_index(fv);
        assert(values_model(fv).len() == 9);
        assert(values_model(fv)[0] == value_model(fv[0]));
        assert(values_model(fv)[1] == value_model(fv[1]));
        assert(values_model(fv)[2] == value_model(fv[2]));
        assert(values_model(fv)[3] == value_model(fv[3]));
        assert(values_model(fv)[4] == value_model(fv[4]));
        assert(values_model(fv)[5] == value_model(fv[5]));
        assert(values_model(fv)[6] == value_model(fv[6]));
        assert(values_model(fv)[7] == value_model(fv[7]));
        assert(values_model(fv)[8] == value_model(fv[8]));
        assert(values_model(fv) =~= val_of_execution(e@)->List_0);
    }
    r
}

/// Read a run back from its external representation.  Decoding what
/// [`execution_to_value`] wrote returns exactly the written run.
pub fn execution_from_value(v: &Value) -> (r: Option<WorkflowExecution>)
    ensures
        match r {
            Some(e) => execution_of_val(v@) == Some(e@),
            None => execution_of_val(v@) is None,
        },
{
    match v {
        Value::List(fs) => {
            proof {
                lemma_values_model_index(fs@);
            }
            if fs.len() != 9 {
                return None;
            }
            let id = match &fs[0] {
                Value::Text(s) => s.clone(),
                _ => {
                    return None;
                },
            };
            let workflow_id = match &fs[1] {
                Value::Text(s) => s.clone(),
                _ => {
                    return None;
                },
            };
            let trigger_id = match opt_text_from_value(&fs[2]) {
                Some(o) => o,
                None => {
                    return None;
                },
            };
            let status = match &fs[3] {
                Value::Num(n) => {
                    match status_from_tag(*n) {
                        Some(t) => t,
                        None => {
                            return None;
                        },
                    }
                },
                _ => {
                    return None;
                },
            };
            let started_at = match &fs[4] {
                Value::Num(n) => *n,
                _ => {
                    return None;
                },
            };
            let completed_at = match opt_num_from_value(&fs[5]) {
                Some(o) => o,
                None => {
                    return None;
                },
            };
            let step_results = match &fs[6] {
                Value::List(cs) => {
                    match results_from_values(cs) {
                        Some(rs) => rs,
                        None => {
                            return None;
                        },
                    }
                },
                _ => {
                    return None;
                },
            };
            let error_message = match opt_text_from_value(&fs[7]) {
                Some(o) => o,
                None => {
                    return None;
                },
            };
            let logs = match &fs[8] {
                Value::List(cs) => {
                    match logs_from_values(cs) {
                        Some(ls) => ls,
                        None => {
                            return None;
                        },
                    }
                },
                _ => {
                    return None;
                },
            };
            Some(
                WorkflowExecution {
                    id,
                    workflow_id,
                    trigger_id,
                    status,
                    started_at,
                    completed_at,
                    step_results,
                    error_message,
                    logs,
                },
            )
        },
        _ => None,
    }
}


} // verus!
