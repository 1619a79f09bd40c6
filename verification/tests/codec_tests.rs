use aidev_core::codec::{
    execution_from_value, execution_to_value, status_from_tag, status_to_tag,
    step_status_from_tag, step_status_to_tag, step_type_from_tag, step_type_to_tag,
    trigger_from_value, trigger_type_from_tag, trigger_type_to_tag, workflow_from_value,
    workflow_to_value, Value,
};
use aidev_core::execution::{WorkflowExecution, WorkflowStepResult};
use aidev_core::workflow::{
    Workflow, WorkflowStatus, WorkflowStep, WorkflowStepStatus, WorkflowStepType, WorkflowTrigger,
    WorkflowTriggerType,
};

#[test]
fn test_workflow_trigger_type_serialization() {
    let types = vec![
        WorkflowTriggerType::Manual,
        WorkflowTriggerType::FileChange,
        WorkflowTriggerType::Schedule,
        WorkflowTriggerType::EnvironmentActivation,
        WorkflowTriggerType::GitCommit,
        WorkflowTriggerType::BuildComplete,
        WorkflowTriggerType::TestComplete,
    ];

    for trigger_type in types {
        let tag = trigger_type_to_tag(trigger_type);
        let deserialized = trigger_type_from_tag(tag).unwrap();
        assert_eq!(trigger_type, deserialized);
    }
    assert!(trigger_type_from_tag(7).is_none());
}

#[test]
fn test_workflow_step_type_serialization() {
    let types = vec![
        WorkflowStepType::Command,
        WorkflowStepType::Script,
        WorkflowStepType::AIAnalysis,
        WorkflowStepType::Notification,
        WorkflowStepType::FileOperation,
        WorkflowStepType::EnvironmentSetup,
    ];

    for step_type in types {
        let tag = step_type_to_tag(step_type);
        let deserialized = step_type_from_tag(tag).unwrap();
        assert_eq!(step_type, deserialized);
    }
    assert!(step_type_from_tag(6).is_none());
}

#[test]
fn test_workflow_status_serialization() {
    let statuses = vec![
        WorkflowStatus::Idle,
        WorkflowStatus::Running,
        WorkflowStatus::Completed,
        WorkflowStatus::Failed,
        WorkflowStatus::Cancelled,
        WorkflowStatus::Paused,
    ];

    for status in statuses {
        let tag = status_to_tag(status);
        let deserialized = status_from_tag(tag).unwrap();
        assert_eq!(status, deserialized);
    }
    assert!(status_from_tag(6).is_none());
}

#[test]
fn test_workflow_step_status_serialization() {
    let statuses = vec![
        WorkflowStepStatus::Pending,
        WorkflowStepStatus::Running,
        WorkflowStepStatus::Completed,
        WorkflowStepStatus::Failed,
        WorkflowStepStatus::Skipped,
    ];

    for status in statuses {
        let tag = step_status_to_tag(status);
        let deserialized = step_status_from_tag(tag).unwrap();
        assert_eq!(status, deserialized);
    }
    assert!(step_status_from_tag(5).is_none());
}

#[test]
fn test_complex_workflow_serialization() {
    let mut workflow = Workflow::new(
        "Complex Workflow".to_string(),
        "A complex test workflow".to_string(),
    );

    // Add triggers
    let manual_trigger = WorkflowTrigger::new(WorkflowTriggerType::Manual);
    let file_trigger = WorkflowTrigger::new(WorkflowTriggerType::FileChange)
        .with_condition("path".to_string(), "src/**/*.rs".to_string())
        .with_condition("action".to_string(), "modified".to_string());

    workflow.add_trigger(manual_trigger).unwrap();
    workflow.add_trigger(file_trigger).unwrap();

    // Add steps with dependencies
    let step1 = WorkflowStep::new("Build".to_string(), WorkflowStepType::Command)
        .with_command("cargo build".to_string())
        .with_timeout(600)
        .with_retry(2);
    let step1_id = step1.id.clone();

    let step2 = WorkflowStep::new("Test".to_string(), WorkflowStepType::Command)
        .with_command("cargo test".to_string())
        .depends_on_step(step1_id.clone())
        .with_parameter("verbose".to_string(), "true".to_string());

    let step3 = WorkflowStep::new("Deploy".to_string(), WorkflowStepType::Script)
        .with_script("/scripts/deploy.sh".to_string())
        .depends_on_step(step1_id.clone())
        .with_parameter("environment".to_string(), "staging".to_string())
        .continue_on_error();

    workflow.add_step(step1).unwrap();
    workflow.add_step(step2).unwrap();
    workflow.add_step(step3).unwrap();

    workflow.set_environment("env-123".to_string());

    // Round trip through the external representation
    let value = workflow_to_value(&workflow);
    let deserialized = workflow_from_value(&value).unwrap();

    assert_eq!(workflow.id, deserialized.id);
    assert_eq!(workflow.name, deserialized.name);
    assert_eq!(workflow.description, deserialized.description);
    assert_eq!(workflow.triggers.len(), deserialized.triggers.len());
    assert_eq!(workflow.steps.len(), deserialized.steps.len());
    assert_eq!(workflow.environment_id, deserialized.environment_id);
    assert_eq!(workflow.status, deserialized.status);
    assert_eq!(workflow.enabled, deserialized.enabled);
    assert_eq!(workflow.created_at, deserialized.created_at);
    assert_eq!(workflow.updated_at, deserialized.updated_at);
    assert_eq!(workflow.execution_count, deserialized.execution_count);

    // Verify trigger details
    let original_file_trigger = workflow
        .triggers
        .iter()
        .find(|t| t.trigger_type == WorkflowTriggerType::FileChange)
        .unwrap();
    let deserialized_file_trigger = deserialized
        .triggers
        .iter()
        .find(|t| t.trigger_type == WorkflowTriggerType::FileChange)
        .unwrap();
    assert_eq!(
        original_file_trigger.conditions.get(&"path".to_string()),
        deserialized_file_trigger.conditions.get(&"path".to_string())
    );
    assert_eq!(
        original_file_trigger.conditions.get(&"action".to_string()),
        deserialized_file_trigger.conditions.get(&"action".to_string())
    );

    // Verify step details
    let original_build_step = workflow.steps.iter().find(|s| s.name == "Build").unwrap();
    let deserialized_build_step = deserialized.steps.iter().find(|s| s.name == "Build").unwrap();
    assert_eq!(original_build_step.command, deserialized_build_step.command);
    assert_eq!(
        original_build_step.timeout_seconds,
        deserialized_build_step.timeout_seconds
    );
    assert_eq!(
        original_build_step.retry_count,
        deserialized_build_step.retry_count
    );

    let original_deploy_step = workflow.steps.iter().find(|s| s.name == "Deploy").unwrap();
    let deserialized_deploy_step =
        deserialized.steps.iter().find(|s| s.name == "Deploy").unwrap();
    assert_eq!(
        original_deploy_step.script_path,
        deserialized_deploy_step.script_path
    );
    assert_eq!(
        original_deploy_step.parameters.get(&"environment".to_string()),
        deserialized_deploy_step.parameters.get(&"environment".to_string())
    );
    assert_eq!(
        original_deploy_step.continue_on_error,
        deserialized_deploy_step.continue_on_error
    );
    assert_eq!(
        original_deploy_step.depends_on,
        deserialized_deploy_step.depends_on
    );
}

#[test]
fn test_execution_serialization_round_trip() {
    let mut execution =
        WorkflowExecution::new("workflow-9".to_string(), Some("trigger-2".to_string()));
    execution.add_step_result(WorkflowStepResult {
        step_id: "step-1".to_string(),
        status: WorkflowStepStatus::Failed,
        started_at: 10,
        completed_at: Some(40),
        output: Some("partial".to_string()),
        error_message: Some("exit 3".to_string()),
        exit_code: Some(-3),
    });
    execution.add_log("info".to_string(), "starting".to_string(), None);
    execution.add_log(
        "error".to_string(),
        "step failed".to_string(),
        Some("step-1".to_string()),
    );
    execution.complete(WorkflowStatus::Failed, Some("step-1 failed".to_string()));

    let value = execution_to_value(&execution);
    let read_back = execution_from_value(&value).unwrap();

    assert_eq!(execution.id, read_back.id);
    assert_eq!(execution.workflow_id, read_back.workflow_id);
    assert_eq!(execution.trigger_id, read_back.trigger_id);
    assert_eq!(execution.status, read_back.status);
    assert_eq!(execution.started_at, read_back.started_at);
    assert_eq!(execution.completed_at, read_back.completed_at);
    assert_eq!(execution.error_message, read_back.error_message);
    assert_eq!(execution.step_results.len(), read_back.step_results.len());
    assert_eq!(read_back.step_results[0].step_id, "step-1");
    assert_eq!(read_back.step_results[0].exit_code, Some(-3));
    assert_eq!(read_back.step_results[0].output, Some("partial".to_string()));
    assert_eq!(execution.logs.len(), read_back.logs.len());
    assert_eq!(read_back.logs[1].level, "error");
    assert_eq!(read_back.logs[1].step_id, Some("step-1".to_string()));
}

#[test]
fn test_malformed_values_are_rejected() {
    // A workflow is a twelve-field list; anything else reads as nothing
    assert!(workflow_from_value(&Value::Bit(true)).is_none());
    assert!(workflow_from_value(&Value::List(Vec::new())).is_none());
    assert!(trigger_from_value(&Value::Num(3)).is_none());

    // A trigger needs its four fields in shape
    let bad = Value::List(vec![
        Value::Text("id-1".to_string()),
        Value::Num(99), // no trigger type carries this tag
        Value::List(Vec::new()),
        Value::Bit(true),
    ]);
    assert!(trigger_from_value(&bad).is_none());
}
