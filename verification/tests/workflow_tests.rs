use aidev_core::workflow::{
    Workflow, WorkflowStatus, WorkflowStep, WorkflowStepStatus, WorkflowStepType, WorkflowTrigger,
    WorkflowTriggerType,
};

#[test]
fn test_workflow_trigger_creation() {
    let trigger = WorkflowTrigger::new(WorkflowTriggerType::Manual);
    assert_eq!(trigger.trigger_type, WorkflowTriggerType::Manual);
    assert!(trigger.enabled);
    assert!(trigger.conditions.is_empty());
    assert!(!trigger.id.is_empty());

    // Test with conditions
    let file_trigger = WorkflowTrigger::new(WorkflowTriggerType::FileChange)
        .with_condition("path".to_string(), "src/**/*.rs".to_string())
        .with_condition("action".to_string(), "modified".to_string());

    assert_eq!(file_trigger.conditions.len(), 2);
    assert_eq!(
        file_trigger.conditions.get(&"path".to_string()),
        Some(&"src/**/*.rs".to_string())
    );
    assert_eq!(
        file_trigger.conditions.get(&"action".to_string()),
        Some(&"modified".to_string())
    );
}

#[test]
fn test_workflow_trigger_validation() {
    // Manual trigger should always be valid
    let manual_trigger = WorkflowTrigger::new(WorkflowTriggerType::Manual);
    assert!(manual_trigger.validate().is_ok());

    // FileChange trigger without path should fail
    let invalid_file_trigger = WorkflowTrigger::new(WorkflowTriggerType::FileChange);
    assert!(invalid_file_trigger.validate().is_err());

    // FileChange trigger with path should be valid
    let valid_file_trigger = WorkflowTrigger::new(WorkflowTriggerType::FileChange)
        .with_condition("path".to_string(), "src/**/*.rs".to_string());
    assert!(valid_file_trigger.validate().is_ok());

    // Schedule trigger without cron should fail
    let invalid_schedule_trigger = WorkflowTrigger::new(WorkflowTriggerType::Schedule);
    assert!(invalid_schedule_trigger.validate().is_err());

    // Schedule trigger with cron should be valid
    let valid_schedule_trigger = WorkflowTrigger::new(WorkflowTriggerType::Schedule)
        .with_condition("cron".to_string(), "0 0 * * *".to_string());
    assert!(valid_schedule_trigger.validate().is_ok());

    // Other trigger types should be valid without specific conditions
    let git_trigger = WorkflowTrigger::new(WorkflowTriggerType::GitCommit);
    assert!(git_trigger.validate().is_ok());
}

#[test]
fn test_workflow_step_creation() {
    let step = WorkflowStep::new("Test Step".to_string(), WorkflowStepType::Command);
    assert_eq!(step.name, "Test Step");
    assert_eq!(step.step_type, WorkflowStepType::Command);
    assert_eq!(step.status, WorkflowStepStatus::Pending);
    assert_eq!(step.timeout_seconds, Some(300));
    assert_eq!(step.retry_count, 0);
    assert!(!step.continue_on_error);
    assert!(step.depends_on.is_empty());
    assert!(step.parameters.is_empty());
    assert!(!step.id.is_empty());

    // Test builder pattern
    let complex_step = WorkflowStep::new("Complex Step".to_string(), WorkflowStepType::Script)
        .with_script("/path/to/script.sh".to_string())
        .with_parameter("env".to_string(), "production".to_string())
        .with_parameter("verbose".to_string(), "true".to_string())
        .with_timeout(600)
        .with_retry(3)
        .continue_on_error()
        .depends_on_step("step-1".to_string())
        .depends_on_step("step-2".to_string());

    assert_eq!(complex_step.script_path, Some("/path/to/script.sh".to_string()));
    assert_eq!(complex_step.parameters.len(), 2);
    assert_eq!(
        complex_step.parameters.get(&"env".to_string()),
        Some(&"production".to_string())
    );
    assert_eq!(complex_step.timeout_seconds, Some(600));
    assert_eq!(complex_step.retry_count, 3);
    assert!(complex_step.continue_on_error);
    assert_eq!(complex_step.depends_on.len(), 2);
    assert!(complex_step.depends_on.contains(&"step-1".to_string()));
    assert!(complex_step.depends_on.contains(&"step-2".to_string()));
}

#[test]
fn test_workflow_step_validation() {
    // Command step without command should fail
    let invalid_command_step =
        WorkflowStep::new("Invalid Command".to_string(), WorkflowStepType::Command);
    assert!(invalid_command_step.validate().is_err());

    // Command step with an empty command should fail too
    let empty_command_step =
        WorkflowStep::new("Empty Command".to_string(), WorkflowStepType::Command)
            .with_command("".to_string());
    assert!(empty_command_step.validate().is_err());

    // Setting a non-empty command makes it pass
    let valid_command_step =
        WorkflowStep::new("Valid Command".to_string(), WorkflowStepType::Command)
            .with_command("echo 'hello'".to_string());
    assert!(valid_command_step.validate().is_ok());

    // Script step without script path should fail
    let invalid_script_step =
        WorkflowStep::new("Invalid Script".to_string(), WorkflowStepType::Script);
    assert!(invalid_script_step.validate().is_err());

    // Script step with an empty script path should fail too
    let empty_script_step =
        WorkflowStep::new("Empty Script".to_string(), WorkflowStepType::Script)
            .with_script("".to_string());
    assert!(empty_script_step.validate().is_err());

    // Script step with script path should be valid
    let valid_script_step = WorkflowStep::new("Valid Script".to_string(), WorkflowStepType::Script)
        .with_script("/path/to/script.sh".to_string());
    assert!(valid_script_step.validate().is_ok());

    // Other step types should be valid without specific requirements
    let notification_step =
        WorkflowStep::new("Notification".to_string(), WorkflowStepType::Notification);
    assert!(notification_step.validate().is_ok());
}

#[test]
fn test_workflow_step_execution_readiness() {
    let step1 = WorkflowStep::new("Step 1".to_string(), WorkflowStepType::Command)
        .with_command("echo 'step 1'".to_string());
    let step1_id = step1.id.clone();

    let step2 = WorkflowStep::new("Step 2".to_string(), WorkflowStepType::Command)
        .with_command("echo 'step 2'".to_string())
        .depends_on_step(step1_id.clone());
    let step2_id = step2.id.clone();

    let step3 = WorkflowStep::new("Step 3".to_string(), WorkflowStepType::Command)
        .with_command("echo 'step 3'".to_string())
        .depends_on_step(step1_id.clone())
        .depends_on_step(step2_id.clone());

    // Step 1 should be ready (no dependencies)
    assert!(step1.is_ready_to_execute(&[]));

    // Step 2 should not be ready without step 1 completed
    assert!(!step2.is_ready_to_execute(&[]));
    assert!(step2.is_ready_to_execute(&[step1_id.clone()]));

    // Step 3 should not be ready without both dependencies
    assert!(!step3.is_ready_to_execute(&[]));
    assert!(!step3.is_ready_to_execute(&[step1_id.clone()]));
    assert!(!step3.is_ready_to_execute(&[step2_id.clone()]));
    assert!(step3.is_ready_to_execute(&[step1_id.clone(), step2_id.clone()]));

    // Test with non-pending status
    let mut completed_step = step1.clone();
    completed_step.status = WorkflowStepStatus::Completed;
    assert!(!completed_step.is_ready_to_execute(&[])); // Not pending

    let mut running_step = step1.clone();
    running_step.status = WorkflowStepStatus::Running;
    assert!(!running_step.is_ready_to_execute(&[])); // Not pending
}

#[test]
fn test_workflow_creation() {
    let workflow = Workflow::new("Test Workflow".to_string(), "A test workflow".to_string());
    assert_eq!(workflow.name, "Test Workflow");
    assert_eq!(workflow.description, "A test workflow");
    assert_eq!(workflow.status, WorkflowStatus::Idle);
    assert!(workflow.enabled);
    assert!(workflow.triggers.is_empty());
    assert!(workflow.steps.is_empty());
    assert_eq!(workflow.environment_id, None);
    assert_eq!(workflow.execution_count, 0);
    assert!(workflow.last_executed.is_none());
    assert!(!workflow.id.is_empty());
    assert!(!workflow.can_execute()); // Should be false because no steps
}

#[test]
fn test_workflow_trigger_management() {
    let mut workflow = Workflow::new("Test".to_string(), "Test workflow".to_string());

    let trigger1 = WorkflowTrigger::new(WorkflowTriggerType::Manual);
    let trigger1_id = trigger1.id.clone();

    let trigger2 = WorkflowTrigger::new(WorkflowTriggerType::FileChange)
        .with_condition("path".to_string(), "src/**/*.rs".to_string());
    let trigger2_id = trigger2.id.clone();

    // Add triggers
    workflow.add_trigger(trigger1).unwrap();
    workflow.add_trigger(trigger2).unwrap();

    assert_eq!(workflow.triggers.len(), 2);
    assert!(workflow.get_trigger(&trigger1_id).is_some());
    assert!(workflow.get_trigger(&trigger2_id).is_some());

    // Remove trigger
    workflow.remove_trigger(&trigger1_id);
    assert_eq!(workflow.triggers.len(), 1);
    assert!(workflow.get_trigger(&trigger1_id).is_none());
    assert!(workflow.get_trigger(&trigger2_id).is_some());

    // Try to add invalid trigger
    let invalid_trigger = WorkflowTrigger::new(WorkflowTriggerType::FileChange); // Missing path condition
    assert!(workflow.add_trigger(invalid_trigger).is_err());
    assert_eq!(workflow.triggers.len(), 1); // Should remain unchanged
}

#[test]
fn test_workflow_step_management() {
    let mut workflow = Workflow::new("Test".to_string(), "Test workflow".to_string());

    let step1 = WorkflowStep::new("Step 1".to_string(), WorkflowStepType::Command)
        .with_command("echo 'step 1'".to_string());
    let step1_id = step1.id.clone();

    let step2 = WorkflowStep::new("Step 2".to_string(), WorkflowStepType::Command)
        .with_command("echo 'step 2'".to_string())
        .depends_on_step(step1_id.clone());
    let step2_id = step2.id.clone();

    // Add steps
    workflow.add_step(step1).unwrap();
    workflow.add_step(step2).unwrap();

    assert_eq!(workflow.steps.len(), 2);
    assert!(workflow.get_step(&step1_id).is_some());
    assert!(workflow.get_step(&step2_id).is_some());

    // Test getting executable steps
    let executable = workflow.get_executable_steps(&[]);
    assert_eq!(executable.len(), 1); // Only step1 should be executable
    assert_eq!(executable[0].id, step1_id);

    let executable_after_step1 = workflow.get_executable_steps(&[step1_id.clone()]);
    assert_eq!(executable_after_step1.len(), 1); // Now step2 should be executable
    assert_eq!(executable_after_step1[0].id, step2_id);

    // Test direct status update
    assert!(workflow.set_step_status(&step1_id, WorkflowStepStatus::Completed));
    assert_eq!(
        workflow.get_step(&step1_id).unwrap().status,
        WorkflowStepStatus::Completed
    );

    // Remove step (should also remove dependencies)
    workflow.remove_step(&step1_id);
    assert_eq!(workflow.steps.len(), 1);
    assert!(workflow.get_step(&step1_id).is_none());

    // Check that step2's dependency was removed
    let step2 = workflow.get_step(&step2_id).unwrap();
    assert!(step2.depends_on.is_empty());

    // Try to add invalid step
    let invalid_step = WorkflowStep::new("Invalid".to_string(), WorkflowStepType::Command); // Missing command
    assert!(workflow.add_step(invalid_step).is_err());
    assert_eq!(workflow.steps.len(), 1); // Should remain unchanged
}

#[test]
fn test_workflow_validation() {
    let mut workflow = Workflow::new("Test".to_string(), "Test".to_string());

    // Empty workflow should fail validation (no steps)
    assert!(workflow.validate().is_err());

    // Workflow with empty name should fail
    workflow.name = "".to_string();
    let step = WorkflowStep::new("Test Step".to_string(), WorkflowStepType::Command)
        .with_command("echo 'test'".to_string());
    workflow.add_step(step).unwrap();
    assert!(workflow.validate().is_err());

    // A whitespace-only name is as bad as an empty one
    workflow.name = "   ".to_string();
    assert!(workflow.validate().is_err());

    // Fix name and it should be valid
    workflow.name = "Valid Name".to_string();
    assert!(workflow.validate().is_ok());

    // Add invalid trigger
    let invalid_trigger = WorkflowTrigger::new(WorkflowTriggerType::FileChange); // Missing path
    workflow.triggers.push(invalid_trigger);
    assert!(workflow.validate().is_err());

    // Remove invalid trigger and add valid one
    workflow.triggers.clear();
    let valid_trigger = WorkflowTrigger::new(WorkflowTriggerType::Manual);
    workflow.add_trigger(valid_trigger).unwrap();
    assert!(workflow.validate().is_ok());

    // Add invalid step
    let invalid_step = WorkflowStep {
        id: "invalid".to_string(),
        name: "Invalid Step".to_string(),
        step_type: WorkflowStepType::Command,
        command: None, // Missing command
        script_path: None,
        parameters: aidev_core::strmap::StringMap::new(),
        timeout_seconds: Some(300),
        retry_count: 0,
        continue_on_error: false,
        depends_on: Vec::new(),
        status: WorkflowStepStatus::Pending,
    };
    workflow.steps.push(invalid_step);
    assert!(workflow.validate().is_err());
}

#[test]
fn test_circular_dependency_detection() {
    let mut workflow = Workflow::new("Test".to_string(), "Test".to_string());

    let step1 = WorkflowStep::new("Step 1".to_string(), WorkflowStepType::Command)
        .with_command("echo '1'".to_string());
    let step1_id = step1.id.clone();

    let step2 = WorkflowStep::new("Step 2".to_string(), WorkflowStepType::Command)
        .with_command("echo '2'".to_string())
        .depends_on_step(step1_id.clone());
    let step2_id = step2.id.clone();

    let step3 = WorkflowStep::new("Step 3".to_string(), WorkflowStepType::Command)
        .with_command("echo '3'".to_string())
        .depends_on_step(step2_id.clone());
    let step3_id = step3.id.clone();

    workflow.add_step(step1).unwrap();
    workflow.add_step(step2).unwrap();
    workflow.add_step(step3).unwrap();

    // Valid linear dependency chain
    assert!(workflow.validate().is_ok());

    // Create circular dependency: step1 -> step2 -> step3 -> step1
    assert!(workflow.add_step_dependency(&step1_id, step3_id));

    // Should now fail validation
    assert!(workflow.validate().is_err());

    // Test direct circular dependency: step1 -> step2 -> step1
    workflow.steps.clear();
    let step1 = WorkflowStep::new("Step 1".to_string(), WorkflowStepType::Command)
        .with_command("echo '1'".to_string());
    let step1_id = step1.id.clone();

    let step2 = WorkflowStep::new("Step 2".to_string(), WorkflowStepType::Command)
        .with_command("echo '2'".to_string())
        .depends_on_step(step1_id.clone());
    let step2_id = step2.id.clone();

    workflow.add_step(step1).unwrap();
    workflow.add_step(step2).unwrap();

    // Valid so far
    assert!(workflow.validate().is_ok());

    // Create direct circular dependency
    assert!(workflow.add_step_dependency(&step1_id, step2_id));

    // Should fail validation
    assert!(workflow.validate().is_err());
}

#[test]
fn test_workflow_utility_methods() {
    let mut workflow = Workflow::new("Test".to_string(), "Test workflow".to_string());

    // Test environment setting
    workflow.set_environment("env-123".to_string());
    assert_eq!(workflow.environment_id, Some("env-123".to_string()));

    // Test enable/disable
    assert!(workflow.is_enabled());
    workflow.disable();
    assert!(!workflow.is_enabled());
    workflow.enable();
    assert!(workflow.is_enabled());

    // Test can_execute
    assert!(!workflow.can_execute()); // No steps

    let step = WorkflowStep::new("Test Step".to_string(), WorkflowStepType::Command)
        .with_command("echo 'test'".to_string());
    workflow.add_step(step).unwrap();
    assert!(workflow.can_execute()); // Has steps and is enabled

    workflow.disable();
    assert!(!workflow.can_execute()); // Disabled

    workflow.enable();
    workflow.status = WorkflowStatus::Running;
    assert!(!workflow.can_execute()); // Not idle
}

#[test]
fn test_cycle_error_names_first_origin() {
    let mut workflow = Workflow::new("Pipeline".to_string(), "cycle reporting".to_string());
    let build = WorkflowStep::new("Build".to_string(), WorkflowStepType::Command)
        .with_command("make".to_string());
    let build_id = build.id.clone();
    let test = WorkflowStep::new("Test".to_string(), WorkflowStepType::Command)
        .with_command("make test".to_string())
        .depends_on_step(build_id.clone());
    let test_id = test.id.clone();
    workflow.add_step(build).unwrap();
    workflow.add_step(test).unwrap();
    assert!(workflow.add_step_dependency(&build_id, test_id));

    let err = workflow.validate().unwrap_err();
    let message = match err {
        aidev_core::errors::WorkflowError::ValidationFailed(m) => m,
        _ => panic!("expected a validation failure"),
    };
    assert_eq!(
        message,
        "Circular dependency detected involving step 'Build'".to_string()
    );
}

#[test]
fn test_remove_step_is_idempotent() {
    let mut workflow = Workflow::new("Test".to_string(), "removal".to_string());
    let step = WorkflowStep::new("Only".to_string(), WorkflowStepType::Command)
        .with_command("true".to_string());
    let step_id = step.id.clone();
    workflow.add_step(step).unwrap();

    // Removing an id that names no step changes nothing
    workflow.remove_step(&"missing".to_string());
    assert_eq!(workflow.steps.len(), 1);

    // Removing twice raises nothing and settles at the same state
    workflow.remove_step(&step_id);
    assert_eq!(workflow.steps.len(), 0);
    workflow.remove_step(&step_id);
    assert_eq!(workflow.steps.len(), 0);
}
