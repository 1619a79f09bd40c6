use aidev_core::driver::{DriverPoll, StepDisposition, WorkflowDriver};
use aidev_core::execution::{WorkflowExecution, WorkflowStepResult};
use aidev_core::workflow::{
    Workflow, WorkflowStatus, WorkflowStep, WorkflowStepStatus, WorkflowStepType,
};

#[test]
fn test_workflow_execution() {
    let execution =
        WorkflowExecution::new("workflow-123".to_string(), Some("trigger-456".to_string()));

    assert_eq!(execution.workflow_id, "workflow-123");
    assert_eq!(execution.trigger_id, Some("trigger-456".to_string()));
    assert_eq!(execution.status, WorkflowStatus::Running);
    assert!(execution.completed_at.is_none());
    assert!(execution.step_results.is_empty());
    assert!(execution.logs.is_empty());
    assert!(execution.error_message.is_none());
    assert!(!execution.id.is_empty());

    // Test without trigger
    let manual_execution = WorkflowExecution::new("workflow-123".to_string(), None);
    assert_eq!(manual_execution.trigger_id, None);
}

#[test]
fn test_workflow_execution_management() {
    let mut execution = WorkflowExecution::new("workflow-123".to_string(), None);

    // Add step result
    let step_result = WorkflowStepResult {
        step_id: "step-1".to_string(),
        status: WorkflowStepStatus::Completed,
        started_at: 1_700_000_000_000,
        completed_at: Some(1_700_000_000_250),
        output: Some("Step completed successfully".to_string()),
        error_message: None,
        exit_code: Some(0),
    };

    execution.add_step_result(step_result.clone());
    assert_eq!(execution.step_results.len(), 1);
    assert_eq!(
        execution.get_step_result(&"step-1".to_string()).unwrap().status,
        WorkflowStepStatus::Completed
    );
    assert!(execution.get_step_result(&"non-existent".to_string()).is_none());

    // Add logs
    execution.add_log("info".to_string(), "Starting execution".to_string(), None);
    execution.add_log(
        "debug".to_string(),
        "Step 1 started".to_string(),
        Some("step-1".to_string()),
    );
    execution.add_log(
        "info".to_string(),
        "Step 1 completed".to_string(),
        Some("step-1".to_string()),
    );

    assert_eq!(execution.logs.len(), 3);
    assert_eq!(execution.logs[0].level, "info");
    assert_eq!(execution.logs[0].step_id, None);
    assert_eq!(execution.logs[1].step_id, Some("step-1".to_string()));

    // Complete execution
    execution.complete(WorkflowStatus::Completed, None);
    assert_eq!(execution.status, WorkflowStatus::Completed);
    assert!(execution.completed_at.is_some());
    assert!(execution.error_message.is_none());

    // Test duration calculation
    let duration = execution.duration();
    assert!(duration.is_some());

    // Test failed execution
    let mut failed_execution = WorkflowExecution::new("workflow-456".to_string(), None);
    failed_execution.complete(WorkflowStatus::Failed, Some("Execution failed".to_string()));
    assert_eq!(failed_execution.status, WorkflowStatus::Failed);
    assert_eq!(
        failed_execution.error_message,
        Some("Execution failed".to_string())
    );
}

#[test]
fn test_execution_duration_exact() {
    let mut execution = WorkflowExecution::new("wf".to_string(), None);
    execution.started_at = 1_000;
    execution.completed_at = Some(3_500);
    assert_eq!(execution.duration(), Some(2_500));

    execution.completed_at = None;
    assert_eq!(execution.duration(), None);

    // A clock that ran backwards reports zero
    execution.completed_at = Some(500);
    assert_eq!(execution.duration(), Some(0));
}

#[test]
fn test_retried_step_keeps_every_attempt() {
    let mut execution = WorkflowExecution::new("wf".to_string(), None);
    for exit in [1, 0] {
        execution.add_step_result(WorkflowStepResult {
            step_id: "flaky".to_string(),
            status: if exit == 0 {
                WorkflowStepStatus::Completed
            } else {
                WorkflowStepStatus::Failed
            },
            started_at: 0,
            completed_at: Some(1),
            output: None,
            error_message: None,
            exit_code: Some(exit),
        });
    }
    assert_eq!(execution.step_results.len(), 2);
    // The first attempt is the one a lookup returns
    assert_eq!(
        execution.get_step_result(&"flaky".to_string()).unwrap().status,
        WorkflowStepStatus::Failed
    );
}

fn two_step_workflow() -> (Workflow, String, String) {
    let mut workflow = Workflow::new("Pipeline".to_string(), "build then test".to_string());
    let build = WorkflowStep::new("Build".to_string(), WorkflowStepType::Command)
        .with_command("make".to_string());
    let build_id = build.id.clone();
    let test = WorkflowStep::new("Test".to_string(), WorkflowStepType::Command)
        .with_command("make test".to_string())
        .depends_on_step(build_id.clone());
    let test_id = test.id.clone();
    workflow.add_step(build).unwrap();
    workflow.add_step(test).unwrap();
    (workflow, build_id, test_id)
}

#[test]
fn test_driver_runs_in_dependency_order() {
    let (workflow, build_id, test_id) = two_step_workflow();
    assert!(workflow.validate().is_ok());
    let mut driver = WorkflowDriver::start(workflow, None);

    match driver.poll() {
        DriverPoll::Dispatch(ready) => {
            assert_eq!(ready.len(), 1);
            assert_eq!(ready[0].id, build_id);
        }
        _ => panic!("build should be ready first"),
    }
    let d = driver.record_step_outcome(
        &build_id,
        WorkflowStepStatus::Completed,
        Some("ok".to_string()),
        None,
        Some(0),
    );
    assert_eq!(d, StepDisposition::Proceed);

    match driver.poll() {
        DriverPoll::Dispatch(ready) => {
            assert_eq!(ready.len(), 1);
            assert_eq!(ready[0].id, test_id);
        }
        _ => panic!("test should be ready next"),
    }
    let d = driver.record_step_outcome(
        &test_id,
        WorkflowStepStatus::Completed,
        None,
        None,
        Some(0),
    );
    assert_eq!(d, StepDisposition::Proceed);

    match driver.poll() {
        DriverPoll::Finished => {}
        _ => panic!("all steps are done"),
    }
    driver.finish();
    assert_eq!(driver.execution.status, WorkflowStatus::Completed);
    assert!(driver.execution.completed_at.is_some());
}

#[test]
fn test_driver_continue_on_error_completes_run() {
    // A failing step with continue-on-error must not fail the run: the
    // run ends completed while that step's own result stays failed.
    let mut workflow = Workflow::new("Deploy".to_string(), "tolerant".to_string());
    let a = WorkflowStep::new("A".to_string(), WorkflowStepType::Command)
        .with_command("true".to_string());
    let a_id = a.id.clone();
    let b = WorkflowStep::new("B".to_string(), WorkflowStepType::Command)
        .with_command("true".to_string());
    let b_id = b.id.clone();
    let c = WorkflowStep::new("C".to_string(), WorkflowStepType::Command)
        .with_command("true".to_string());
    let c_id = c.id.clone();
    let flaky = WorkflowStep::new("Flaky".to_string(), WorkflowStepType::Command)
        .with_command("false".to_string())
        .continue_on_error();
    let flaky_id = flaky.id.clone();
    workflow.add_step(a).unwrap();
    workflow.add_step(b).unwrap();
    workflow.add_step(c).unwrap();
    workflow.add_step(flaky).unwrap();

    let mut driver = WorkflowDriver::start(workflow, None);
    for id in [&a_id, &b_id, &c_id] {
        let d = driver.record_step_outcome(
            id,
            WorkflowStepStatus::Completed,
            None,
            None,
            Some(0),
        );
        assert_eq!(d, StepDisposition::Proceed);
    }
    let d = driver.record_step_outcome(
        &flaky_id,
        WorkflowStepStatus::Failed,
        None,
        Some("boom".to_string()),
        Some(1),
    );
    assert_eq!(d, StepDisposition::Proceed);

    match driver.poll() {
        DriverPoll::Finished => {}
        _ => panic!("the failure was tolerated"),
    }
    driver.finish();
    assert_eq!(driver.execution.status, WorkflowStatus::Completed);
    assert_eq!(
        driver
            .execution
            .get_step_result(&flaky_id)
            .unwrap()
            .status,
        WorkflowStepStatus::Failed
    );
    // The tolerated failure was logged
    assert_eq!(driver.execution.logs.len(), 1);
    assert_eq!(driver.execution.logs[0].level, "error");
}

#[test]
fn test_driver_retry_budget_then_abort() {
    let mut workflow = Workflow::new("Retry".to_string(), "retrying".to_string());
    let flaky = WorkflowStep::new("Flaky".to_string(), WorkflowStepType::Command)
        .with_command("false".to_string())
        .with_retry(2);
    let flaky_id = flaky.id.clone();
    workflow.add_step(flaky).unwrap();

    let mut driver = WorkflowDriver::start(workflow, None);
    // Two failures fit in the retry budget
    for _ in 0..2 {
        let d = driver.record_step_outcome(
            &flaky_id,
            WorkflowStepStatus::Failed,
            None,
            None,
            Some(1),
        );
        assert_eq!(d, StepDisposition::Retry);
        assert_eq!(driver.execution.status, WorkflowStatus::Running);
    }
    // The third failure exhausts it and aborts the run
    let d = driver.record_step_outcome(
        &flaky_id,
        WorkflowStepStatus::Failed,
        None,
        None,
        Some(1),
    );
    assert_eq!(d, StepDisposition::Abort);
    assert_eq!(driver.execution.status, WorkflowStatus::Failed);
    assert_eq!(driver.execution.step_results.len(), 3);
    assert!(driver.execution.error_message.is_some());
}

#[test]
fn test_driver_stalls_on_dangling_dependency() {
    let mut workflow = Workflow::new("Broken".to_string(), "dangling".to_string());
    let a = WorkflowStep::new("A".to_string(), WorkflowStepType::Command)
        .with_command("true".to_string())
        .depends_on_step("gone".to_string());
    workflow.add_step(a).unwrap();

    let mut driver = WorkflowDriver::start(workflow, None);
    match driver.poll() {
        DriverPoll::Stalled => {}
        _ => panic!("a dangling dependency can never become ready"),
    }
    driver.abort_stalled();
    assert_eq!(driver.execution.status, WorkflowStatus::Failed);
    assert_eq!(
        driver.execution.error_message,
        Some("no executable steps remain".to_string())
    );
}

#[test]
fn test_driver_cancel() {
    let (workflow, build_id, _) = two_step_workflow();
    let mut driver = WorkflowDriver::start(workflow, None);
    driver.record_step_outcome(&build_id, WorkflowStepStatus::Completed, None, None, Some(0));
    driver.cancel();
    assert_eq!(driver.execution.status, WorkflowStatus::Cancelled);
    assert_eq!(driver.execution.step_results.len(), 1);
}
