use agentic_core::graph::executors::sub_workflow::{child_outcome, SubWorkflowInput, SubWorkflowOutput};
use agentic_core::graph::types::{ExecutorId, TaskId, WorkflowId};
use agentic_core::graph::workflow::WorkflowResult;

fn text(s: &str) -> serde_json::Value {
    serde_json::Value::String(s.to_string())
}

#[test]
fn test_sub_workflow_input() {
    let mut map = serde_json::Map::new();
    map.insert("test".to_string(), text("data"));
    let input = SubWorkflowInput::new(serde_json::Value::Object(map)).with_task_id("task-123");

    assert_eq!(input.task_id, Some("task-123".into()));
    assert_eq!(input.input["test"], "data");
}

#[test]
fn test_sub_workflow_output() {
    let output = SubWorkflowOutput {
        outputs: vec![text("out1"), text("out2")],
        superstep_count: 3,
        duration_ms: 100,
        success: true,
        error: None,
    };

    assert!(output.is_success());
    assert_eq!(output.first_output(), Some(&text("out1")));
    assert_eq!(output.last_output(), Some(&text("out2")));
}

#[test]
fn test_sub_workflow_output_failed() {
    let output = SubWorkflowOutput {
        outputs: vec![],
        superstep_count: 2,
        duration_ms: 50,
        success: false,
        error: Some("Something went wrong".into()),
    };

    assert!(!output.is_success());
    assert!(output.first_output().is_none());
    assert_eq!(output.error, Some("Something went wrong".into()));
}

#[test]
fn output_from_result_keeps_everything() {
    let result = WorkflowResult::success(WorkflowId::new("wf"), TaskId::new("t"), vec![text("x")], 2, 9);
    let output = SubWorkflowOutput::from_result(result);
    assert!(output.success);
    assert_eq!(output.outputs, vec![text("x")]);
    assert_eq!(output.superstep_count, 2);
    assert_eq!(output.duration_ms, 9);
}

#[test]
fn child_outcome_reports_status_or_fails() {
    let id = ExecutorId::new("sub");
    let ok = SubWorkflowOutput { outputs: vec![text("a")], superstep_count: 3, duration_ms: 42, success: true, error: None };
    assert_eq!(child_outcome(&id, true, &ok).unwrap(), "Sub-workflow: COMPLETED (1 outputs, 3 supersteps, 42ms)");
    let failed = SubWorkflowOutput { outputs: vec![], superstep_count: 2, duration_ms: 5, success: false, error: None };
    let err = child_outcome(&id, true, &failed).unwrap_err();
    assert_eq!(err.message, "Sub-workflow failed");
    assert_eq!(err.executor_id.as_str(), "sub");
    assert_eq!(child_outcome(&id, false, &failed).unwrap(), "Sub-workflow: FAILED after 2 supersteps (unknown error)");
}
