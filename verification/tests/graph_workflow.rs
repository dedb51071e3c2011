use agentic_core::graph::superstep::SuperstepState;
use agentic_core::graph::types::{ExecutorError, ExecutorId, GraphError, TaskId, WorkflowId};
use agentic_core::graph::workflow::{deliver, AfterStep, LoopStep, WorkflowConfig, WorkflowResult};

#[test]
fn test_workflow_config() {
    let config = WorkflowConfig::new()
        .with_max_supersteps(50)
        .with_max_retries(5)
        .with_checkpointing(true)
        .with_checkpoint_interval(10);

    assert_eq!(config.max_supersteps, 50);
    assert_eq!(config.max_retries_per_executor, 5);
    assert!(config.enable_checkpointing);
    assert_eq!(config.checkpoint_interval, 10);
}

#[test]
fn test_workflow_result() {
    let result: WorkflowResult<String> = WorkflowResult::success(
        WorkflowId::new("wf-1"),
        TaskId::new("task-1"),
        vec!["output1".into(), "output2".into()],
        5,
        100,
    );

    assert!(result.success);
    assert_eq!(result.outputs.len(), 2);
    assert_eq!(result.superstep_count, 5);
    assert_eq!(result.duration_ms, 100);

    let failed: WorkflowResult<String> =
        WorkflowResult::failure(WorkflowId::new("wf-2"), TaskId::new("task-2"), "Test error", 3, 50);

    assert!(!failed.success);
    assert!(failed.outputs.is_empty());
    assert_eq!(failed.error, Some("Test error".into()));
}

#[test]
fn backoff_doubles_then_caps() {
    let config = WorkflowConfig::new().with_retry_backoff(1000, 30_000);
    assert_eq!(config.backoff_delay_ms(0), 1000);
    assert_eq!(config.backoff_delay_ms(1), 2000);
    assert_eq!(config.backoff_delay_ms(4), 16_000);
    assert_eq!(config.backoff_delay_ms(5), 30_000);
    assert_eq!(config.calculate_backoff(3), std::time::Duration::from_millis(8000));
    let huge = WorkflowConfig::new().with_retry_backoff(u64::MAX / 2, u64::MAX);
    assert_eq!(huge.backoff_delay_ms(40), u64::MAX);
    let unbounded = WorkflowConfig::new().with_retry_backoff(1, u64::MAX);
    assert_eq!(unbounded.backoff_delay_ms(40), 1u64 << 40);
    assert_eq!(unbounded.backoff_delay_ms(64), u64::MAX);
}

#[test]
fn checkpoints_every_interval_after_the_first_superstep() {
    let config = WorkflowConfig::new().with_checkpointing(true).with_checkpoint_interval(5);
    assert!(!config.should_checkpoint(0));
    assert!(!config.should_checkpoint(4));
    assert!(config.should_checkpoint(5));
    assert!(config.should_checkpoint(10));
    assert!(!WorkflowConfig::new().should_checkpoint(5));
}

#[test]
fn next_step_checks_limit_then_pending_messages() {
    let config = WorkflowConfig::new().with_max_supersteps(3);
    let mut state = SuperstepState::new();
    assert!(matches!(config.next_step(0, &state), LoopStep::Complete(0)));
    state.enqueue_message(ExecutorId::new("start"), serde_json::Value::Bool(true));
    assert!(matches!(config.next_step(2, &state), LoopStep::Execute(2)));
    match config.next_step(3, &state) {
        LoopStep::Exhausted(message, count) => {
            assert_eq!(message, "Max supersteps (3) exceeded");
            assert_eq!(count, 3);
        }
        other => panic!("unexpected step {:?}", other),
    }
}

#[test]
fn after_superstep_collects_outputs_or_fails() {
    let config = WorkflowConfig::new().with_checkpointing(true).with_checkpoint_interval(2);
    let mut outputs = vec![1u32];
    let step = config.after_superstep(2, Ok(vec![2, 3]), &mut outputs);
    assert!(matches!(step, AfterStep::Continue(true)));
    assert_eq!(outputs, vec![1, 2, 3]);
    let step = config.after_superstep(3, Ok(vec![]), &mut outputs);
    assert!(matches!(step, AfterStep::Continue(false)));
    match config.after_superstep(4, Err(GraphError::ExecutorNotFound(ExecutorId::new("ghost"))), &mut outputs) {
        AfterStep::Fail(message, count) => {
            assert_eq!(message, "Executor not found: ghost");
            assert_eq!(count, 4);
        }
        other => panic!("unexpected step {:?}", other),
    }
    assert_eq!(outputs, vec![1, 2, 3]);
}

#[test]
fn executor_failure_counts_retries_until_the_limit() {
    let config = WorkflowConfig::new().with_max_retries(2);
    let mut counts: Vec<(ExecutorId, u32)> = Vec::new();
    let error = ExecutorError::new("gen", "boom");
    match config.executor_failure(&mut counts, &ExecutorId::new("gen"), &error) {
        GraphError::ExecutorFailed(message) => assert_eq!(message, "Executor gen failed: [gen] boom"),
        other => panic!("unexpected error {:?}", other),
    }
    assert_eq!(counts.len(), 1);
    assert_eq!(counts[0].1, 1);
    match config.executor_failure(&mut counts, &ExecutorId::new("gen"), &error) {
        GraphError::MaxRetriesExceeded(id) => assert_eq!(id.as_str(), "gen"),
        other => panic!("unexpected error {:?}", other),
    }
    assert_eq!(counts[0].1, 2);
}

#[test]
fn deliver_enqueues_for_every_target() {
    let mut state = SuperstepState::new();
    let targets = vec![ExecutorId::new("a"), ExecutorId::new("b"), ExecutorId::new("a")];
    deliver(&mut state, targets, &serde_json::Value::from(7u64));
    assert_eq!(state.pending_message_count(), 3);
    assert_eq!(state.active_executors().len(), 2);
}

#[test]
fn backoff_follows_documented_formula() {
    let c = WorkflowConfig::new().with_retry_backoff(1, u64::MAX);
    assert_eq!(c.calculate_backoff(20), std::time::Duration::from_millis(1 << 20));
    let c0 = WorkflowConfig::new();
    assert_eq!(c0.calculate_backoff(0), std::time::Duration::from_millis(1000));
    assert_eq!(c0.calculate_backoff(3), std::time::Duration::from_millis(8000));
    assert_eq!(c0.calculate_backoff(5), std::time::Duration::from_millis(30000));
    assert_eq!(c0.calculate_backoff(u32::MAX), std::time::Duration::from_millis(30000));
    assert_eq!(WorkflowConfig::new().with_retry_backoff(0, 10).backoff_delay_ms(u32::MAX), 0);
}

#[test]
fn persistent_checkpoints_follow_the_interval_alone() {
    let c = agentic_core::graph::workflow::WorkflowConfig::new();
    assert!(c.should_persist(5, true));
    assert!(!c.should_persist(5, false));
    assert!(!c.should_persist(0, true));
    assert!(!c.should_persist(4, true));
    assert!(!c.should_checkpoint(5));
}
