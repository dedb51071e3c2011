use agentic_core::graph::superstep::{Checkpoint, ExecutorSuperstepResult, InMemoryCheckpointBackend, SuperstepState};
use agentic_core::graph::types::{ExecutorId, TaskId, WorkflowId};

fn object(key: &str, value: serde_json::Value) -> serde_json::Value {
    let mut map = serde_json::Map::new();
    map.insert(key.to_string(), value);
    serde_json::Value::Object(map)
}

fn text(key: &str, value: &str) -> serde_json::Value {
    object(key, serde_json::Value::String(value.to_string()))
}

fn number(key: &str, value: u64) -> serde_json::Value {
    object(key, serde_json::Value::from(value))
}

#[test]
fn test_superstep_state_new() {
    let state = SuperstepState::new();
    assert!(!state.has_pending_messages());
    assert_eq!(state.pending_message_count(), 0);
    assert!(state.active_executors().is_empty());
}

#[test]
fn test_superstep_state_enqueue_message() {
    let mut state = SuperstepState::new();

    state.enqueue_message(ExecutorId::new("executor-1"), text("data", "test1"));
    state.enqueue_message(ExecutorId::new("executor-1"), text("data", "test2"));
    state.enqueue_message(ExecutorId::new("executor-2"), text("data", "test3"));

    assert!(state.has_pending_messages());
    assert_eq!(state.pending_message_count(), 3);
    assert_eq!(state.active_executors().len(), 2);
}

#[test]
fn test_superstep_state_completion() {
    let mut state = SuperstepState::new();

    state.mark_completed(ExecutorId::new("exec-1"));
    state.mark_completed(ExecutorId::new("exec-2"));
    state.mark_completed(ExecutorId::new("exec-1")); // Duplicate

    assert_eq!(state.completed_executors.len(), 2);
}

#[test]
fn test_superstep_state_failures() {
    let mut state = SuperstepState::new();

    state.mark_failed(ExecutorId::new("exec-1"), "Error 1".into());
    state.mark_failed(ExecutorId::new("exec-2"), "Error 2".into());

    assert!(state.has_failures());
    assert_eq!(state.failed_executors.len(), 2);
}

#[test]
fn test_superstep_state_clear() {
    let mut state = SuperstepState::new();

    state.enqueue_message(ExecutorId::new("exec-1"), number("x", 1));
    state.mark_completed(ExecutorId::new("exec-1"));
    state.mark_failed(ExecutorId::new("exec-2"), "Error".into());

    state.clear_for_next_superstep();

    assert!(state.completed_executors.is_empty());
    assert!(state.failed_executors.is_empty());
    // Messages should remain (they're consumed during execution)
    assert!(state.has_pending_messages());
}

#[test]
fn test_enqueue_keeps_first_arrival_order_and_queues_in_order() {
    let mut state = SuperstepState::new();
    state.enqueue_message(ExecutorId::new("b"), number("n", 1));
    state.enqueue_message(ExecutorId::new("a"), number("n", 2));
    state.enqueue_message(ExecutorId::new("b"), number("n", 3));

    let active: Vec<&str> = state.active_executors().iter().map(|id| id.as_str()).collect();
    assert_eq!(active, vec!["b", "a"]);
    assert_eq!(state.pending_messages[0].1, vec![number("n", 1), number("n", 3)]);
    assert_eq!(state.pending_messages[1].1, vec![number("n", 2)]);
}

#[test]
fn test_mark_failed_twice_keeps_latest_error() {
    let mut state = SuperstepState::new();
    state.mark_failed(ExecutorId::new("exec-1"), "first".into());
    state.mark_failed(ExecutorId::new("exec-2"), "other".into());
    state.mark_failed(ExecutorId::new("exec-1"), "second".into());

    assert_eq!(state.failed_executors.len(), 2);
    assert_eq!(state.failed_executors[0].0.as_str(), "exec-1");
    assert_eq!(state.failed_executors[0].1, "second");
    assert_eq!(state.failed_executors[1].1, "other");
}

#[test]
fn test_checkpoint_creation() {
    let checkpoint = Checkpoint::new(WorkflowId::new("wf-1"), TaskId::new("task-1"), 5, SuperstepState::new());

    assert_eq!(checkpoint.workflow_id.as_str(), "wf-1");
    assert_eq!(checkpoint.task_id.as_str(), "task-1");
    assert_eq!(checkpoint.superstep, 5);
    assert!(checkpoint.outputs.is_empty());
}

#[test]
fn test_checkpoint_id_format() {
    let checkpoint = Checkpoint::new(WorkflowId::new("wf-1"), TaskId::new("task-1"), 42, SuperstepState::new());
    assert_eq!(checkpoint.checkpoint_id(), "wf-1-task-1-42");
}

#[test]
fn test_checkpoint_with_outputs() {
    let checkpoint = Checkpoint::new(WorkflowId::new("wf-1"), TaskId::new("task-1"), 5, SuperstepState::new())
        .with_outputs(vec![number("output", 1), number("output", 2)]);

    assert_eq!(checkpoint.outputs.len(), 2);
}

#[test]
fn test_inmemory_checkpoint_backend_save_load() {
    let mut backend = InMemoryCheckpointBackend::new();

    let checkpoint = Checkpoint::new(WorkflowId::new("wf-1"), TaskId::new("task-1"), 5, SuperstepState::new());

    backend.save(checkpoint);

    let loaded = backend.load(&WorkflowId::new("wf-1"), &TaskId::new("task-1"));

    assert!(loaded.is_some());
    let loaded = loaded.unwrap();
    assert_eq!(loaded.superstep, 5);
}

#[test]
fn test_inmemory_checkpoint_backend_load_latest() {
    let mut backend = InMemoryCheckpointBackend::new();

    for i in 0..5 {
        let checkpoint = Checkpoint::new(WorkflowId::new("wf-1"), TaskId::new("task-1"), i, SuperstepState::new());
        backend.save(checkpoint);
    }

    let loaded = backend.load(&WorkflowId::new("wf-1"), &TaskId::new("task-1"));

    assert!(loaded.is_some());
    assert_eq!(loaded.unwrap().superstep, 4);
}

#[test]
fn test_inmemory_checkpoint_backend_cleanup() {
    let mut backend = InMemoryCheckpointBackend::new();

    for i in 0..10 {
        let checkpoint = Checkpoint::new(WorkflowId::new("wf-1"), TaskId::new("task-1"), i, SuperstepState::new());
        backend.save(checkpoint);
    }

    let removed = backend.cleanup(&WorkflowId::new("wf-1"), &TaskId::new("task-1"), 5);

    assert_eq!(removed, 5); // Supersteps 0-4 removed

    let remaining = backend.list(&WorkflowId::new("wf-1"), &TaskId::new("task-1"));

    assert_eq!(remaining.len(), 5); // Supersteps 5-9 remain
}

#[test]
fn test_inmemory_checkpoint_backend_load_by_id() {
    let mut backend = InMemoryCheckpointBackend::new();

    let checkpoint = Checkpoint::new(WorkflowId::new("wf-1"), TaskId::new("task-1"), 5, SuperstepState::new());

    let id = checkpoint.id.clone();
    backend.save(checkpoint);

    let loaded = backend.load_by_id(&id);
    assert!(loaded.is_some());
    assert_eq!(loaded.unwrap().superstep, 5);

    let not_found = backend.load_by_id("non-existent");
    assert!(not_found.is_none());
}

#[test]
fn test_backend_keeps_other_tasks_and_replaces_same_id() {
    let mut backend = InMemoryCheckpointBackend::new();
    backend.save(Checkpoint::new(WorkflowId::new("wf"), TaskId::new("a"), 1, SuperstepState::new()));
    backend.save(Checkpoint::new(WorkflowId::new("wf"), TaskId::new("b"), 1, SuperstepState::new()));
    backend.save(
        Checkpoint::new(WorkflowId::new("wf"), TaskId::new("a"), 1, SuperstepState::new())
            .with_outputs(vec![number("v", 7)]),
    );

    assert_eq!(backend.list(&WorkflowId::new("wf"), &TaskId::new("a")), vec!["wf-a-1".to_string()]);
    assert_eq!(backend.load_by_id("wf-a-1").unwrap().outputs.len(), 1);
    assert_eq!(backend.cleanup(&WorkflowId::new("wf"), &TaskId::new("a"), 9), 1);
    assert!(backend.load(&WorkflowId::new("wf"), &TaskId::new("a")).is_none());
    assert_eq!(backend.load(&WorkflowId::new("wf"), &TaskId::new("b")).unwrap().checkpoint_id(), "wf-b-1");
}

#[test]
fn test_executor_superstep_result_success() {
    let result = ExecutorSuperstepResult::success(ExecutorId::new("exec-1"), vec![number("msg", 1)], vec![number("out", 1)], 50);

    assert!(result.success);
    assert!(result.error.is_none());
    assert_eq!(result.messages.len(), 1);
    assert_eq!(result.outputs.len(), 1);
    assert_eq!(result.duration_ms, 50);
}

#[test]
fn test_executor_superstep_result_failure() {
    let result = ExecutorSuperstepResult::failure(ExecutorId::new("exec-1"), "Test error".into(), 25);

    assert!(!result.success);
    assert_eq!(result.error, Some("Test error".into()));
    assert!(result.messages.is_empty());
    assert!(result.outputs.is_empty());
}
