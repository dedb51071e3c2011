use std::collections::HashSet;

use agentic_core::graph::types::{ErrorCategory, ExecutorError, ExecutorId, GraphError, TaskId};

#[test]
fn test_executor_id() {
    let id1 = ExecutorId::new("code-gen");
    let id2: ExecutorId = "code-gen".into();
    assert_eq!(id1, id2);
    assert_eq!(id1.as_str(), "code-gen");
}

#[test]
fn test_task_id_generate() {
    let id = TaskId::generate();
    assert!(id.as_str().starts_with("task-"));
}

#[test]
fn test_executor_error() {
    let err = ExecutorError::new("validator", "Compilation failed")
        .with_category(ErrorCategory::Compilation)
        .non_retriable();

    assert!(!err.retriable);
    assert_eq!(err.category, ErrorCategory::Compilation);
}

#[test]
fn test_executor_id_in_hashset() {
    let mut set = HashSet::new();
    set.insert(ExecutorId::new("a"));
    set.insert(ExecutorId::new("b"));
    set.insert(ExecutorId::new("a"));
    assert_eq!(set.len(), 2);
}

#[test]
fn graph_error_texts() {
    assert_eq!(GraphError::ExecutorNotFound(ExecutorId::new("x")).to_string(), "Executor not found: x");
    assert_eq!(GraphError::ValidationError("bad".to_string()).to_string(), "Validation error: bad");
    assert_eq!(GraphError::Cancelled.to_string(), "Workflow cancelled");
    assert_eq!(
        GraphError::MaxRetriesExceeded(ExecutorId::new("gen")).to_string(),
        "Max retries exceeded for executor: gen"
    );
}

#[test]
fn executor_error_defaults_and_text() {
    let err = ExecutorError::new("gen", "boom");
    assert!(err.retriable);
    assert_eq!(err.category, ErrorCategory::Unknown);
    assert_eq!(err.executor_id.as_str(), "gen");
    assert_eq!(err.message, "boom");
}
