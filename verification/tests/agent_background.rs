use agentic_core::agent::background::{
    BackgroundResponse, BackgroundTask, BackgroundTaskId, ContinuationError, ContinuationToken, InMemoryTaskStore,
    TaskStatus,
};
use agentic_core::clock::Timestamp;

fn text_value(s: &str) -> serde_json::Value {
    serde_json::Value::String(s.to_string())
}

#[test]
fn test_background_task_lifecycle() {
    let mut task = BackgroundTask::new("Test task");
    assert!(matches!(task.status, TaskStatus::Pending));

    task.start();
    assert!(task.status.is_running());

    task.update_progress(50, Some("Halfway done".into()));
    if let TaskStatus::InProgress { progress, message, .. } = &task.status {
        assert_eq!(*progress, Some(50));
        assert_eq!(message.as_deref(), Some("Halfway done"));
    }

    let mut result = serde_json::Map::new();
    result.insert("result".to_string(), text_value("done"));
    task.complete(serde_json::Value::Object(result));
    assert!(task.status.is_success());
    assert!(task.status.is_terminal());
}

#[test]
fn test_background_task_failure() {
    let mut task = BackgroundTask::new("Failing task");
    task.start();
    task.fail("Something went wrong", true);

    assert!(task.status.is_terminal());
    assert!(!task.status.is_success());

    if let TaskStatus::Failed { retriable, .. } = &task.status {
        assert!(*retriable);
    }
}

#[test]
fn progress_is_capped_and_ignored_unless_running() {
    let mut task = BackgroundTask::new("capped");
    task.update_progress(30, None);
    assert!(matches!(task.status, TaskStatus::Pending));
    task.start();
    task.update_progress(250, None);
    assert!(matches!(task.status, TaskStatus::InProgress { progress: Some(100), .. }));
    task.cancel(Some("user asked".into()));
    task.update_progress(10, None);
    assert!(matches!(task.status, TaskStatus::Cancelled { .. }));
    assert!(!task.status.is_running());
}

#[test]
fn test_continuation_token() {
    let task = BackgroundTask::new("Token test");
    let token = task.to_token_with_checkpoint(b"checkpoint data".to_vec());

    assert_eq!(token.task_id, task.id);
    assert_eq!(token.checkpoint, b"checkpoint data");
    assert!(!token.is_expired());
}

#[test]
fn test_continuation_token_expiry() {
    let token = ContinuationToken::new(BackgroundTaskId::generate()).expires_in(std::time::Duration::from_secs(0));
    let expiry = token.expires_at.unwrap();
    let later = Timestamp { secs: expiry.secs + 1, nanos: 0 };
    assert!(token.is_expired_at(later));
    assert!(!token.is_expired_at(expiry));
}

#[test]
fn token_with_fixed_expiry() {
    let deadline = Timestamp { secs: 1_000, nanos: 5 };
    let token = ContinuationToken::new(BackgroundTaskId::new("test-123")).with_expiry(deadline);
    assert!(!token.is_expired_at(Timestamp { secs: 999, nanos: 999_999_999 }));
    assert!(!token.is_expired_at(deadline));
    assert!(token.is_expired_at(Timestamp { secs: 1_000, nanos: 6 }));
    let token = token.with_metadata("key", text_value("value")).with_metadata("key", text_value("other"));
    assert_eq!(token.metadata.len(), 1);
    assert_eq!(token.metadata[0].1, text_value("other"));
}

#[test]
fn test_background_response() {
    let response: BackgroundResponse<String> = BackgroundResponse::complete("Done!".into());
    assert!(response.is_complete());
    assert_eq!(response.result(), Some("Done!".into()));

    let task = BackgroundTask::new("Long task");
    let response: BackgroundResponse<String> = BackgroundResponse::in_progress(&task);
    assert!(!response.is_complete());
    assert!(response.token().is_some());
}

#[test]
fn continuation_error_texts() {
    assert_eq!(ContinuationError::InvalidToken("bad".into()).to_string(), "Invalid continuation token: bad");
    assert_eq!(ContinuationError::Expired.to_string(), "Continuation token has expired");
    assert_eq!(ContinuationError::TaskNotFound("t".into()).to_string(), "Task not found: t");
    assert_eq!(ContinuationError::AlreadyComplete.to_string(), "Task already complete");
}

#[test]
fn test_in_memory_task_store() {
    let mut store = InMemoryTaskStore::new();

    let mut task = BackgroundTask::new("Store test");
    let task_id = task.id.clone();

    store.store(task.clone());

    let loaded = store.get(&task_id).unwrap();
    assert_eq!(loaded.description, "Store test");

    task.start();
    store.update(task);

    let status = store.get_status(&task_id).unwrap();
    assert!(status.is_running());

    store.delete(&task_id);
    assert!(store.get(&task_id).is_none());
}

#[test]
fn test_task_store_list_by_status() {
    let mut store = InMemoryTaskStore::new();

    let mut running = BackgroundTask::new("Running");
    running.start();
    store.store(running);

    let mut complete = BackgroundTask::new("Complete");
    complete.complete(serde_json::Value::Null);
    store.store(complete);

    let running_tasks = store.list_by_status(true);
    assert_eq!(running_tasks.len(), 1);
    assert_eq!(running_tasks[0].description, "Running");

    let completed_tasks = store.list_by_status(false);
    assert_eq!(completed_tasks.len(), 1);
    assert_eq!(completed_tasks[0].description, "Complete");
    assert_eq!(store.list_all().len(), 2);
}

#[test]
fn cleanup_removes_only_finished_tasks_older_than_cutoff() {
    let mut store = InMemoryTaskStore::new();
    let mut done = BackgroundTask::new("done");
    done.complete(serde_json::Value::Null);
    done.updated_at = Timestamp { secs: 100, nanos: 0 };
    store.store(done);
    let mut fresh = BackgroundTask::new("fresh");
    fresh.fail("x", false);
    fresh.updated_at = Timestamp { secs: 300, nanos: 0 };
    store.store(fresh);
    let mut old_running = BackgroundTask::new("running");
    old_running.start();
    old_running.updated_at = Timestamp { secs: 50, nanos: 0 };
    store.store(old_running);

    assert_eq!(store.cleanup_before(Timestamp { secs: 200, nanos: 0 }), 1);
    let left: Vec<&str> = store.list_all().iter().map(|t| t.description.as_str()).collect();
    assert_eq!(left, vec!["fresh", "running"]);
    assert_eq!(store.cleanup_old(std::time::Duration::from_secs(0)), 1);
    assert_eq!(store.list_all().len(), 1);
}
