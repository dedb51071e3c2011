use agentic_core::graph::persistence::{CheckpointMetadata, InMemoryPersistentBackend, PersistentCheckpoint};
use agentic_core::graph::superstep::{Checkpoint, SuperstepState};
use agentic_core::graph::types::{TaskId, WorkflowId};

fn checkpoint(task: &str, superstep: u32) -> PersistentCheckpoint {
    PersistentCheckpoint::from_checkpoint(Checkpoint::new(
        WorkflowId::new("wf-1"),
        TaskId::new(task),
        superstep,
        SuperstepState::new(),
    ))
}

#[test]
fn test_inmemory_persistent_backend() {
    let mut backend = InMemoryPersistentBackend::new();

    let persistent = checkpoint("task-1", 5)
        .with_shared_state(vec![("key".to_string(), serde_json::Value::String("value".into()))]);

    backend.save_persistent(persistent);

    let loaded = backend.load_persistent(&WorkflowId::new("wf-1"), &TaskId::new("task-1"));

    assert!(loaded.is_some());
    let loaded = loaded.unwrap();
    assert_eq!(loaded.superstep(), 5);
    assert_eq!(loaded.shared_state[0].1, serde_json::Value::String("value".into()));
    assert_eq!(loaded.schema_version, 1);
    assert_eq!(loaded.id(), "wf-1-task-1-5");
    assert!(backend.load_persistent_by_id("wf-1-task-1-5").is_some());
    assert!(backend.load_persistent_by_id("nope").is_none());
}

#[test]
fn test_cleanup_keep_last() {
    let mut backend = InMemoryPersistentBackend::new();

    for i in 0..10 {
        backend.save_persistent(checkpoint("task-1", i));
    }
    backend.save_persistent(checkpoint("task-2", 1));

    let removed = backend.cleanup_keep_last(&WorkflowId::new("wf-1"), &TaskId::new("task-1"), 3);

    assert_eq!(removed, 7);

    let metadata = backend.list_metadata(&WorkflowId::new("wf-1"), Some(&TaskId::new("task-1")));

    assert_eq!(metadata.len(), 3);
    assert_eq!(metadata[0].superstep, 9);
    assert_eq!(metadata[1].superstep, 8);
    assert_eq!(metadata[2].superstep, 7);
    assert_eq!(backend.list_metadata(&WorkflowId::new("wf-1"), None).len(), 4);
}

#[test]
fn delete_all_and_metadata() {
    let mut backend = InMemoryPersistentBackend::new();
    backend.save_persistent(checkpoint("a", 1));
    backend.save_persistent(checkpoint("a", 2));
    backend.save_persistent(checkpoint("b", 1));
    assert_eq!(backend.delete_all(&WorkflowId::new("wf-1"), &TaskId::new("a")), 2);
    assert!(backend.load_persistent(&WorkflowId::new("wf-1"), &TaskId::new("a")).is_none());
    let pc = checkpoint("b", 3).with_workflow_hash("h".into());
    let meta = CheckpointMetadata::of_checkpoint(&pc);
    assert_eq!(meta.id, "wf-1-b-3");
    assert_eq!(meta.workflow_id, "wf-1");
    assert_eq!(meta.task_id, "b");
    assert_eq!(meta.pending_message_count, 0);
    assert!(meta.created_at.contains('T'));
    assert_eq!(pc.workflow_hash.as_deref(), Some("h"));
}
