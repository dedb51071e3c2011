use agentic_core::graph::context::{InMemoryStateBackend, WorkflowContext, WorkflowContextBuilder, WorkflowEvent};
use agentic_core::graph::executor::LogLevel;
use agentic_core::graph::types::{ExecutorError, ExecutorId, TaskId, WorkflowId};

fn test_ids() -> (WorkflowId, TaskId, ExecutorId) {
    (WorkflowId::new("wf-test"), TaskId::new("task-test"), ExecutorId::new("exe-test"))
}

#[test]
fn test_send_message() {
    let (wf_id, task_id, exe_id) = test_ids();
    let mut ctx: WorkflowContext<String, ()> = WorkflowContext::in_memory(wf_id, task_id, exe_id);

    ctx.send_message("Hello".to_string()).unwrap();
    ctx.send_message("World".to_string()).unwrap();

    assert!(ctx.has_messages());
    let messages = ctx.drain_messages();
    assert_eq!(messages.len(), 2);
    assert_eq!(messages[0], "Hello");
    assert_eq!(messages[1], "World");
    assert!(!ctx.has_messages());
}

#[test]
fn test_yield_output() {
    let (wf_id, task_id, exe_id) = test_ids();
    let mut ctx: WorkflowContext<(), String> = WorkflowContext::in_memory(wf_id, task_id, exe_id);

    ctx.yield_output("Result 1".to_string()).unwrap();
    ctx.yield_output("Result 2".to_string()).unwrap();

    assert!(ctx.has_outputs());
    let outputs = ctx.drain_outputs();
    assert_eq!(outputs.len(), 2);
}

#[test]
fn test_add_event() {
    let (wf_id, task_id, exe_id) = test_ids();
    let mut ctx: WorkflowContext<(), ()> = WorkflowContext::in_memory(wf_id, task_id, exe_id);

    let mut data = serde_json::Map::new();
    data.insert("percent".to_string(), serde_json::Value::from(50u64));
    ctx.add_event("progress", serde_json::Value::Object(data)).unwrap();

    let events = ctx.drain_events();
    assert_eq!(events.len(), 1);
    assert_eq!(events[0].event_type, "progress");
    assert_eq!(events[0].executor_id.as_str(), "exe-test");
}

#[test]
fn test_log() {
    let (wf_id, task_id, exe_id) = test_ids();
    let mut ctx: WorkflowContext<(), ()> = WorkflowContext::in_memory(wf_id, task_id, exe_id);

    ctx.log(LogLevel::Info, "Test message").unwrap();

    let events = ctx.drain_events();
    assert_eq!(events.len(), 1);
    assert_eq!(events[0].event_type, "log");
    assert_eq!(events[0].data["level"], "Info");
    assert_eq!(events[0].data["message"], "Test message");
}

#[test]
fn test_shared_state() {
    let (wf_id, task_id, exe_id) = test_ids();
    let mut ctx: WorkflowContext<(), ()> = WorkflowContext::in_memory(wf_id, task_id, exe_id);

    ctx.set_shared_state("counter", serde_json::Value::from(42i64)).unwrap();
    let value = ctx.get_shared_state("counter").unwrap();
    assert_eq!(value, Some(&serde_json::Value::from(42i64)));

    let mut config = serde_json::Map::new();
    config.insert("enabled".to_string(), serde_json::Value::Bool(true));
    ctx.set_shared_state("config", serde_json::Value::Object(config)).unwrap();
    assert!(ctx.get_shared_state("config").unwrap().is_some());

    assert!(ctx.get_shared_state("missing").unwrap().is_none());

    ctx.delete_shared_state("counter").unwrap();
    assert!(ctx.get_shared_state("counter").unwrap().is_none());
    assert_eq!(ctx.shared_state_key("k"), "wf-test:k");
}

#[test]
fn state_backend_set_get_delete() {
    let mut backend = InMemoryStateBackend::new();
    backend.set("a", serde_json::Value::from(1u64));
    backend.set("a", serde_json::Value::from(2u64));
    assert_eq!(backend.get("a"), Some(&serde_json::Value::from(2u64)));
    backend.delete("a");
    assert!(backend.get("a").is_none());
    let event = WorkflowEvent::new("custom", ExecutorId::new("x"), serde_json::Value::Null);
    assert_eq!(event.event_type, "custom");
}

#[test]
fn test_previous_errors() {
    let (wf_id, task_id, exe_id) = test_ids();
    let mut ctx: WorkflowContext<(), ()> = WorkflowContext::in_memory(wf_id, task_id, exe_id);

    assert!(ctx.previous_errors().is_empty());

    ctx.add_previous_errors(vec![ExecutorError::validation("First error"), ExecutorError::validation("Second error")]);

    assert_eq!(ctx.previous_errors().len(), 2);
}

#[test]
fn test_context_builder() {
    let (wf_id, task_id, exe_id) = test_ids();

    let ctx: WorkflowContext<String, String> = WorkflowContextBuilder::new(wf_id, task_id, exe_id)
        .superstep(5)
        .previous_errors(vec![ExecutorError::timeout()])
        .build();

    assert_eq!(ctx.superstep(), 5);
    assert_eq!(ctx.previous_errors().len(), 1);
    assert_eq!(ctx.workflow_id().as_str(), "wf-test");
}
