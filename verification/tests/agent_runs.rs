use agentic_core::agent::runs::{
    chat_reply, model_messages, new_thread, workflow_input, workflow_reply, ChatStream, WorkflowStream,
};
use agentic_core::agent::thread::AgentThread;
use agentic_core::agent::types::{AgentId, ChatMessage};
use agentic_core::clock::Timestamp;
use agentic_core::graph::types::{ExecutorId, TaskId, WorkflowId};
use agentic_core::graph::workflow::WorkflowStreamEvent;

#[test]
fn new_thread_carries_agent_and_prompt() {
    let thread = new_thread(&AgentId::new("writer"), Some("Be brief."));
    assert_eq!(thread.created_by, Some(AgentId::new("writer")));
    assert_eq!(thread.system_prompt.as_deref(), Some("Be brief."));
    assert!(new_thread(&AgentId::new("w"), None).system_prompt.is_none());
}

#[test]
fn agent_prompt_takes_precedence_over_thread_prompt() {
    let mut thread = AgentThread::new().with_system_prompt("thread prompt");
    thread.add_message(ChatMessage::system("ignored"));
    thread.add_message(ChatMessage::user("hi"));
    let messages = model_messages(Some("agent prompt"), &thread);
    assert_eq!(messages.len(), 2);
    assert_eq!(messages[0].content, "agent prompt");
    assert!(messages[0].is_system());
    assert_eq!(messages[1].content, "hi");
    let messages = model_messages(None, &thread);
    assert_eq!(messages[0].content, "thread prompt");
    let bare = AgentThread::new();
    assert!(model_messages(None, &bare).is_empty());
}

#[test]
fn chat_reply_records_the_answer() {
    let mut thread = AgentThread::new();
    thread.add_message(ChatMessage::user("question"));
    let response = chat_reply(&mut thread, "answer".into(), 30, "mock-model".into(), true);
    assert_eq!(response.content, "answer");
    assert_eq!(response.messages.len(), 2);
    assert_eq!(response.tokens_used, Some(30));
    assert_eq!(response.model.as_deref(), Some("mock-model"));
    assert!(response.truncated);
    assert_eq!(thread.total_tokens, 30);
    assert_eq!(thread.messages[1].content, "answer");
}

#[test]
fn chat_stream_accumulates_pieces() {
    let mut stream = ChatStream::new();
    let first = stream.on_piece("Hel".into(), false, None);
    assert_eq!(first.content.as_deref(), Some("Hel"));
    assert!(!first.done);
    let last = stream.on_piece("lo".into(), true, Some(7));
    assert!(last.done);
    assert_eq!(last.tokens_used, Some(7));
    let mut thread = AgentThread::new();
    stream.finish(&mut thread);
    assert_eq!(thread.messages[0].content, "Hello");
    assert_eq!(thread.total_tokens, 7);
    let failed = ChatStream::new().on_failure("boom".into());
    assert!(failed.is_error() && failed.done);
    let mut untouched = AgentThread::new();
    ChatStream::new().finish(&mut untouched);
    assert!(untouched.is_empty());
}

#[test]
fn workflow_input_is_last_user_message() {
    let messages = vec![ChatMessage::user("first"), ChatMessage::assistant("x"), ChatMessage::user("second")];
    assert_eq!(workflow_input(&messages), "second");
    assert_eq!(workflow_input(&vec![ChatMessage::assistant("x")]), "");
}

#[test]
fn workflow_reply_joins_outputs_or_counts_supersteps() {
    let mut thread = AgentThread::new();
    let response = workflow_reply(&mut thread, &vec!["a".to_string(), "b".to_string()], 4);
    assert_eq!(response.content, "a\nb");
    let response = workflow_reply(&mut thread, &vec![], 4);
    assert_eq!(response.content, "Workflow completed (4 supersteps)");
    assert_eq!(thread.message_count(), 2);
}

#[test]
fn workflow_stream_maps_events_to_chunks() {
    let mut stream = WorkflowStream::new();
    let (chunks, stop) = stream.on_event(&WorkflowStreamEvent::Started {
        workflow_id: WorkflowId::new("wf"),
        task_id: TaskId::new("t"),
        timestamp: Timestamp { secs: 0, nanos: 0 },
    });
    assert!(!stop);
    assert_eq!(chunks[0].content.as_deref(), Some("[Workflow wf started]\n"));
    let (chunks, _) = stream.on_event(&WorkflowStreamEvent::SuperstepStarted { superstep: 3, active_executor_count: 1 });
    assert_eq!(chunks[0].content.as_deref(), Some("[Superstep 3]\n"));
    let (chunks, _) = stream.on_event(&WorkflowStreamEvent::Output {
        executor_id: ExecutorId::new("e"),
        data: serde_json::Value::String("hi".into()),
    });
    assert_eq!(chunks[0].content.as_deref(), Some("\"hi\""));
    let (chunks, _) = stream.on_event(&WorkflowStreamEvent::Completed { duration_ms: 12, superstep_count: 2, output_count: 1 });
    assert_eq!(chunks.len(), 2);
    assert_eq!(chunks[0].content.as_deref(), Some("\n[Completed in 12ms, 2 supersteps]"));
    assert!(chunks[1].done);
    let (chunks, _) = stream.on_event(&WorkflowStreamEvent::CheckpointCreated { superstep: 1, checkpoint_id: "c".into() });
    assert!(chunks.is_empty());
    let mut thread = AgentThread::new();
    stream.finish(&mut thread);
    assert_eq!(thread.messages[0].content, "\"hi\"\n");
    let (chunks, stop) = WorkflowStream::new().on_event(&WorkflowStreamEvent::Failed { error: "bad".into(), last_superstep: 0 });
    assert!(stop);
    assert!(chunks[0].is_error());
}
