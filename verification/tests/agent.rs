use agentic_core::agent::error::AgentError;
use agentic_core::agent::reducer::{
    ChatReducer, MessageCountingReducer, NoOpReducer, SlidingWindowReducer, TokenCountingReducer,
};
use agentic_core::agent::types::{AgentId, ChatMessage, ChatRole, ThreadId};

fn make_messages(n: usize) -> Vec<ChatMessage> {
    (0..n)
        .map(|i| {
            if i % 2 == 0 {
                ChatMessage::user(format!("User message {}", i))
            } else {
                ChatMessage::assistant(format!("Assistant message {}", i))
            }
        })
        .collect()
}

fn important_marker() -> serde_json::Value {
    let mut map = serde_json::Map::new();
    map.insert("important".to_string(), serde_json::Value::Bool(true));
    serde_json::Value::Object(map)
}

#[test]
fn test_error_display() {
    let err = AgentError::llm("Connection failed");
    assert_eq!(err.to_string(), "LLM error: Connection failed");
}

#[test]
fn test_tool_error() {
    let err = AgentError::tool("calculator", "Division by zero");
    assert!(err.to_string().contains("calculator"));
    assert!(err.to_string().contains("Division by zero"));
}

#[test]
fn test_is_retriable() {
    assert!(AgentError::llm("timeout").is_retriable());
    assert!(AgentError::timeout("5s").is_retriable());
    assert!(!AgentError::invalid_input("bad data").is_retriable());
    assert!(!AgentError::Cancelled.is_retriable());
}

#[test]
fn test_agent_id() {
    let id1 = AgentId::new("writer");
    let id2: AgentId = "writer".into();
    assert_eq!(id1, id2);
    assert_eq!(id1.as_str(), "writer");
}

#[test]
fn test_workflow_agent_id() {
    let _agent_id = AgentId::new("test-workflow");
}

#[test]
fn test_thread_id_generate() {
    let id = ThreadId::generate();
    assert!(id.as_str().starts_with("thread-"));
}

#[test]
fn test_chat_message_user() {
    let msg = ChatMessage::user("Hello");
    assert!(msg.is_user());
    assert!(!msg.is_assistant());
    assert_eq!(msg.content, "Hello");
}

#[test]
fn test_chat_message_with_name() {
    let msg = ChatMessage::assistant("Hi there").with_name("Helper");
    assert_eq!(msg.name, Some("Helper".into()));
}

#[test]
fn test_chat_message_display() {
    let msg = ChatMessage::user("Test").with_name("Alice");
    assert_eq!(msg.to_string(), "[user:Alice] Test");
}

#[test]
fn chat_role_names() {
    assert_eq!(ChatRole::System.to_string(), "system");
    assert_eq!(ChatRole::Tool.to_string(), "tool");
    assert_eq!(ChatMessage::system("x").to_string(), "[system] x");
}

#[test]
fn test_message_counting_reducer_no_reduction() {
    let reducer = MessageCountingReducer::new(10);
    let messages = make_messages(5);

    assert!(!reducer.needs_reduction(&messages));
    let reduced = reducer.reduce(&messages);
    assert_eq!(reduced.len(), 5);
}

#[test]
fn test_message_counting_reducer_with_reduction() {
    let reducer = MessageCountingReducer::new(5).without_pair_preservation();
    let messages = make_messages(10);

    assert!(reducer.needs_reduction(&messages));
    let reduced = reducer.reduce(&messages);
    assert_eq!(reduced.len(), 5);

    assert!(reduced[0].content.contains("5"));
    assert!(reduced[4].content.contains("9"));
}

#[test]
fn test_message_counting_reducer_preserves_system() {
    let reducer = MessageCountingReducer::new(3).without_pair_preservation();
    let mut messages = vec![ChatMessage::system("System prompt")];
    messages.extend(make_messages(10));

    let reduced = reducer.reduce(&messages);
    assert_eq!(reduced.len(), 4);
    assert!(reduced[0].is_system());
}

#[test]
fn test_token_counting_reducer() {
    let reducer = TokenCountingReducer::new(100);

    let messages = vec![
        ChatMessage::system("System"),
        ChatMessage::user("a".repeat(100)),
        ChatMessage::assistant("b".repeat(100)),
        ChatMessage::user("c".repeat(100)),
        ChatMessage::assistant("d".repeat(200)),
    ];

    let reduced = reducer.reduce(&messages);

    assert!(reduced[0].is_system());

    let total_tokens: usize = reduced.iter().map(|m| m.content.len() / 4 + 1).sum();
    assert!(total_tokens <= 100);
}

#[test]
fn test_sliding_window_reducer() {
    let reducer = SlidingWindowReducer::new(5);

    let mut messages = make_messages(10);
    messages[2] = messages[2].clone().with_metadata(important_marker());

    let reduced = reducer.reduce(&messages);

    assert!(reduced.len() <= 6);

    let has_important = reduced.iter().any(|m| {
        m.metadata
            .as_ref()
            .and_then(|meta| meta.get("important"))
            .and_then(|v| v.as_bool())
            .unwrap_or(false)
    });
    assert!(has_important);
}

#[test]
fn test_sliding_window_with_system() {
    let reducer = SlidingWindowReducer::new(3);

    let mut messages = vec![ChatMessage::system("Be helpful")];
    messages.extend(make_messages(10));

    let reduced = reducer.reduce(&messages);

    assert!(reduced[0].is_system());
    assert_eq!(reduced.len(), 4);
}

#[test]
fn test_noop_reducer() {
    let reducer = NoOpReducer;
    let messages = make_messages(100);

    assert!(!reducer.needs_reduction(&messages));
    let reduced = reducer.reduce(&messages);
    assert_eq!(reduced.len(), 100);
}

#[test]
fn test_preserve_pairs() {
    let reducer = MessageCountingReducer::new(4);

    let messages: Vec<ChatMessage> = (0..9)
        .map(|i| {
            if i % 2 == 0 {
                ChatMessage::user(format!("U{}", i))
            } else {
                ChatMessage::assistant(format!("A{}", i))
            }
        })
        .collect();

    let reduced = reducer.reduce(&messages);

    assert!(!reduced.is_empty());
}

#[test]
fn test_message_counting_reducer_default() {
    let reducer = MessageCountingReducer::default();
    assert!(!reducer.needs_reduction(&make_messages(50)));
    assert!(reducer.needs_reduction(&make_messages(51)));
}
