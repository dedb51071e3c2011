use agentic_core::agent::response::{AgentChunk, AgentResponse, ToolCall};
use agentic_core::agent::types::ChatMessage;

fn object(key: &str, value: &str) -> serde_json::Value {
    let mut map = serde_json::Map::new();
    map.insert(key.to_string(), serde_json::Value::String(value.to_string()));
    serde_json::Value::Object(map)
}

#[test]
fn test_agent_response_new() {
    let response = AgentResponse::new("Hello, world!");
    assert_eq!(response.content, "Hello, world!");
    assert!(response.messages.is_empty());
    assert!(!response.truncated);
}

#[test]
fn test_agent_response_with_tokens() {
    let response = AgentResponse::new("Hi").with_tokens(150).with_model("gpt-4");

    assert_eq!(response.tokens_used, Some(150));
    assert_eq!(response.model, Some("gpt-4".into()));
}

#[test]
fn test_agent_response_with_tool_calls() {
    let call = ToolCall::new("call-1", "calculator", object("expr", "2+2"));
    let response = AgentResponse::new("Let me calculate...").with_tool_calls(vec![call]);

    assert!(response.has_tool_calls());
    assert_eq!(response.tool_calls.len(), 1);
}

#[test]
fn response_last_assistant_message() {
    let response = AgentResponse::with_messages(
        "done",
        vec![ChatMessage::assistant("first"), ChatMessage::user("q"), ChatMessage::assistant("second")],
    );
    assert_eq!(response.last_assistant_message().unwrap().content, "second");
    assert!(AgentResponse::default().last_assistant_message().is_none());
    assert_eq!(AgentResponse::default().content, "");
}

#[test]
fn test_agent_chunk_content() {
    let chunk = AgentChunk::content("Hello");
    assert!(chunk.has_content());
    assert!(!chunk.done);
    assert!(!AgentChunk::content("").has_content());
}

#[test]
fn test_agent_chunk_done() {
    let chunk = AgentChunk::done().with_tokens(100);
    assert!(chunk.done);
    assert_eq!(chunk.tokens_used, Some(100));
    let last = AgentChunk::final_content("bye").with_model("m");
    assert!(last.done && last.has_content());
    assert_eq!(last.model, Some("m".into()));
}

#[test]
fn test_agent_chunk_error() {
    let chunk = AgentChunk::error("Connection failed");
    assert!(chunk.is_error());
    assert!(chunk.done);
}

#[test]
fn test_tool_call() {
    let call = ToolCall::new("call-123", "search", object("query", "rust async"));
    assert_eq!(call.name, "search");
    assert_eq!(call.arguments["query"], "rust async");
}
