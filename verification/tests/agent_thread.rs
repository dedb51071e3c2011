use agentic_core::agent::thread::{AgentThread, ThreadSummary};
use agentic_core::agent::types::{AgentId, ChatMessage};

#[test]
fn test_thread_new() {
    let thread = AgentThread::new();
    assert!(thread.id.as_str().starts_with("thread-"));
    assert!(thread.is_empty());
    assert_eq!(thread.turn_count, 0);
}

#[test]
fn test_thread_for_agent() {
    let thread = AgentThread::for_agent("writer");
    assert_eq!(thread.created_by, Some(AgentId::new("writer")));
}

#[test]
fn test_thread_with_system_prompt() {
    let thread = AgentThread::new().with_system_prompt("You are helpful.");
    assert_eq!(thread.system_prompt, Some("You are helpful.".into()));
}

#[test]
fn test_add_messages() {
    let mut thread = AgentThread::new();
    thread.add_message(ChatMessage::user("Hello"));
    thread.add_message(ChatMessage::assistant("Hi there!"));

    assert_eq!(thread.message_count(), 2);
    assert_eq!(thread.turn_count, 1);
}

#[test]
fn test_turn_counting() {
    let mut thread = AgentThread::new();

    // Turn 1
    thread.add_message(ChatMessage::user("First question"));
    assert_eq!(thread.turn_count, 1);
    thread.add_message(ChatMessage::assistant("First answer"));
    assert_eq!(thread.turn_count, 1);

    // Turn 2
    thread.add_message(ChatMessage::user("Second question"));
    assert_eq!(thread.turn_count, 2);
}

#[test]
fn consecutive_user_messages_are_one_turn() {
    let mut thread = AgentThread::new();
    thread.add_messages(vec![
        ChatMessage::user("a"),
        ChatMessage::user("b"),
        ChatMessage::tool("t"),
        ChatMessage::assistant("c"),
        ChatMessage::user("d"),
    ]);
    assert_eq!(thread.turn_count, 2);
    assert_eq!(thread.message_count(), 5);
}

#[test]
fn test_messages_for_llm() {
    let mut thread = AgentThread::new().with_system_prompt("Be helpful.");
    thread.add_message(ChatMessage::user("Hello"));

    let messages = thread.messages_for_llm();
    assert_eq!(messages.len(), 2);
    assert!(messages[0].is_system());
    assert!(messages[1].is_user());
}

#[test]
fn messages_for_llm_drops_thread_system_messages() {
    let mut thread = AgentThread::new();
    thread.add_message(ChatMessage::system("hidden"));
    thread.add_message(ChatMessage::user("Hello"));
    let messages = thread.messages_for_llm();
    assert_eq!(messages.len(), 1);
    assert_eq!(messages[0].content, "Hello");
}

#[test]
fn test_last_messages() {
    let mut thread = AgentThread::new();
    for i in 0..5 {
        thread.add_message(ChatMessage::user(format!("Message {}", i)));
    }

    let last = thread.last_messages(3);
    assert_eq!(last.len(), 3);
    assert_eq!(last[0].content, "Message 2");
    assert_eq!(thread.last_messages(10).len(), 5);
}

#[test]
fn last_user_and_assistant_messages() {
    let mut thread = AgentThread::new();
    assert!(thread.last_user_message().is_none());
    thread.add_message(ChatMessage::user("q1"));
    thread.add_message(ChatMessage::assistant("a1"));
    thread.add_message(ChatMessage::user("q2"));
    assert_eq!(thread.last_user_message().unwrap().content, "q2");
    assert_eq!(thread.last_assistant_message().unwrap().content, "a1");
    thread.clear_messages();
    assert!(thread.is_empty());
    assert_eq!(thread.turn_count, 0);
}

#[test]
fn test_metadata() {
    let mut thread = AgentThread::new();
    thread.set_metadata("user_id", serde_json::Value::String("user-123".into()));

    assert_eq!(thread.get_metadata("user_id"), Some(&serde_json::Value::String("user-123".into())));
    thread.set_metadata("user_id", serde_json::Value::String("user-456".into()));
    assert_eq!(thread.get_metadata("user_id"), Some(&serde_json::Value::String("user-456".into())));
    assert_eq!(thread.metadata.len(), 1);
    assert!(thread.get_metadata("missing").is_none());
}

#[test]
fn add_response_counts_tokens() {
    let mut thread = AgentThread::new();
    thread.add_response("answer", Some(12));
    thread.add_response("more", None);
    assert_eq!(thread.total_tokens, 12);
    assert!(thread.messages[1].is_assistant());
}

#[test]
fn test_thread_summary() {
    let mut thread = AgentThread::for_agent("test");
    thread.add_message(ChatMessage::user("Hello world"));
    thread.add_message(ChatMessage::assistant("Hi!"));

    let summary = ThreadSummary::from(&thread);
    assert_eq!(summary.message_count, 2);
    assert_eq!(summary.turn_count, 1);
    assert_eq!(summary.preview, Some("Hello world".into()));
}

#[test]
fn summary_preview_is_first_hundred_chars() {
    let mut thread = AgentThread::new();
    thread.add_message(ChatMessage::user("é".repeat(150)));
    let summary = ThreadSummary::from(&thread);
    assert_eq!(summary.preview.unwrap().chars().count(), 100);
}
