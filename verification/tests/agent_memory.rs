use agentic_core::agent::memory::{
    InMemoryProvider, Memory, MemoryCategory, MemoryContext, MemoryError, NoOpMemoryProvider, UserMemories,
};
use agentic_core::agent::response::AgentResponse;
use agentic_core::agent::thread::AgentThread;
use agentic_core::agent::types::AgentId;

#[test]
fn test_memory_new() {
    let memory = Memory::new("User prefers dark mode").with_category(MemoryCategory::UserPreference).with_importance(800_000);

    assert_eq!(memory.content, "User prefers dark mode");
    assert_eq!(memory.category, MemoryCategory::UserPreference);
    assert_eq!(memory.importance, 800_000);
    assert_eq!(Memory::new("x").importance, 500_000);
    assert_eq!(memory.category_str(), "pref");
}

#[test]
fn test_memory_importance_clamp() {
    let memory = Memory::new("test").with_importance(1_500_000);
    assert_eq!(memory.importance, 1_000_000);

    let memory = Memory::new("test").with_importance(0);
    assert_eq!(memory.importance, 0);
}

#[test]
fn test_user_memories() {
    let mut memories = UserMemories::new("agent-1", "user-1");
    memories.add(Memory::new("fact 1").with_importance(500_000));
    memories.add(Memory::new("fact 2").with_importance(900_000));
    memories.add(Memory::new("fact 3").with_importance(200_000));

    let top = memories.top_by_importance(2);
    assert_eq!(top.len(), 2);
    assert_eq!(top[0].content, "fact 2");
    assert_eq!(top[1].content, "fact 1");
}

#[test]
fn ties_keep_their_order_and_categories_filter() {
    let mut memories = UserMemories::new("agent", "user");
    memories.extend(vec![
        Memory::new("a").with_importance(300_000),
        Memory::new("b").with_importance(700_000).with_category(MemoryCategory::Learned),
        Memory::new("c").with_importance(300_000),
        Memory::new("d").with_importance(700_000),
    ]);
    let order: Vec<&str> = memories.top_by_importance(10).iter().map(|m| m.content.as_str()).collect();
    assert_eq!(order, vec!["b", "d", "a", "c"]);
    assert_eq!(memories.by_category(MemoryCategory::Fact).len(), 3);
    assert_eq!(memories.by_category(MemoryCategory::Learned)[0].content, "b");
    assert_eq!(memories.to_context_string(), "- [fact] a\n- [learned] b\n- [fact] c\n- [fact] d");
}

#[test]
fn test_memory_context() {
    let mut ctx = MemoryContext::new();
    assert!(ctx.is_empty());

    ctx.extra_instructions = Some("Remember the user's name is Alice".into());
    ctx.add_memory(Memory::new("User name: Alice"));

    assert!(!ctx.is_empty());

    let context_str = ctx.to_context_string().unwrap();
    assert!(context_str.contains("Alice"));
    assert_eq!(context_str, "Remember the user's name is Alice\n\nRelevant memories:\n- User name: Alice");
}

#[test]
fn context_with_only_system_messages_has_no_string() {
    let mut ctx = MemoryContext::new();
    assert!(ctx.to_context_string().is_none());
    ctx.add_system_message("note");
    assert!(!ctx.is_empty());
    assert!(ctx.to_context_string().is_none());
}

#[test]
fn test_in_memory_provider() {
    let mut provider = InMemoryProvider::new();
    let agent_id = AgentId::new("test-agent");
    let user_id = "user-123";

    let memory = Memory::new("User likes rust").with_category(MemoryCategory::UserPreference).with_importance(900_000);

    provider.store_memory(&agent_id, user_id, memory);

    let memories = provider.get_memories(&agent_id, user_id);
    assert_eq!(memories.len(), 1);
    assert_eq!(memories[0].content, "User likes rust");

    provider.clear_memories(&agent_id, user_id);
    let memories = provider.get_memories(&agent_id, user_id);
    assert!(memories.is_empty());
}

#[test]
fn test_in_memory_provider_max_memories() {
    let mut provider = InMemoryProvider::new().with_max_memories(3);
    let agent_id = AgentId::new("test");
    let user_id = "user";

    for i in 0..5u32 {
        let memory = Memory::new(format!("Memory {}", i)).with_importance(i * 100_000);
        provider.store_memory(&agent_id, user_id, memory);
    }

    let memories = provider.get_memories(&agent_id, user_id);
    assert_eq!(memories.len(), 3);
    let kept: Vec<&str> = memories.iter().map(|m| m.content.as_str()).collect();
    assert_eq!(kept, vec!["Memory 4", "Memory 3", "Memory 2"]);
    assert!(provider.get_memories(&agent_id, "someone else").is_empty());
}

#[test]
fn test_noop_provider() {
    let provider = NoOpMemoryProvider;
    let agent_id = AgentId::new("test");

    let memories = provider.get_memories(&agent_id, "user");
    assert!(memories.is_empty());

    provider.store_memory(&agent_id, "user", Memory::new("test"));
    provider.clear_memories(&agent_id, "user");
    let thread = AgentThread::new();
    assert!(provider.after_invoke(&agent_id, &thread, &AgentResponse::new("x")).is_ok());
}

#[test]
fn test_before_invoke_with_memories() {
    let mut provider = InMemoryProvider::new();
    let agent_id = AgentId::new("assistant");
    let user_id = "alice";

    provider.store_memory(&agent_id, user_id, Memory::new("User name: Alice"));
    provider.store_memory(&agent_id, user_id, Memory::new("Likes Rust"));

    let thread = AgentThread::new().with_metadata("user_id", serde_json::Value::String("alice".into()));

    let mut ctx = MemoryContext::new();
    provider.before_invoke(&agent_id, &thread, &mut ctx);

    assert!(!ctx.is_empty());
    assert_eq!(ctx.retrieved_memories.len(), 2);
    assert!(ctx.extra_instructions.is_some());
    assert_eq!(
        ctx.extra_instructions.as_deref(),
        Some("User memories:\n- [fact] User name: Alice\n- [fact] Likes Rust")
    );
}

#[test]
fn before_invoke_without_user_changes_nothing() {
    let mut provider = InMemoryProvider::new();
    let agent_id = AgentId::new("assistant");
    provider.store_memory(&agent_id, "alice", Memory::new("x"));
    let mut ctx = MemoryContext::new();
    provider.before_invoke(&agent_id, &AgentThread::new(), &mut ctx);
    assert!(ctx.is_empty());
    let thread = AgentThread::new().with_metadata("user_id", serde_json::Value::from(7u64));
    provider.before_invoke(&agent_id, &thread, &mut ctx);
    assert!(ctx.is_empty());
}

#[test]
fn memory_error_texts() {
    assert_eq!(MemoryError::storage("disk").to_string(), "Storage error: disk");
    assert_eq!(MemoryError::not_found("k").to_string(), "Memory not found: k");
    assert_eq!(MemoryError::serialization("s").to_string(), "Serialization error: s");
    assert_eq!(MemoryError::extraction("e").to_string(), "Extraction error: e");
    assert_eq!(MemoryError::internal("i").to_string(), "Internal error: i");
}
