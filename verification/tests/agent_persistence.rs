use agentic_core::agent::persistence::{
    index_with_thread, index_without_thread, InMemoryThreadStore, ThreadStoreError, BUCKET_THREADS,
    BUCKET_THREAD_INDEX,
};
use agentic_core::agent::thread::AgentThread;
use agentic_core::agent::types::{AgentId, ChatMessage, ThreadId};
use agentic_core::clock::Timestamp;

#[test]
fn test_in_memory_store_save_load() {
    let mut store = InMemoryThreadStore::new();

    let mut thread = AgentThread::for_agent("test-agent");
    thread.add_message(ChatMessage::user("Hello"));
    thread.add_message(ChatMessage::assistant("Hi there!"));
    let id = thread.id.clone();

    store.save(thread);

    let loaded = store.load(&id).unwrap();
    assert_eq!(loaded.id, id);
    assert_eq!(loaded.message_count(), 2);
}

#[test]
fn test_in_memory_store_delete() {
    let mut store = InMemoryThreadStore::new();

    let thread = AgentThread::new();
    let id = thread.id.clone();
    store.save(thread);

    assert!(store.thread_exists(&id));

    store.delete(&id);

    assert!(!store.thread_exists(&id));
}

#[test]
fn test_in_memory_store_list_by_agent() {
    let mut store = InMemoryThreadStore::new();
    let agent_id = AgentId::new("my-agent");

    for i in 0..3 {
        let mut thread = AgentThread::for_agent(agent_id.clone());
        thread.add_message(ChatMessage::user(format!("Message {}", i)));
        store.save(thread);
    }

    let other_thread = AgentThread::for_agent("other-agent");
    store.save(other_thread);

    let summaries = store.list_by_agent(&agent_id);
    assert_eq!(summaries.len(), 3);
    assert_eq!(store.list_all().len(), 4);
}

#[test]
fn listings_put_the_most_recent_first() {
    let mut store = InMemoryThreadStore::new();
    for (name, secs) in [("a", 10i64), ("b", 30), ("c", 20), ("d", 30)] {
        let mut thread = AgentThread::with_id(name);
        thread.updated_at = Timestamp { secs, nanos: 0 };
        store.save(thread);
    }
    let order: Vec<String> = store.list_all().iter().map(|s| s.id.to_string()).collect();
    assert_eq!(order, vec!["b", "d", "c", "a"]);
}

#[test]
fn test_in_memory_store_delete_by_agent() {
    let mut store = InMemoryThreadStore::new();
    let agent_id = AgentId::new("my-agent");

    for _ in 0..3 {
        let thread = AgentThread::for_agent(agent_id.clone());
        store.save(thread);
    }
    store.save(AgentThread::for_agent("someone-else"));

    let count = store.delete_by_agent(&agent_id);
    assert_eq!(count, 3);

    let summaries = store.list_by_agent(&agent_id);
    assert!(summaries.is_empty());
    assert_eq!(store.list_all().len(), 1);
}

#[test]
fn agent_index_adds_once_and_removes_all() {
    let id = ThreadId::new("t2");
    let ids = vec!["t1".to_string()];
    let added = index_with_thread(&ids, &id).unwrap();
    assert_eq!(added, vec!["t1".to_string(), "t2".to_string()]);
    assert!(index_with_thread(&added, &id).is_none());
    let mixed = vec!["t2".to_string(), "t1".to_string(), "t2".to_string()];
    assert_eq!(index_without_thread(&mixed, &id), vec!["t1".to_string()]);
    assert!(index_without_thread(&vec!["t2".to_string()], &id).is_empty());
}

#[test]
fn thread_store_texts() {
    assert_eq!(BUCKET_THREADS, "AGENTIC_THREADS");
    assert_eq!(BUCKET_THREAD_INDEX, "AGENTIC_THREAD_INDEX");
    assert_eq!(ThreadStoreError::NotFound("t".into()).to_string(), "Thread not found: t");
    assert_eq!(ThreadStoreError::ConnectionError("c".into()).to_string(), "Connection error: c");
}
