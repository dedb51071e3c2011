//! Long-term memory for agents. A provider injects what it remembers of a
//! user before an agent runs, and can store new memories after.
//!
//! A memory's importance lies between 0 and 1; the library holds it in
//! millionths, as an integer from 0 to 1_000_000, and orders memories by it.
use vstd::prelude::*;
use crate::agent::response::AgentResponse;
use crate::agent::thread::AgentThread;
use crate::agent::types::{AgentId, ChatMessage, ChatRole};
use crate::clock::{now, Timestamp};
use crate::graph::types::{is_uuid_text, random_uuid_text};
use crate::json::{json_as_str, json_text};
use crate::keyed::{assoc_has, assoc_index, assoc_put, keys_unique, put_entry, text_keyed};
use crate::ranking::{
    as_ints, lemma_insert_ranked_distinct, lemma_ranked_distinct, lemma_ranked_prefix_members, lemma_ranked_sorted, rank_by_key,
    ranked, sorted_desc,
};
use crate::text::{append, join, join_strings, to_owned, views, TextLike};

verus! {

// ============================================================================
// MEMORY ERROR
// ============================================================================

/// Errors that can occur during memory operations.
#[derive(Debug)]
pub enum MemoryError {
    /// Storage backend error.
    StorageError(String),
    /// Memory not found.
    NotFound { key: String },
    /// Serialization error.
    SerializationError(String),
    /// Extraction failed.
    ExtractionError(String),
    /// Internal error.
    Internal(String),
}

/// The text a memory error is displayed as.
pub open spec fn memory_error_text(e: MemoryError) -> Seq<char> {
    match e {
        MemoryError::StorageError(m) => "Storage error: "@ + m@,
        MemoryError::NotFound { key } => "Memory not found: "@ + key@,
        MemoryError::SerializationError(m) => "Serialization error: "@ + m@,
        MemoryError::ExtractionError(m) => "Extraction error: "@ + m@,
        MemoryError::Internal(m) => "Internal error: "@ + m@,
    }
}

impl MemoryError {
    /// A storage error.
    pub fn storage(msg: impl TextLike) -> (r: Self)
        ensures
            r matches MemoryError::StorageError(m) && m@ == msg.text(),
    {
        MemoryError::StorageError(msg.into_string())
    }

    /// A missing memory.
    pub fn not_found(key: impl TextLike) -> (r: Self)
        ensures
            r matches MemoryError::NotFound { key: k } && k@ == key.text(),
    {
        MemoryError::NotFound { key: key.into_string() }
    }

    /// A serialization error.
    pub fn serialization(msg: impl TextLike) -> (r: Self)
        ensures
            r matches MemoryError::SerializationError(m) && m@ == msg.text(),
    {
        MemoryError::SerializationError(msg.into_string())
    }

    /// An extraction error.
    pub fn extraction(msg: impl TextLike) -> (r: Self)
        ensures
            r matches MemoryError::ExtractionError(m) && m@ == msg.text(),
    {
        MemoryError::ExtractionError(msg.into_string())
    }

    /// An internal error.
    pub fn internal(msg: impl TextLike) -> (r: Self)
        ensures
            r matches MemoryError::Internal(m) && m@ == msg.text(),
    {
        MemoryError::Internal(msg.into_string())
    }

    /// The text this error is displayed as.
    pub fn to_string(&self) -> (r: String)
        ensures
            r@ == memory_error_text(*self),
    {
        let mut s = String::new();
        match self {
            MemoryError::StorageError(m) => {
                append(&mut s, "Storage error: ");
                append(&mut s, m.as_str());
            },
            MemoryError::NotFound { key } => {
                append(&mut s, "Memory not found: ");
                append(&mut s, key.as_str());
            },
            MemoryError::SerializationError(m) => {
                append(&mut s, "Serialization error: ");
                append(&mut s, m.as_str());
            },
            MemoryError::ExtractionError(m) => {
                append(&mut s, "Extraction error: ");
                append(&mut s, m.as_str());
            },
            MemoryError::Internal(m) => {
                append(&mut s, "Internal error: ");
                append(&mut s, m.as_str());
            },
        }
        assert(s@ =~= memory_error_text(*self));
        s
    }
}

// ============================================================================
// MEMORY TYPES
// ============================================================================

/// Categories of memories.
#[derive(Debug, Clone, Copy, PartialEq, Eq, Structural)]
pub enum MemoryCategory {
    /// User preference (e.g., "prefers dark mode").
    UserPreference,
    /// Factual information (e.g., "user's name is Alice").
    Fact,
    /// Learned behavior or pattern.
    Learned,
    /// Task-specific context.
    Context,
    /// Conversation summary.
    Summary,
}

impl Default for MemoryCategory {
    fn default() -> (r: Self)
        ensures
            r == MemoryCategory::Fact,
    {
        MemoryCategory::Fact
    }
}

/// The short name of a category.
pub open spec fn category_name(c: MemoryCategory) -> Seq<char> {
    match c {
        MemoryCategory::UserPreference => "pref"@,
        MemoryCategory::Fact => "fact"@,
        MemoryCategory::Learned => "learned"@,
        MemoryCategory::Context => "ctx"@,
        MemoryCategory::Summary => "summary"@,
    }
}

/// Importance at its highest, in millionths.
pub const FULL_IMPORTANCE: u32 = 1_000_000;

/// A single memory entry.
#[derive(Debug)]
pub struct Memory {
    /// Unique memory identifier.
    pub id: String,
    /// Memory content.
    pub content: String,
    /// Memory category.
    pub category: MemoryCategory,
    /// Importance, in millionths: 0 to 1_000_000.
    pub importance: u32,
    /// When the memory was created.
    pub created_at: Timestamp,
    /// When the memory was last accessed.
    pub last_accessed: Option<Timestamp>,
    /// Metadata, one entry per key.
    pub metadata: Vec<(String, serde_json::Value)>,
}

fn clone_entries(v: &Vec<(String, serde_json::Value)>) -> (r: Vec<(String, serde_json::Value)>)
    ensures
        r@ == v@,
{
    let mut r: Vec<(String, serde_json::Value)> = Vec::new();
    let mut j: usize = 0;
    while j < v.len()
        invariant
            0 <= j <= v@.len(),
            r@ == v@.take(j as int),
        decreases v@.len() - j,
    {
        let k = v[j].0.clone();
        let x = v[j].1.clone();
        r.push((k, x));
        assert(r@ =~= v@.take(j + 1));
        j = j + 1;
    }
    assert(v@.take(v@.len() as int) =~= v@);
    r
}

/// `a` is a copy of `b`: the same fields, and metadata with the same
/// entries.
pub open spec fn copy_of(a: Memory, b: Memory) -> bool {
    &&& a.id == b.id
    &&& a.content == b.content
    &&& a.category == b.category
    &&& a.importance == b.importance
    &&& a.created_at == b.created_at
    &&& a.last_accessed == b.last_accessed
    &&& a.metadata@ == b.metadata@
}

impl Clone for Memory {
    fn clone(&self) -> (r: Self)
        ensures
            copy_of(r, *self),
    {
        Memory {
            id: self.id.clone(),
            content: self.content.clone(),
            category: self.category,
            importance: self.importance,
            created_at: self.created_at,
            last_accessed: self.last_accessed,
            metadata: clone_entries(&self.metadata),
        }
    }
}

impl Memory {
    /// The metadata, by key.
    pub open spec fn meta(&self) -> Seq<(Seq<char>, serde_json::Value)> {
        text_keyed(self.metadata@)
    }

    /// A new fact of middling importance (one half), created now, with a
    /// random UUID as its id.
    pub fn new(content: impl TextLike) -> (r: Self)
        ensures
            r.content@ == content.text(),
            r.category == MemoryCategory::Fact,
            r.importance == 500_000,
            r.last_accessed is None,
            r.meta().len() == 0,
            is_uuid_text(r.id@),
    {
        let r = Memory {
            id: random_uuid_text(),
            content: content.into_string(),
            category: MemoryCategory::Fact,
            importance: 500_000,
            created_at: now(),
            last_accessed: None,
            metadata: Vec::new(),
        };
        assert(r.meta() =~= Seq::<(Seq<char>, serde_json::Value)>::empty());
        r
    }

    /// The same memory in another category.
    pub fn with_category(self, category: MemoryCategory) -> (r: Self)
        ensures
            r == (Memory { category, ..self }),
    {
        Memory { category, ..self }
    }

    /// The same memory with another importance, in millionths, capped at
    /// one (1_000_000).
    pub fn with_importance(self, importance: u32) -> (r: Self)
        ensures
            r == (Memory { importance: if importance < FULL_IMPORTANCE { importance } else { FULL_IMPORTANCE }, ..self }),
    {
        let capped: u32 = if importance < FULL_IMPORTANCE { importance } else { FULL_IMPORTANCE };
        Memory { importance: capped, ..self }
    }

    /// The same memory with a metadata value set.
    pub fn with_metadata(self, key: impl TextLike, value: serde_json::Value) -> (r: Self)
        requires
            keys_unique(self.meta()),
        ensures
            keys_unique(r.meta()),
            r.meta() == assoc_put(self.meta(), key.text(), value),
            r.content == self.content,
            r.category == self.category,
            r.importance == self.importance,
    {
        let mut m = self;
        put_entry(&mut m.metadata, key.into_string(), value);
        m
    }

    /// The short name of the memory's category.
    pub fn category_str(&self) -> (r: &'static str)
        ensures
            r@ == category_name(self.category),
    {
        match self.category {
            MemoryCategory::UserPreference => "pref",
            MemoryCategory::Fact => "fact",
            MemoryCategory::Learned => "learned",
            MemoryCategory::Context => "ctx",
            MemoryCategory::Summary => "summary",
        }
    }
}

// ============================================================================
// ORDERING BY IMPORTANCE
// ============================================================================

/// The importances of `ms`, in order.
pub open spec fn importances(ms: Seq<Memory>) -> Seq<u32> {
    ms.map_values(|m: Memory| m.importance)
}

/// `ms` ordered by descending importance, ties in their order.
pub open spec fn by_importance(ms: Seq<Memory>) -> Seq<Memory> {
    ranked(importances(ms)).map_values(|i: int| ms[i])
}

fn importance_keys(ms: &Vec<Memory>) -> (r: Vec<u32>)
    ensures
        r@ == importances(ms@),
{
    let mut r: Vec<u32> = Vec::new();
    let mut j: usize = 0;
    while j < ms.len()
        invariant
            0 <= j <= ms@.len(),
            r@ == importances(ms@.take(j as int)),
        decreases ms@.len() - j,
    {
        r.push(ms[j].importance);
        assert(r@ =~= importances(ms@.take(j + 1)));
        j = j + 1;
    }
    assert(ms@.take(ms@.len() as int) =~= ms@);
    r
}

// ============================================================================
// USER MEMORIES
// ============================================================================

/// The memories of `ms` in the given category, in order.
pub open spec fn in_category(ms: Seq<Memory>, c: MemoryCategory) -> Seq<Memory>
    decreases ms.len(),
{
    if ms.len() == 0 {
        ms
    } else if ms.last().category == c {
        in_category(ms.drop_last(), c).push(ms.last())
    } else {
        in_category(ms.drop_last(), c)
    }
}

/// The line a memory contributes to a user's context: `- [category] content`.
pub open spec fn tagged_line(m: Memory) -> Seq<char> {
    "- ["@ + category_name(m.category) + "] "@ + m.content@
}

/// The line a memory contributes to an injected context: `- content`.
pub open spec fn bullet_line(m: Memory) -> Seq<char> {
    "- "@ + m.content@
}

/// The memories of one user with one agent.
#[derive(Debug)]
pub struct UserMemories {
    /// Agent these memories belong to.
    pub agent_id: AgentId,
    /// User these memories belong to.
    pub user_id: String,
    /// The memories.
    pub memories: Vec<Memory>,
}

impl UserMemories {
    /// No memories yet.
    pub fn new(agent_id: impl TextLike, user_id: impl TextLike) -> (r: Self)
        ensures
            r.agent_id@ == agent_id.text(),
            r.user_id@ == user_id.text(),
            r.memories@.len() == 0,
    {
        UserMemories { agent_id: AgentId::new(agent_id), user_id: user_id.into_string(), memories: Vec::new() }
    }

    /// Add a memory at the end.
    pub fn add(&mut self, memory: Memory)
        ensures
            final(self).memories@ == old(self).memories@.push(memory),
            final(self).agent_id == old(self).agent_id,
            final(self).user_id == old(self).user_id,
    {
        self.memories.push(memory);
    }

    /// Add several memories at the end, in order.
    pub fn extend(&mut self, memories: Vec<Memory>)
        ensures
            final(self).memories@ == old(self).memories@ + memories@,
            final(self).agent_id == old(self).agent_id,
            final(self).user_id == old(self).user_id,
    {
        let mut more = memories;
        self.memories.append(&mut more);
    }

    /// The memories in a category, in order.
    pub fn by_category(&self, category: MemoryCategory) -> (r: Vec<&Memory>)
        ensures
            r@.len() == in_category(self.memories@, category).len(),
            forall|i: int| 0 <= i < r@.len() ==> *r@[i] == in_category(self.memories@, category)[i],
    {
        let mut r: Vec<&Memory> = Vec::new();
        let mut j: usize = 0;
        while j < self.memories.len()
            invariant
                0 <= j <= self.memories@.len(),
                r@.len() == in_category(self.memories@.take(j as int), category).len(),
                forall|i: int| 0 <= i < r@.len() ==> *r@[i] == in_category(self.memories@.take(j as int), category)[i],
            decreases self.memories@.len() - j,
        {
            proof {
                assert(self.memories@.take(j + 1).drop_last() =~= self.memories@.take(j as int));
            }
            if self.memories[j].category == category {
                r.push(&self.memories[j]);
            }
            j = j + 1;
        }
        assert(self.memories@.take(self.memories@.len() as int) =~= self.memories@);
        r
    }

    /// The `n` most important memories, most important first; memories of
    /// equal importance keep their order.
    pub fn top_by_importance(&self, n: usize) -> (r: Vec<&Memory>)
        ensures
            r@.len() == if n < self.memories@.len() { n as int } else { self.memories@.len() as int },
            forall|i: int| 0 <= i < r@.len() ==> *r@[i] == by_importance(self.memories@)[i],
    {
        let keys = importance_keys(&self.memories);
        let order = rank_by_key(&keys);
        proof {
            lemma_ranked_prefix_members(keys@, keys@.len());
        }
        let limit: usize = if n < order.len() { n } else { order.len() };
        let mut r: Vec<&Memory> = Vec::new();
        let mut j: usize = 0;
        while j < limit
            invariant
                limit <= order@.len(),
                order@.len() == self.memories@.len(),
                keys@ == importances(self.memories@),
                as_ints(order@) == ranked(keys@),
                forall|k: int| 0 <= k < order@.len() ==> #[trigger] order@[k] < keys@.len(),
                0 <= j <= limit,
                r@.len() == j,
                forall|i: int| 0 <= i < j ==> *r@[i] == by_importance(self.memories@)[i],
            decreases limit - j,
        {
            let k = order[j];
            assert(k < self.memories@.len());
            r.push(&self.memories[k]);
            proof {
                assert(as_ints(order@)[j as int] == k as int);
                assert(by_importance(self.memories@)[j as int] == self.memories@[k as int]);
            }
            j = j + 1;
        }
        r
    }

    /// The memories as context lines, `- [category] content`, one per line.
    pub fn to_context_string(&self) -> (r: String)
        ensures
            r@ == join(self.memories@.map_values(|m: Memory| tagged_line(m)), "\n"@),
    {
        let mut lines: Vec<String> = Vec::new();
        let mut j: usize = 0;
        while j < self.memories.len()
            invariant
                0 <= j <= self.memories@.len(),
                lines@.len() == j,
                views(lines@) == self.memories@.take(j as int).map_values(|m: Memory| tagged_line(m)),
            decreases self.memories@.len() - j,
        {
            let ghost before = lines@;
            let mut line = to_owned("- [");
            append(&mut line, self.memories[j].category_str());
            append(&mut line, "] ");
            append(&mut line, self.memories[j].content.as_str());
            assert(line@ == tagged_line(self.memories@[j as int]));
            lines.push(line);
            proof {
                assert forall|i: int| 0 <= i < j implies lines@[i]@ == tagged_line(self.memories@[i]) by {
                    assert(lines@[i] == before[i]);
                    assert(views(before)[i] == self.memories@.take(j as int).map_values(|m: Memory| tagged_line(m))[i]);
                }
                assert(views(lines@) =~= self.memories@.take(j + 1).map_values(|m: Memory| tagged_line(m)));
            }
            j = j + 1;
        }
        assert(self.memories@.take(self.memories@.len() as int) =~= self.memories@);
        join_strings(lines.as_slice(), "\n")
    }
}

// ============================================================================
// MEMORY CONTEXT
// ============================================================================

/// Context that a memory provider injects into an agent invocation.
#[derive(Debug)]
pub struct MemoryContext {
    /// Extra instructions to prepend to the system prompt.
    pub extra_instructions: Option<String>,
    /// Additional system messages to inject.
    pub system_messages: Vec<ChatMessage>,
    /// Retrieved memories (for inspection).
    pub retrieved_memories: Vec<Memory>,
}

/// The parts of a context string: the instructions, when there are some,
/// then the retrieved memories as a bulleted list under a heading, when
/// there are some.
pub open spec fn context_parts(c: MemoryContext) -> Seq<Seq<char>> {
    (match c.extra_instructions {
        Some(i) => seq![i@],
        None => Seq::<Seq<char>>::empty(),
    }) + if c.retrieved_memories@.len() > 0 {
        seq!["Relevant memories:\n"@ + join(c.retrieved_memories@.map_values(|m: Memory| bullet_line(m)), "\n"@)]
    } else {
        Seq::<Seq<char>>::empty()
    }
}

impl Default for MemoryContext {
    fn default() -> (r: Self)
        ensures
            r.extra_instructions is None,
            r.system_messages@.len() == 0,
            r.retrieved_memories@.len() == 0,
    {
        MemoryContext { extra_instructions: None, system_messages: Vec::new(), retrieved_memories: Vec::new() }
    }
}

impl MemoryContext {
    /// An empty context.
    pub fn new() -> (r: Self)
        ensures
            r.extra_instructions is None,
            r.system_messages@.len() == 0,
            r.retrieved_memories@.len() == 0,
    {
        Self::default()
    }

    /// The same context with instructions.
    pub fn with_instructions(self, instructions: impl TextLike) -> (r: Self)
        ensures
            r.extra_instructions matches Some(i) && i@ == instructions.text(),
            r.system_messages == self.system_messages,
            r.retrieved_memories == self.retrieved_memories,
    {
        MemoryContext { extra_instructions: Some(instructions.into_string()), ..self }
    }

    /// Add a system message.
    pub fn add_system_message(&mut self, content: impl TextLike)
        ensures
            final(self).system_messages@.len() == old(self).system_messages@.len() + 1,
            final(self).system_messages@.drop_last() == old(self).system_messages@,
            final(self).system_messages@.last().role == ChatRole::System,
            final(self).system_messages@.last().content@ == content.text(),
            final(self).extra_instructions == old(self).extra_instructions,
            final(self).retrieved_memories == old(self).retrieved_memories,
    {
        let ghost before = self.system_messages@;
        self.system_messages.push(ChatMessage::system(content));
        assert(self.system_messages@.drop_last() =~= before);
    }

    /// Record a retrieved memory.
    pub fn add_memory(&mut self, memory: Memory)
        ensures
            final(self).retrieved_memories@ == old(self).retrieved_memories@.push(memory),
            final(self).extra_instructions == old(self).extra_instructions,
            final(self).system_messages == old(self).system_messages,
    {
        self.retrieved_memories.push(memory);
    }

    /// Whether there are no instructions, messages or memories.
    pub fn is_empty(&self) -> (r: bool)
        ensures
            r == (self.extra_instructions is None && self.system_messages@.len() == 0
                && self.retrieved_memories@.len() == 0),
    {
        self.extra_instructions.is_none() && self.system_messages.len() == 0 && self.retrieved_memories.len() == 0
    }

    /// The context to inject into a prompt: its parts separated by a blank
    /// line, or `None` when there are no parts.
    pub fn to_context_string(&self) -> (r: Option<String>)
        ensures
            context_parts(*self).len() == 0 ==> r is None,
            context_parts(*self).len() > 0 ==> (r matches Some(s) && s@ == join(context_parts(*self), "\n\n"@)),
    {
        if self.is_empty() {
            return None;
        }
        let mut parts: Vec<String> = Vec::new();
        match &self.extra_instructions {
            Some(i) => {
                parts.push(i.clone());
            },
            None => {},
        }
        if self.retrieved_memories.len() > 0 {
            let mut lines: Vec<String> = Vec::new();
            let mut j: usize = 0;
            while j < self.retrieved_memories.len()
                invariant
                    0 <= j <= self.retrieved_memories@.len(),
                    lines@.len() == j,
                    views(lines@) == self.retrieved_memories@.take(j as int).map_values(|m: Memory| bullet_line(m)),
                decreases self.retrieved_memories@.len() - j,
            {
                let ghost before = lines@;
                let mut line = to_owned("- ");
                append(&mut line, self.retrieved_memories[j].content.as_str());
                assert(line@ == bullet_line(self.retrieved_memories@[j as int]));
                lines.push(line);
                proof {
                    assert forall|i: int| 0 <= i < j implies lines@[i]@ == bullet_line(self.retrieved_memories@[i]) by {
                        assert(lines@[i] == before[i]);
                        assert(views(before)[i] == self.retrieved_memories@.take(j as int).map_values(|m: Memory| bullet_line(m))[i]);
                    }
                    assert(views(lines@) =~= self.retrieved_memories@.take(j + 1).map_values(|m: Memory| bullet_line(m)));
                }
                j = j + 1;
            }
            assert(self.retrieved_memories@.take(self.retrieved_memories@.len() as int) =~= self.retrieved_memories@);
            let listed = join_strings(lines.as_slice(), "\n");
            let mut part = to_owned("Relevant memories:\n");
            append(&mut part, listed.as_str());
            parts.push(part);
        }
        assert(views(parts@) =~= context_parts(*self));
        if parts.len() == 0 {
            None
        } else {
            Some(join_strings(parts.as_slice(), "\n\n"))
        }
    }
}

// ============================================================================
// IN-MEMORY PROVIDER
// ============================================================================

/// The memories kept after adding one: all of them while within `max`,
/// else the `max` most important.
pub open spec fn trimmed(ms: Seq<Memory>, max: nat) -> Seq<Memory> {
    if ms.len() > max {
        by_importance(ms).take(max as int)
    } else {
        ms
    }
}

/// The memories stored for an agent and a user: empty when none are.
pub open spec fn memories_for(storage: Seq<UserMemories>, agent: Seq<char>, user: Seq<char>) -> Seq<Memory> {
    if exists|i: int| 0 <= i < storage.len() && storage[i].agent_id@ == agent && storage[i].user_id@ == user {
        let i = choose|i: int| 0 <= i < storage.len() && storage[i].agent_id@ == agent && storage[i].user_id@ == user;
        storage[i].memories@
    } else {
        Seq::empty()
    }
}

/// Whether `storage` has an entry for the agent and the user.
pub open spec fn has_entry_for(storage: Seq<UserMemories>, agent: Seq<char>, user: Seq<char>) -> bool {
    exists|i: int| 0 <= i < storage.len() && storage[i].agent_id@ == agent && storage[i].user_id@ == user
}

/// No two entries of `storage` are for the same agent and user.
pub open spec fn pairs_unique(storage: Seq<UserMemories>) -> bool {
    forall|i: int, j: int|
        0 <= i < j < storage.len() ==> !(storage[i].agent_id@ == storage[j].agent_id@ && storage[i].user_id@
            == storage[j].user_id@)
}

/// The user a thread belongs to: its `user_id` metadata, when that is a
/// string.
pub open spec fn thread_user(thread: AgentThread) -> Option<Seq<char>> {
    if assoc_has(thread.meta(), "user_id"@) {
        json_text(thread.meta()[assoc_index(thread.meta(), "user_id"@)].1)
    } else {
        None
    }
}

fn into_slots(v: &mut Vec<Memory>) -> (r: Vec<Option<Memory>>)
    ensures
        r@.len() == old(v)@.len(),
        forall|k: int| 0 <= k < r@.len() ==> #[trigger] r@[k] == Some(old(v)@[k]),
{
    let ghost v0 = v@;
    let mut rest: Vec<Memory> = Vec::new();
    std::mem::swap(&mut rest, v);
    let mut r: Vec<Option<Memory>> = Vec::new();
    let ghost mut j: int = 0;
    while rest.len() > 0
        invariant
            0 <= j <= v0.len(),
            rest@ == v0.skip(j),
            r@.len() == j,
            forall|k: int| 0 <= k < j ==> #[trigger] r@[k] == Some(v0[k]),
        decreases rest@.len(),
    {
        let m = rest.remove(0);
        proof {
            assert(v0.skip(j)[0] == m);
        }
        r.push(Some(m));
        proof {
            j = j + 1;
            assert(rest@ =~= v0.skip(j));
        }
    }
    r
}

/// Ordering memories by importance rearranges them: each position of `ms`
/// appears once, and the importances never increase along the result.
pub proof fn lemma_by_importance_sorted_permutation(ms: Seq<Memory>)
    ensures
        by_importance(ms).len() == ms.len(),
        ranked(importances(ms)).no_duplicates(),
        forall|x: int| #[trigger] ranked(importances(ms)).contains(x) <==> 0 <= x < ms.len(),
        forall|a: int, b: int| 0 <= a < b < ms.len() ==> by_importance(ms)[a].importance >= by_importance(ms)[b].importance,
{
    let keys = importances(ms);
    lemma_ranked_prefix_members(keys, keys.len());
    lemma_ranked_distinct(keys, keys.len());
    lemma_ranked_sorted(keys, keys.len());
    let order = ranked(keys);
    assert forall|a: int, b: int| 0 <= a < b < ms.len() implies by_importance(ms)[a].importance >= by_importance(ms)[b].importance by {
        assert(keys[order[a]] >= keys[order[b]]);
    }
}

/// What a store keeps never exceeds the limit once it is exceeded, and
/// otherwise keeps everything.
pub proof fn lemma_trimmed_len(ms: Seq<Memory>, max: nat)
    ensures
        trimmed(ms, max).len() == if ms.len() > max { max } else { ms.len() },
{
    lemma_ranked_prefix_members(importances(ms), importances(ms).len());
}

/// A memory provider that keeps memories in memory, for a single process.
pub struct InMemoryProvider {
    storage: Vec<UserMemories>,
    max_memories: usize,
}

impl InMemoryProvider {
    /// The memories stored for an agent and a user.
    pub closed spec fn memories_of(&self, agent: Seq<char>, user: Seq<char>) -> Seq<Memory> {
        memories_for(self.storage@, agent, user)
    }

    /// Whether anything was ever stored for an agent and a user (and not
    /// cleared since).
    pub closed spec fn has_entry(&self, agent: Seq<char>, user: Seq<char>) -> bool {
        has_entry_for(self.storage@, agent, user)
    }

    /// The most memories kept for an agent and a user.
    pub closed spec fn limit(&self) -> nat {
        self.max_memories as nat
    }

    /// One entry per agent and user.
    pub closed spec fn wf(&self) -> bool {
        pairs_unique(self.storage@)
    }

    /// No memories, keeping at most 100 per agent and user.
    pub fn new() -> (r: Self)
        ensures
            r.wf(),
            r.limit() == 100,
            forall|a: Seq<char>, u: Seq<char>| #[trigger] r.memories_of(a, u).len() == 0,
    {
        InMemoryProvider { storage: Vec::new(), max_memories: 100 }
    }

    /// The same provider keeping at most `max` memories per agent and user.
    pub fn with_max_memories(self, max: usize) -> (r: Self)
        requires
            self.wf(),
        ensures
            r.wf(),
            r.limit() == max,
            forall|a: Seq<char>, u: Seq<char>| #[trigger] r.memories_of(a, u) == self.memories_of(a, u),
    {
        InMemoryProvider { max_memories: max, ..self }
    }

    fn position(&self, agent_id: &AgentId, user_id: &str) -> (r: Option<usize>)
        requires
            self.wf(),
        ensures
            r matches Some(i) ==> i < self.storage@.len() && self.storage@[i as int].agent_id@ == agent_id@
                && self.storage@[i as int].user_id@ == user_id@ && memories_for(self.storage@, agent_id@, user_id@)
                == self.storage@[i as int].memories@,
            r is None ==> forall|i: int| 0 <= i < self.storage@.len() ==> !(self.storage@[i].agent_id@ == agent_id@
                && self.storage@[i].user_id@ == user_id@),
            r is None ==> memories_for(self.storage@, agent_id@, user_id@).len() == 0,
    {
        let user = to_owned(user_id);
        let mut j: usize = 0;
        while j < self.storage.len()
            invariant
                user@ == user_id@,
                pairs_unique(self.storage@),
                0 <= j <= self.storage@.len(),
                forall|i: int| 0 <= i < j ==> !(self.storage@[i].agent_id@ == agent_id@ && self.storage@[i].user_id@ == user_id@),
            decreases self.storage@.len() - j,
        {
            if self.storage[j].agent_id == *agent_id && self.storage[j].user_id == user {
                proof {
                    let s = self.storage@;
                    let k = choose|i: int| 0 <= i < s.len() && s[i].agent_id@ == agent_id@ && s[i].user_id@ == user_id@;
                    assert(k == j) by {
                        if k != j {
                            if k < j {
                                assert(!(s[k].agent_id@ == s[j as int].agent_id@ && s[k].user_id@ == s[j as int].user_id@));
                            } else {
                                assert(!(s[j as int].agent_id@ == s[k].agent_id@ && s[j as int].user_id@ == s[k].user_id@));
                            }
                        }
                    }
                }
                return Some(j);
            }
            j = j + 1;
        }
        None
    }

    /// The memories stored for an agent and a user, in order.
    pub fn get_memories(&self, agent_id: &AgentId, user_id: &str) -> (r: Vec<&Memory>)
        requires
            self.wf(),
        ensures
            r@.len() == self.memories_of(agent_id@, user_id@).len(),
            forall|i: int| 0 <= i < r@.len() ==> *r@[i] == self.memories_of(agent_id@, user_id@)[i],
    {
        match self.position(agent_id, user_id) {
            Some(i) => {
                let ms = &self.storage[i].memories;
                let mut r: Vec<&Memory> = Vec::new();
                let mut j: usize = 0;
                while j < ms.len()
                    invariant
                        0 <= j <= ms@.len(),
                        r@.len() == j,
                        forall|k: int| 0 <= k < j ==> *r@[k] == ms@[k],
                    decreases ms@.len() - j,
                {
                    r.push(&ms[j]);
                    j = j + 1;
                }
                r
            },
            None => Vec::new(),
        }
    }

    /// Store a memory for an agent and a user. Beyond the limit, only the
    /// most important memories stay, most important first.
    pub fn store_memory(&mut self, agent_id: &AgentId, user_id: &str, memory: Memory)
        requires
            old(self).wf(),
        ensures
            final(self).wf(),
            final(self).limit() == old(self).limit(),
            final(self).memories_of(agent_id@, user_id@) == trimmed(
                old(self).memories_of(agent_id@, user_id@).push(memory),
                old(self).limit(),
            ),
            forall|a: Seq<char>, u: Seq<char>| !(a == agent_id@ && u == user_id@)
                ==> #[trigger] final(self).memories_of(a, u) == old(self).memories_of(a, u),
    {
        let ghost s0 = self.storage@;
        let (i, mut entry) = match self.position(agent_id, user_id) {
            Some(i) => (i, self.storage.remove(i)),
            None => (self.storage.len(), UserMemories::new(agent_id.clone(), user_id)),
        };
        let ghost before = entry.memories@;
        assert(before == memories_for(s0, agent_id@, user_id@));
        entry.add(memory);
        if entry.memories.len() > self.max_memories {
            let keys = importance_keys(&entry.memories);
            let order = rank_by_key(&keys);
            proof {
                lemma_ranked_prefix_members(keys@, keys@.len());
                lemma_ranked_distinct(keys@, keys@.len());
            }
            let ghost all = entry.memories@;
            let mut slots = into_slots(&mut entry.memories);
            let mut kept: Vec<Memory> = Vec::new();
            let mut j: usize = 0;
            while j < self.max_memories
                invariant
                    self.max_memories < all.len(),
                    order@.len() == all.len(),
                    slots@.len() == all.len(),
                    keys@ == importances(all),
                    as_ints(order@) == ranked(keys@),
                    forall|k: int| 0 <= k < order@.len() ==> #[trigger] order@[k] < keys@.len(),
                    ranked(keys@).no_duplicates(),
                    forall|k: int| 0 <= k < all.len() ==> (#[trigger] slots@[k] == Some(all[k]) || slots@[k] is None),
                    forall|t: int| j <= t < order@.len() ==> slots@[order@[t] as int] == Some(all[order@[t] as int]),
                    0 <= j <= self.max_memories,
                    kept@ == by_importance(all).take(j as int),
                decreases self.max_memories - j,
            {
                let k = order[j];
                let ghost slots0 = slots@;
                let taken = slots.remove(k);
                slots.insert(k, None);
                proof {
                    assert(as_ints(order@)[j as int] == k as int);
                    assert(taken == Some(all[k as int]));
                    assert(slots@ =~= slots0.update(k as int, None));
                    assert forall|t: int| j + 1 <= t < order@.len() implies slots@[order@[t] as int] == Some(all[order@[t] as int]) by {
                        assert(as_ints(order@)[t] != as_ints(order@)[j as int]);
                    }
                }
                match taken {
                    Some(m) => {
                        kept.push(m);
                    },
                    None => {},
                }
                proof {
                    assert(by_importance(all)[j as int] == all[k as int]);
                    assert(kept@ =~= by_importance(all).take(j + 1));
                }
                j = j + 1;
            }
            entry.memories = kept;
        }
        assert(entry.memories@ == trimmed(before.push(memory), self.max_memories as nat));
        self.storage.insert(i, entry);
        proof {
            lemma_store_updates_one(s0, self.storage@, i as int, agent_id@, user_id@);
        }
    }

    /// Forget what is stored for an agent and a user.
    pub fn clear_memories(&mut self, agent_id: &AgentId, user_id: &str)
        requires
            old(self).wf(),
        ensures
            final(self).wf(),
            final(self).limit() == old(self).limit(),
            final(self).memories_of(agent_id@, user_id@).len() == 0,
            forall|a: Seq<char>, u: Seq<char>| !(a == agent_id@ && u == user_id@)
                ==> #[trigger] final(self).memories_of(a, u) == old(self).memories_of(a, u),
    {
        let ghost s0 = self.storage@;
        match self.position(agent_id, user_id) {
            Some(i) => {
                self.storage.remove(i);
                proof {
                    lemma_remove_pair(s0, i as int, agent_id@, user_id@);
                }
            },
            None => {},
        }
    }

    /// Fill the context with what is remembered of the thread's user: the
    /// ten most important memories join the retrieved ones, and once any
    /// memory is retrieved the instructions list all of the user's memories.
    /// A thread without a user leaves the context as it was.
    pub fn before_invoke(&self, agent_id: &AgentId, thread: &AgentThread, ctx: &mut MemoryContext)
        requires
            self.wf(),
            thread.wf(),
        ensures
            thread_user(*thread) is None ==> *final(ctx) == *old(ctx),
            thread_user(*thread) matches Some(u) ==> (!self.has_entry(agent_id@, u) ==> *final(ctx) == *old(ctx)),
            thread_user(*thread) matches Some(u) ==> self.has_entry(agent_id@, u) ==> {
                let ms = self.memories_of(agent_id@, u);
                let top = by_importance(ms).take(if ms.len() < 10 { ms.len() as int } else { 10 });
                let n0 = old(ctx).retrieved_memories@.len();
                &&& final(ctx).retrieved_memories@.len() == n0 + top.len()
                &&& final(ctx).retrieved_memories@.take(n0 as int) == old(ctx).retrieved_memories@
                &&& forall|i: int| 0 <= i < top.len() ==> copy_of(#[trigger] final(ctx).retrieved_memories@[n0 + i], top[i])
                &&& final(ctx).system_messages == old(ctx).system_messages
                &&& (final(ctx).retrieved_memories@.len() > 0 ==> (final(ctx).extra_instructions matches Some(i)
                    && i@ == "User memories:\n"@ + join(ms.map_values(|m: Memory| tagged_line(m)), "\n"@)))
                &&& (final(ctx).retrieved_memories@.len() == 0 ==> final(ctx).extra_instructions
                    == old(ctx).extra_instructions)
            },
    {
        let user = match thread.get_metadata("user_id") {
            Some(v) => json_as_str(v),
            None => None,
        };
        let user_id = match user {
            Some(u) => u,
            None => {
                return;
            },
        };
        assert(thread_user(*thread) == Some(user_id@));
        match self.position(agent_id, user_id) {
            Some(i) => {
                let entry = &self.storage[i];
                let top = entry.top_by_importance(10);
                assert(self.has_entry(agent_id@, user_id@));
                assert(self.memories_of(agent_id@, user_id@) == entry.memories@);
                let ghost r0 = ctx.retrieved_memories@;
                let ghost n0 = r0.len();
                let mut j: usize = 0;
                while j < top.len()
                    invariant
                        0 <= j <= top@.len(),
                        r0.len() == n0,
                        ctx.retrieved_memories@.len() == n0 + j,
                        ctx.retrieved_memories@.take(n0 as int) == r0,
                        forall|i: int| 0 <= i < j ==> copy_of(#[trigger] ctx.retrieved_memories@[n0 + i], *top@[i]),
                        ctx.system_messages == old(ctx).system_messages,
                        ctx.extra_instructions == old(ctx).extra_instructions,
                    decreases top@.len() - j,
                {
                    let ghost before = ctx.retrieved_memories@;
                    ctx.add_memory(top[j].clone());
                    proof {
                        assert(ctx.retrieved_memories@.take(n0 as int) =~= before.take(n0 as int));
                        assert forall|i: int| 0 <= i < j + 1 implies copy_of(#[trigger] ctx.retrieved_memories@[n0 + i], *top@[i]) by {
                            if i < j {
                                assert(ctx.retrieved_memories@[n0 + i] == before[n0 + i]);
                            }
                        }
                    }
                    j = j + 1;
                }
                proof {
                    let ms = self.memories_of(agent_id@, user_id@);
                    let top_spec = by_importance(ms).take(if ms.len() < 10 { ms.len() as int } else { 10 });
                    assert(r0 == old(ctx).retrieved_memories@);
                    lemma_ranked_prefix_members(importances(ms), importances(ms).len());
                    assert(by_importance(ms).len() == ms.len());
                    assert(top@.len() == top_spec.len());
                    assert forall|i: int| 0 <= i < top_spec.len() implies copy_of(#[trigger] ctx.retrieved_memories@[n0 + i], top_spec[i]) by {
                        assert(*top@[i] == by_importance(entry.memories@)[i]);
                    }
                }
                if ctx.retrieved_memories.len() > 0 {
                    let mut text = to_owned("User memories:\n");
                    let listed = entry.to_context_string();
                    append(&mut text, listed.as_str());
                    ctx.extra_instructions = Some(text);
                }
            },
            None => {},
        }
    }

    /// Called after an agent invocation; this provider extracts nothing.
    pub fn after_invoke(&self, agent_id: &AgentId, thread: &AgentThread, response: &AgentResponse) -> (r: Result<(), MemoryError>)
        ensures
            r is Ok,
    {
        Ok(())
    }
}

proof fn lemma_store_updates_one(s0: Seq<UserMemories>, s1: Seq<UserMemories>, i: int, agent: Seq<char>, user: Seq<char>)
    requires
        pairs_unique(s0),
        0 <= i <= s0.len(),
        i < s0.len() ==> s0[i].agent_id@ == agent && s0[i].user_id@ == user,
        i == s0.len() ==> forall|k: int| 0 <= k < s0.len() ==> !(s0[k].agent_id@ == agent && s0[k].user_id@ == user),
        s1.len() == if i < s0.len() { s0.len() } else { s0.len() + 1 },
        s1[i].agent_id@ == agent && s1[i].user_id@ == user,
        forall|k: int| 0 <= k < s1.len() && k != i ==> s1[k] == s0[k],
    ensures
        pairs_unique(s1),
        memories_for(s1, agent, user) == s1[i].memories@,
        forall|a: Seq<char>, u: Seq<char>| !(a == agent && u == user) ==> #[trigger] memories_for(s1, a, u) == memories_for(s0, a, u),
{
    assert forall|x: int, y: int| 0 <= x < y < s1.len() implies !(s1[x].agent_id@ == s1[y].agent_id@ && s1[x].user_id@
        == s1[y].user_id@) by {
        if x != i && y != i {
            assert(s1[x] == s0[x] && s1[y] == s0[y]);
        } else if x == i {
            assert(s1[y] == s0[y]);
        } else {
            assert(s1[x] == s0[x]);
        }
    }
    assert(0 <= i < s1.len());
    let k = choose|k: int| 0 <= k < s1.len() && s1[k].agent_id@ == agent && s1[k].user_id@ == user;
    assert(k == i) by {
        if k != i {
            if k < i {
                assert(!(s1[k].agent_id@ == s1[i].agent_id@ && s1[k].user_id@ == s1[i].user_id@));
            } else {
                assert(!(s1[i].agent_id@ == s1[k].agent_id@ && s1[i].user_id@ == s1[k].user_id@));
            }
        }
    }
    assert forall|a: Seq<char>, u: Seq<char>| !(a == agent && u == user) implies #[trigger] memories_for(s1, a, u)
        == memories_for(s0, a, u) by {
        let in1 = exists|x: int| 0 <= x < s1.len() && s1[x].agent_id@ == a && s1[x].user_id@ == u;
        let in0 = exists|x: int| 0 <= x < s0.len() && s0[x].agent_id@ == a && s0[x].user_id@ == u;
        if in1 {
            let x1 = choose|x: int| 0 <= x < s1.len() && s1[x].agent_id@ == a && s1[x].user_id@ == u;
            assert(x1 != i);
            assert(s1[x1] == s0[x1]);
            assert(in0);
            let x0 = choose|x: int| 0 <= x < s0.len() && s0[x].agent_id@ == a && s0[x].user_id@ == u;
            assert(x0 == x1) by {
                if x0 != x1 {
                    if x0 < x1 {
                        assert(!(s0[x0].agent_id@ == s0[x1].agent_id@ && s0[x0].user_id@ == s0[x1].user_id@));
                    } else {
                        assert(!(s0[x1].agent_id@ == s0[x0].agent_id@ && s0[x1].user_id@ == s0[x0].user_id@));
                    }
                }
            }
        } else {
            if in0 {
                let x0 = choose|x: int| 0 <= x < s0.len() && s0[x].agent_id@ == a && s0[x].user_id@ == u;
                if x0 != i {
                    assert(s1[x0] == s0[x0]);
                } else {
                    assert(s0[x0].agent_id@ == agent && s0[x0].user_id@ == user);
                }
            }
        }
    }
}

proof fn lemma_remove_pair(s0: Seq<UserMemories>, i: int, agent: Seq<char>, user: Seq<char>)
    requires
        pairs_unique(s0),
        0 <= i < s0.len(),
        s0[i].agent_id@ == agent && s0[i].user_id@ == user,
    ensures
        pairs_unique(s0.remove(i)),
        memories_for(s0.remove(i), agent, user).len() == 0,
        forall|a: Seq<char>, u: Seq<char>| !(a == agent && u == user) ==> #[trigger] memories_for(s0.remove(i), a, u)
            == memories_for(s0, a, u),
{
    let s1 = s0.remove(i);
    assert forall|x: int| 0 <= x < s1.len() implies s1[x] == s0[if x < i { x } else { x + 1 }] by {}
    assert forall|x: int, y: int| 0 <= x < y < s1.len() implies !(s1[x].agent_id@ == s1[y].agent_id@ && s1[x].user_id@
        == s1[y].user_id@) by {
        let x0 = if x < i { x } else { x + 1 };
        let y0 = if y < i { y } else { y + 1 };
        assert(s1[x] == s0[x0] && s1[y] == s0[y0]);
    }
    if exists|x: int| 0 <= x < s1.len() && s1[x].agent_id@ == agent && s1[x].user_id@ == user {
        let x = choose|x: int| 0 <= x < s1.len() && s1[x].agent_id@ == agent && s1[x].user_id@ == user;
        let x0 = if x < i { x } else { x + 1 };
        assert(s1[x] == s0[x0]);
        if x0 < i {
            assert(!(s0[x0].agent_id@ == s0[i].agent_id@ && s0[x0].user_id@ == s0[i].user_id@));
        } else {
            assert(!(s0[i].agent_id@ == s0[x0].agent_id@ && s0[i].user_id@ == s0[x0].user_id@));
        }
    }
    assert forall|a: Seq<char>, u: Seq<char>| !(a == agent && u == user) implies #[trigger] memories_for(s1, a, u)
        == memories_for(s0, a, u) by {
        let in1 = exists|x: int| 0 <= x < s1.len() && s1[x].agent_id@ == a && s1[x].user_id@ == u;
        let in0 = exists|x: int| 0 <= x < s0.len() && s0[x].agent_id@ == a && s0[x].user_id@ == u;
        if in0 {
            let x0 = choose|x: int| 0 <= x < s0.len() && s0[x].agent_id@ == a && s0[x].user_id@ == u;
            assert(x0 != i);
            let x1 = if x0 < i { x0 } else { x0 - 1 };
            assert(s1[x1] == s0[x0]);
            assert(in1);
            let y1 = choose|x: int| 0 <= x < s1.len() && s1[x].agent_id@ == a && s1[x].user_id@ == u;
            assert(y1 == x1) by {
                if y1 != x1 {
                    if y1 < x1 {
                        assert(!(s1[y1].agent_id@ == s1[x1].agent_id@ && s1[y1].user_id@ == s1[x1].user_id@));
                    } else {
                        assert(!(s1[x1].agent_id@ == s1[y1].agent_id@ && s1[x1].user_id@ == s1[y1].user_id@));
                    }
                }
            }
        } else if in1 {
            let y1 = choose|x: int| 0 <= x < s1.len() && s1[x].agent_id@ == a && s1[x].user_id@ == u;
            let y0 = if y1 < i { y1 } else { y1 + 1 };
            assert(s1[y1] == s0[y0]);
        }
    }
}

// ============================================================================
// NO-OP PROVIDER
// ============================================================================

/// A memory provider that remembers nothing.
#[derive(Debug, Clone, Copy, Default)]
pub struct NoOpMemoryProvider;

impl NoOpMemoryProvider {
    /// Leaves the context as it is.
    pub fn before_invoke(&self, agent_id: &AgentId, thread: &AgentThread, ctx: &mut MemoryContext)
        ensures
            *final(ctx) == *old(ctx),
    {
    }

    /// Extracts nothing.
    pub fn after_invoke(&self, agent_id: &AgentId, thread: &AgentThread, response: &AgentResponse) -> (r: Result<(), MemoryError>)
        ensures
            r is Ok,
    {
        Ok(())
    }

    /// Remembers nothing.
    pub fn get_memories(&self, agent_id: &AgentId, user_id: &str) -> (r: Vec<Memory>)
        ensures
            r@.len() == 0,
    {
        Vec::new()
    }

    /// Stores nothing.
    pub fn store_memory(&self, agent_id: &AgentId, user_id: &str, memory: Memory) {
    }

    /// Has nothing to clear.
    pub fn clear_memories(&self, agent_id: &AgentId, user_id: &str) {
    }
}

} // verus!
