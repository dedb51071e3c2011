//! Agent threads: the conversation an agent holds with its users, as the
//! messages exchanged so far, with turn and token counts and metadata.
use vstd::prelude::*;
use crate::agent::types::{AgentId, ChatMessage, ChatRole, ThreadId};
use crate::clock::{now, Timestamp};
use crate::keyed::{assoc_has, assoc_index, assoc_put, get_entry, keys_unique, put_entry, text_keyed};
use crate::text::{chars_of, has_prefix, string_of_range, TextLike};

verus! {

/// Whether adding `m` after the messages `prior` starts a new turn: a user
/// message that opens the conversation or follows an assistant message.
pub open spec fn starts_turn(prior: Seq<ChatMessage>, m: ChatMessage) -> bool {
    m.role == ChatRole::User && (prior.len() == 0 || prior.last().role == ChatRole::Assistant)
}

/// The number of turns in a conversation: the user messages that open it
/// or follow an assistant message.
pub open spec fn turns(msgs: Seq<ChatMessage>) -> nat
    decreases msgs.len(),
{
    if msgs.len() == 0 {
        0
    } else {
        turns(msgs.drop_last()) + if starts_turn(msgs.drop_last(), msgs.last()) { 1nat } else { 0nat }
    }
}

/// The messages of `msgs` that are not system messages, in order.
pub open spec fn non_system(msgs: Seq<ChatMessage>) -> Seq<ChatMessage>
    decreases msgs.len(),
{
    if msgs.len() == 0 {
        msgs
    } else if msgs.last().role == ChatRole::System {
        non_system(msgs.drop_last())
    } else {
        non_system(msgs.drop_last()).push(msgs.last())
    }
}

/// The position of the last message of `msgs` with the given role, if any.
pub open spec fn last_with_role(msgs: Seq<ChatMessage>, role: ChatRole) -> Option<int>
    decreases msgs.len(),
{
    if msgs.len() == 0 {
        None
    } else if msgs.last().role == role {
        Some(msgs.len() - 1)
    } else {
        last_with_role(msgs.drop_last(), role)
    }
}

proof fn lemma_last_with_role_bounds(msgs: Seq<ChatMessage>, role: ChatRole)
    ensures
        last_with_role(msgs, role) matches Some(i) ==> 0 <= i < msgs.len() && msgs[i].role == role,
    decreases msgs.len(),
{
    if msgs.len() > 0 && msgs.last().role != role {
        lemma_last_with_role_bounds(msgs.drop_last(), role);
    }
}

/// A conversation thread.
pub struct AgentThread {
    /// Unique thread identifier.
    pub id: ThreadId,
    /// Agent that created this thread.
    pub created_by: Option<AgentId>,
    /// Messages in the conversation.
    pub messages: Vec<ChatMessage>,
    /// When the thread was created.
    pub created_at: Timestamp,
    /// When the thread was last updated.
    pub updated_at: Timestamp,
    /// Custom metadata, one entry per key, in the order keys were first set.
    pub metadata: Vec<(String, serde_json::Value)>,
    /// System prompt for this thread.
    pub system_prompt: Option<String>,
    /// Number of user turns.
    pub turn_count: u32,
    /// Total tokens used.
    pub total_tokens: u64,
}

impl AgentThread {
    /// The metadata, by key.
    pub open spec fn meta(&self) -> Seq<(Seq<char>, serde_json::Value)> {
        text_keyed(self.metadata@)
    }

    /// The turn count agrees with the messages, and each metadata key
    /// appears once.
    pub open spec fn wf(&self) -> bool {
        &&& self.turn_count == turns(self.messages@)
        &&& keys_unique(self.meta())
    }

    fn empty_with(id: ThreadId) -> (r: Self)
        ensures
            r.wf(),
            r.id == id,
            r.created_by is None,
            r.messages@.len() == 0,
            r.meta().len() == 0,
            r.system_prompt is None,
            r.turn_count == 0,
            r.total_tokens == 0,
    {
        let t = now();
        let r = AgentThread {
            id,
            created_by: None,
            messages: Vec::new(),
            created_at: t,
            updated_at: t,
            metadata: Vec::new(),
            system_prompt: None,
            turn_count: 0,
            total_tokens: 0,
        };
        assert(r.meta() =~= Seq::<(Seq<char>, serde_json::Value)>::empty());
        r
    }

    /// A new, empty thread with a fresh identifier.
    pub fn new() -> (r: Self)
        ensures
            r.wf(),
            has_prefix(r.id@, "thread-"@),
            r.created_by is None,
            r.messages@.len() == 0,
            r.meta().len() == 0,
            r.system_prompt is None,
            r.turn_count == 0,
            r.total_tokens == 0,
    {
        Self::empty_with(ThreadId::generate())
    }

    /// A new, empty thread with the given identifier.
    pub fn with_id(id: impl TextLike) -> (r: Self)
        ensures
            r.wf(),
            r.id@ == id.text(),
            r.created_by is None,
            r.messages@.len() == 0,
            r.meta().len() == 0,
            r.system_prompt is None,
            r.turn_count == 0,
            r.total_tokens == 0,
    {
        Self::empty_with(ThreadId::new(id))
    }

    /// A new, empty thread created by the given agent.
    pub fn for_agent(agent_id: impl TextLike) -> (r: Self)
        ensures
            r.wf(),
            has_prefix(r.id@, "thread-"@),
            r.created_by matches Some(a) && a@ == agent_id.text(),
            r.messages@.len() == 0,
            r.meta().len() == 0,
            r.system_prompt is None,
            r.turn_count == 0,
            r.total_tokens == 0,
    {
        let mut thread = Self::new();
        thread.created_by = Some(AgentId::new(agent_id));
        thread
    }

    /// The same thread with a system prompt.
    pub fn with_system_prompt(self, prompt: impl TextLike) -> (r: Self)
        ensures
            r.system_prompt matches Some(p) && p@ == prompt.text(),
            r.id == self.id,
            r.created_by == self.created_by,
            r.messages == self.messages,
            r.metadata == self.metadata,
            r.turn_count == self.turn_count,
            r.total_tokens == self.total_tokens,
    {
        let mut t = self;
        t.system_prompt = Some(prompt.into_string());
        t
    }

    /// The same thread with a metadata value set.
    pub fn with_metadata(self, key: impl TextLike, value: serde_json::Value) -> (r: Self)
        requires
            self.wf(),
        ensures
            r.wf(),
            r.meta() == assoc_put(self.meta(), key.text(), value),
            r.id == self.id,
            r.messages == self.messages,
            r.system_prompt == self.system_prompt,
            r.turn_count == self.turn_count,
            r.total_tokens == self.total_tokens,
    {
        let mut t = self;
        put_entry(&mut t.metadata, key.into_string(), value);
        t
    }

    /// Add a message; a user message that opens the conversation or follows
    /// an assistant message starts a new turn.
    pub fn add_message(&mut self, message: ChatMessage)
        requires
            old(self).wf(),
            starts_turn(old(self).messages@, message) ==> old(self).turn_count < u32::MAX,
        ensures
            final(self).wf(),
            final(self).messages@ == old(self).messages@.push(message),
            final(self).turn_count == old(self).turn_count + if starts_turn(old(self).messages@, message) { 1int } else { 0int },
            final(self).id == old(self).id,
            final(self).created_by == old(self).created_by,
            final(self).metadata == old(self).metadata,
            final(self).system_prompt == old(self).system_prompt,
            final(self).total_tokens == old(self).total_tokens,
    {
        let ghost prior = self.messages@;
        let n = self.messages.len();
        let opens = n == 0 || self.messages[n - 1].is_assistant();
        if message.is_user() && opens {
            self.turn_count = self.turn_count + 1;
        }
        self.messages.push(message);
        self.updated_at = now();
        assert(self.messages@.drop_last() =~= prior);
    }

    /// Add several messages in order.
    pub fn add_messages(&mut self, messages: Vec<ChatMessage>)
        requires
            old(self).wf(),
            turns(old(self).messages@ + messages@) <= u32::MAX,
        ensures
            final(self).wf(),
            final(self).messages@ == old(self).messages@ + messages@,
            final(self).id == old(self).id,
            final(self).metadata == old(self).metadata,
            final(self).system_prompt == old(self).system_prompt,
            final(self).total_tokens == old(self).total_tokens,
    {
        let ghost all = self.messages@ + messages@;
        let ghost m0 = self.messages@;
        let mut j: usize = 0;
        while j < messages.len()
            invariant
                self.wf(),
                all == m0 + messages@,
                turns(all) <= u32::MAX,
                0 <= j <= messages@.len(),
                self.messages@ == m0 + messages@.take(j as int),
                self.id == old(self).id,
                self.metadata == old(self).metadata,
                self.system_prompt == old(self).system_prompt,
                self.total_tokens == old(self).total_tokens,
            decreases messages@.len() - j,
        {
            proof {
                assert((m0 + messages@.take(j + 1)).drop_last() =~= m0 + messages@.take(j as int));
                assert(all.take(m0.len() + j + 1) =~= m0 + messages@.take(j + 1));
                lemma_turns_prefix(all, m0.len() + j + 1);
            }
            self.add_message(messages[j].clone());
            proof {
                assert(self.messages@ =~= m0 + messages@.take(j + 1));
            }
            j = j + 1;
        }
        assert(messages@.take(messages@.len() as int) =~= messages@);
    }

    /// Add an assistant response, and its token count when known.
    pub fn add_response(&mut self, content: impl TextLike, tokens: Option<u32>)
        requires
            old(self).wf(),
            tokens matches Some(t) ==> old(self).total_tokens + t <= u64::MAX,
        ensures
            final(self).wf(),
            final(self).messages@.len() == old(self).messages@.len() + 1,
            final(self).messages@.drop_last() == old(self).messages@,
            final(self).messages@.last().role == ChatRole::Assistant,
            final(self).messages@.last().content@ == content.text(),
            final(self).turn_count == old(self).turn_count,
            final(self).total_tokens == old(self).total_tokens + match tokens {
                Some(t) => t as int,
                None => 0int,
            },
    {
        let message = ChatMessage::assistant(content);
        self.add_message(message);
        match tokens {
            Some(t) => {
                self.total_tokens = self.total_tokens + t as u64;
            },
            None => {},
        }
    }

    /// The messages to send to a model: the system prompt first, when there
    /// is one, then the conversation without its system messages.
    pub fn messages_for_llm(&self) -> (r: Vec<ChatMessage>)
        ensures
            match self.system_prompt {
                Some(p) => {
                    &&& r@.len() >= 1
                    &&& r@[0].role == ChatRole::System
                    &&& r@[0].content@ == p@
                    &&& r@.skip(1) == non_system(self.messages@)
                },
                None => r@ == non_system(self.messages@),
            },
    {
        let mut r: Vec<ChatMessage> = Vec::new();
        match &self.system_prompt {
            Some(p) => {
                r.push(ChatMessage::system(p.as_str()));
            },
            None => {},
        }
        let ghost k: int = r@.len() as int;
        let ghost head = r@;
        let mut j: usize = 0;
        while j < self.messages.len()
            invariant
                0 <= j <= self.messages@.len(),
                k == head.len(),
                k <= 1,
                r@ == head + non_system(self.messages@.take(j as int)),
            decreases self.messages@.len() - j,
        {
            proof {
                assert(self.messages@.take(j + 1).drop_last() =~= self.messages@.take(j as int));
            }
            if !self.messages[j].is_system() {
                r.push(self.messages[j].clone());
                proof {
                    assert(r@ =~= head + non_system(self.messages@.take(j + 1)));
                }
            }
            j = j + 1;
        }
        assert(self.messages@.take(self.messages@.len() as int) =~= self.messages@);
        assert(r@.skip(k) =~= non_system(self.messages@));
        r
    }

    /// The last `n` messages (all of them when there are fewer).
    pub fn last_messages(&self, n: usize) -> (r: &[ChatMessage])
        ensures
            r@ == self.messages@.skip(if n < self.messages@.len() { self.messages@.len() - n } else { 0 }),
    {
        let len = self.messages.len();
        let start = if n < len { len - n } else { 0 };
        let r = vstd::slice::slice_subrange(self.messages.as_slice(), start, len);
        assert(r@ =~= self.messages@.skip(start as int));
        r
    }

    fn last_with(&self, role: ChatRole) -> (r: Option<&ChatMessage>)
        ensures
            match last_with_role(self.messages@, role) {
                Some(i) => r == Some(&self.messages@[i]),
                None => r is None,
            },
    {
        let mut j = self.messages.len();
        assert(self.messages@.take(j as int) =~= self.messages@);
        while j > 0
            invariant
                j <= self.messages@.len(),
                last_with_role(self.messages@, role) == last_with_role(self.messages@.take(j as int), role),
            decreases j,
        {
            let ghost pre = self.messages@.take(j as int);
            assert(pre.drop_last() =~= self.messages@.take(j - 1));
            if self.messages[j - 1].role == role {
                assert(pre.last() == self.messages@[j - 1]);
                return Some(&self.messages[j - 1]);
            }
            j = j - 1;
        }
        None
    }

    /// The most recent user message.
    pub fn last_user_message(&self) -> (r: Option<&ChatMessage>)
        ensures
            match last_with_role(self.messages@, ChatRole::User) {
                Some(i) => r == Some(&self.messages@[i]),
                None => r is None,
            },
    {
        self.last_with(ChatRole::User)
    }

    /// The most recent assistant message.
    pub fn last_assistant_message(&self) -> (r: Option<&ChatMessage>)
        ensures
            match last_with_role(self.messages@, ChatRole::Assistant) {
                Some(i) => r == Some(&self.messages@[i]),
                None => r is None,
            },
    {
        self.last_with(ChatRole::Assistant)
    }

    /// Remove all messages; the turn count restarts.
    pub fn clear_messages(&mut self)
        requires
            old(self).wf(),
        ensures
            final(self).wf(),
            final(self).messages@.len() == 0,
            final(self).turn_count == 0,
            final(self).metadata == old(self).metadata,
            final(self).system_prompt == old(self).system_prompt,
            final(self).total_tokens == old(self).total_tokens,
    {
        self.messages.clear();
        self.turn_count = 0;
        self.updated_at = now();
    }

    /// The number of messages.
    pub fn message_count(&self) -> (r: usize)
        ensures
            r == self.messages@.len(),
    {
        self.messages.len()
    }

    /// Whether there are no messages.
    pub fn is_empty(&self) -> (r: bool)
        ensures
            r == (self.messages@.len() == 0),
    {
        self.messages.len() == 0
    }

    /// The metadata value under `key`.
    pub fn get_metadata(&self, key: &str) -> (r: Option<&serde_json::Value>)
        requires
            self.wf(),
        ensures
            r is None <==> !assoc_has(self.meta(), key@),
            r matches Some(v) ==> *v == self.meta()[assoc_index(self.meta(), key@)].1,
    {
        get_entry(&self.metadata, key)
    }

    /// Set a metadata value.
    pub fn set_metadata(&mut self, key: impl TextLike, value: serde_json::Value)
        requires
            old(self).wf(),
        ensures
            final(self).wf(),
            final(self).meta() == assoc_put(old(self).meta(), key.text(), value),
            final(self).messages == old(self).messages,
            final(self).turn_count == old(self).turn_count,
            final(self).system_prompt == old(self).system_prompt,
    {
        put_entry(&mut self.metadata, key.into_string(), value);
        self.updated_at = now();
    }
}

proof fn lemma_turns_prefix(msgs: Seq<ChatMessage>, j: int)
    requires
        0 <= j <= msgs.len(),
    ensures
        turns(msgs.take(j)) <= turns(msgs),
    decreases msgs.len() - j,
{
    if j < msgs.len() {
        assert(msgs.take(j + 1).drop_last() =~= msgs.take(j));
        lemma_turns_prefix(msgs, j + 1);
    } else {
        assert(msgs.take(j) =~= msgs);
    }
}

/// Setting a metadata value and reading it back gives the value set.
pub proof fn lemma_metadata_read_after_write(meta: Seq<(Seq<char>, serde_json::Value)>, key: Seq<char>, value: serde_json::Value)
    requires
        keys_unique(meta),
    ensures
        assoc_has(assoc_put(meta, key, value), key),
        assoc_put(meta, key, value)[assoc_index(assoc_put(meta, key, value), key)].1 == value,
{
    let m = assoc_put(meta, key, value);
    if assoc_has(meta, key) {
        let i = assoc_index(meta, key);
        assert(m[i].0 == key);
    } else {
        assert(m[meta.len() as int].0 == key);
    }
    assert(assoc_has(m, key));
    let k = assoc_index(m, key);
    assert(m[k].0 == key);
    if assoc_has(meta, key) {
        let i = assoc_index(meta, key);
        if k != i {
            assert(meta[k].0 == m[k].0);
        }
    } else {
        if k != meta.len() {
            assert(meta[k].0 == m[k].0);
        }
    }
}

// ============================================================================
// THREAD SUMMARY
// ============================================================================

/// The first `n` characters of `s` (all of it when shorter).
pub open spec fn first_chars(s: Seq<char>, n: nat) -> Seq<char> {
    if s.len() <= n { s } else { s.take(n as int) }
}

/// A summary of a thread, for listing.
pub struct ThreadSummary {
    pub id: ThreadId,
    pub created_by: Option<AgentId>,
    pub created_at: Timestamp,
    pub updated_at: Timestamp,
    pub message_count: usize,
    pub turn_count: u32,
    /// The first 100 characters of the last user message.
    pub preview: Option<String>,
}

impl ThreadSummary {
    /// The summary of a thread.
    pub fn of_thread(thread: &AgentThread) -> (r: Self)
        ensures
            r.id == thread.id,
            r.created_by == thread.created_by,
            r.created_at == thread.created_at,
            r.updated_at == thread.updated_at,
            r.message_count == thread.messages@.len(),
            r.turn_count == thread.turn_count,
            match last_with_role(thread.messages@, ChatRole::User) {
                Some(i) => r.preview matches Some(p) && p@ == first_chars(thread.messages@[i].content@, 100),
                None => r.preview is None,
            },
    {
        let preview = match thread.last_user_message() {
            Some(m) => {
                let cs = chars_of(m.content.as_str());
                let end: usize = if cs.len() <= 100 { cs.len() } else { 100 };
                let p = string_of_range(&cs, 0, end);
                assert(p@ =~= first_chars(m.content@, 100));
                Some(p)
            },
            None => None,
        };
        let created_by = match &thread.created_by {
            Some(a) => Some(a.clone()),
            None => None,
        };
        ThreadSummary {
            id: thread.id.clone(),
            created_by,
            created_at: thread.created_at,
            updated_at: thread.updated_at,
            message_count: thread.messages.len(),
            turn_count: thread.turn_count,
            preview,
        }
    }
}

impl<'a> From<&'a AgentThread> for ThreadSummary {
    fn from(thread: &'a AgentThread) -> (r: Self)
        ensures
            r.id == thread.id,
            r.message_count == thread.messages@.len(),
            r.turn_count == thread.turn_count,
    {
        ThreadSummary::of_thread(thread)
    }
}

impl<'a> vstd::std_specs::convert::FromSpecImpl<&'a AgentThread> for ThreadSummary {
    open spec fn obeys_from_spec() -> bool {
        false
    }

    open spec fn from_spec(thread: &'a AgentThread) -> Self {
        arbitrary()
    }
}

} // verus!
