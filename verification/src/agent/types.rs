//! Core types for the agent layer: identifiers, roles and messages.
use vstd::prelude::*;
use crate::clock::{now, Timestamp};
use crate::graph::types::{is_uuid_text, random_uuid_text};
use crate::text::{append, has_prefix, lemma_prefix_of_concat, TextLike};

verus! {

// ============================================================================
// IDENTIFIERS
// ============================================================================

/// Unique identifier for an agent.
#[derive(Debug, Eq, Hash)]
pub struct AgentId(String);

impl View for AgentId {
    type V = Seq<char>;

    closed spec fn view(&self) -> Seq<char> {
        self.0@
    }
}

impl AgentId {
    /// An identifier holding the given text.
    pub fn new(id: impl TextLike) -> (r: Self)
        ensures
            r@ == id.text(),
    {
        AgentId(id.into_string())
    }

    /// The identifier's text.
    pub fn as_str(&self) -> (r: &str)
        ensures
            r@ == self@,
    {
        self.0.as_str()
    }

    /// The identifier's text, as an owned string.
    pub fn to_string(&self) -> (r: String)
        ensures
            r@ == self@,
    {
        self.0.clone()
    }
}

impl Clone for AgentId {
    fn clone(&self) -> (r: Self)
        ensures
            r == *self,
    {
        AgentId(self.0.clone())
    }
}

impl PartialEq for AgentId {
    fn eq(&self, other: &Self) -> (r: bool) {
        self.0 == other.0
    }
}

impl vstd::std_specs::cmp::PartialEqSpecImpl for AgentId {
    open spec fn obeys_eq_spec() -> bool {
        true
    }

    open spec fn eq_spec(&self, other: &Self) -> bool {
        self@ == other@
    }
}

impl<'a> From<&'a str> for AgentId {
    fn from(s: &'a str) -> (r: Self)
        ensures
            r@ == s@,
    {
        AgentId::new(s)
    }
}

impl<'a> vstd::std_specs::convert::FromSpecImpl<&'a str> for AgentId {
    open spec fn obeys_from_spec() -> bool {
        false
    }

    open spec fn from_spec(s: &'a str) -> Self {
        arbitrary()
    }
}

impl From<String> for AgentId {
    fn from(s: String) -> (r: Self)
        ensures
            r@ == s@,
    {
        AgentId(s)
    }
}

impl vstd::std_specs::convert::FromSpecImpl<String> for AgentId {
    open spec fn obeys_from_spec() -> bool {
        true
    }

    closed spec fn from_spec(s: String) -> Self {
        AgentId(s)
    }
}

impl TextLike for AgentId {
    open spec fn text(&self) -> Seq<char> {
        self@
    }

    fn into_string(self) -> (r: String) {
        self.0
    }
}

/// Unique identifier for a conversation thread.
#[derive(Debug, Eq, Hash)]
pub struct ThreadId(String);

impl View for ThreadId {
    type V = Seq<char>;

    closed spec fn view(&self) -> Seq<char> {
        self.0@
    }
}

impl ThreadId {
    /// An identifier holding the given text.
    pub fn new(id: impl TextLike) -> (r: Self)
        ensures
            r@ == id.text(),
    {
        ThreadId(id.into_string())
    }

    /// A fresh identifier: `thread-` followed by a random UUID.
    pub fn generate() -> (r: Self)
        ensures
            has_prefix(r@, "thread-"@),
            is_uuid_text(r@.skip(7)),
    {
        let mut s = String::new();
        append(&mut s, "thread-");
        let u = random_uuid_text();
        append(&mut s, u.as_str());
        proof {
            lemma_prefix_of_concat("thread-"@, u@);
            reveal_strlit("thread-");
            assert(s@.skip(7) =~= u@);
        }
        ThreadId(s)
    }

    /// The identifier's text.
    pub fn as_str(&self) -> (r: &str)
        ensures
            r@ == self@,
    {
        self.0.as_str()
    }

    /// The identifier's text, as an owned string.
    pub fn to_string(&self) -> (r: String)
        ensures
            r@ == self@,
    {
        self.0.clone()
    }
}

impl Clone for ThreadId {
    fn clone(&self) -> (r: Self)
        ensures
            r == *self,
    {
        ThreadId(self.0.clone())
    }
}

impl PartialEq for ThreadId {
    fn eq(&self, other: &Self) -> (r: bool) {
        self.0 == other.0
    }
}

impl vstd::std_specs::cmp::PartialEqSpecImpl for ThreadId {
    open spec fn obeys_eq_spec() -> bool {
        true
    }

    open spec fn eq_spec(&self, other: &Self) -> bool {
        self@ == other@
    }
}

// ============================================================================
// CHAT ROLES
// ============================================================================

/// Role in a conversation.
#[derive(Debug, Clone, Copy, PartialEq, Eq, Structural)]
pub enum ChatRole {
    /// System instructions (invisible to user)
    System,
    /// User message
    User,
    /// Assistant (agent) response
    Assistant,
    /// Tool/function result
    Tool,
}

impl Default for ChatRole {
    fn default() -> (r: Self)
        ensures
            r == ChatRole::User,
    {
        ChatRole::User
    }
}

/// The name a role is displayed as.
pub open spec fn role_name(r: ChatRole) -> Seq<char> {
    match r {
        ChatRole::System => "system"@,
        ChatRole::User => "user"@,
        ChatRole::Assistant => "assistant"@,
        ChatRole::Tool => "tool"@,
    }
}

impl ChatRole {
    /// The name this role is displayed as.
    pub fn to_string(&self) -> (s: String)
        ensures
            s@ == role_name(*self),
    {
        let mut s = String::new();
        match self {
            ChatRole::System => append(&mut s, "system"),
            ChatRole::User => append(&mut s, "user"),
            ChatRole::Assistant => append(&mut s, "assistant"),
            ChatRole::Tool => append(&mut s, "tool"),
        }
        assert(s@ =~= role_name(*self));
        s
    }
}

// ============================================================================
// CHAT MESSAGE
// ============================================================================

/// A message in a conversation.
#[derive(Debug)]
pub struct ChatMessage {
    /// Role of the message sender.
    pub role: ChatRole,
    /// Content of the message.
    pub content: String,
    /// Optional name (for multi-agent scenarios).
    pub name: Option<String>,
    /// Optional metadata.
    pub metadata: Option<serde_json::Value>,
    /// Timestamp when the message was created.
    pub created_at: Timestamp,
}

/// The text a message is displayed as: `[role:name] content`, or
/// `[role] content` without a name.
pub open spec fn message_text(m: ChatMessage) -> Seq<char> {
    match m.name {
        Some(n) => "["@ + role_name(m.role) + ":"@ + n@ + "] "@ + m.content@,
        None => "["@ + role_name(m.role) + "] "@ + m.content@,
    }
}

impl Clone for ChatMessage {
    fn clone(&self) -> (r: Self)
        ensures
            r == *self,
    {
        let name = match &self.name {
            Some(n) => Some(n.clone()),
            None => None,
        };
        let metadata = match &self.metadata {
            Some(m) => Some(m.clone()),
            None => None,
        };
        ChatMessage { role: self.role, content: self.content.clone(), name, metadata, created_at: self.created_at }
    }
}

impl ChatMessage {
    /// A new message with the given role and content, stamped with the
    /// current time.
    pub fn new(role: ChatRole, content: impl TextLike) -> (r: Self)
        ensures
            r.role == role,
            r.content@ == content.text(),
            r.name is None,
            r.metadata is None,
    {
        ChatMessage { role, content: content.into_string(), name: None, metadata: None, created_at: now() }
    }

    /// A system message.
    pub fn system(content: impl TextLike) -> (r: Self)
        ensures
            r.role == ChatRole::System,
            r.content@ == content.text(),
            r.name is None,
            r.metadata is None,
    {
        Self::new(ChatRole::System, content)
    }

    /// A user message.
    pub fn user(content: impl TextLike) -> (r: Self)
        ensures
            r.role == ChatRole::User,
            r.content@ == content.text(),
            r.name is None,
            r.metadata is None,
    {
        Self::new(ChatRole::User, content)
    }

    /// An assistant message.
    pub fn assistant(content: impl TextLike) -> (r: Self)
        ensures
            r.role == ChatRole::Assistant,
            r.content@ == content.text(),
            r.name is None,
            r.metadata is None,
    {
        Self::new(ChatRole::Assistant, content)
    }

    /// A tool result message.
    pub fn tool(content: impl TextLike) -> (r: Self)
        ensures
            r.role == ChatRole::Tool,
            r.content@ == content.text(),
            r.name is None,
            r.metadata is None,
    {
        Self::new(ChatRole::Tool, content)
    }

    /// The same message with a name.
    pub fn with_name(self, name: impl TextLike) -> (r: Self)
        ensures
            r.name matches Some(n) && n@ == name.text(),
            r.role == self.role,
            r.content == self.content,
            r.metadata == self.metadata,
            r.created_at == self.created_at,
    {
        let mut m = self;
        m.name = Some(name.into_string());
        m
    }

    /// The same message with metadata.
    pub fn with_metadata(self, metadata: serde_json::Value) -> (r: Self)
        ensures
            r.metadata == Some(metadata),
            r.role == self.role,
            r.content == self.content,
            r.name == self.name,
            r.created_at == self.created_at,
    {
        let mut m = self;
        m.metadata = Some(metadata);
        m
    }

    /// Whether this is a system message.
    pub fn is_system(&self) -> (b: bool)
        ensures
            b == (self.role == ChatRole::System),
    {
        self.role == ChatRole::System
    }

    /// Whether this is a user message.
    pub fn is_user(&self) -> (b: bool)
        ensures
            b == (self.role == ChatRole::User),
    {
        self.role == ChatRole::User
    }

    /// Whether this is an assistant message.
    pub fn is_assistant(&self) -> (b: bool)
        ensures
            b == (self.role == ChatRole::Assistant),
    {
        self.role == ChatRole::Assistant
    }

    /// The text this message is displayed as.
    pub fn to_string(&self) -> (s: String)
        ensures
            s@ == message_text(*self),
    {
        let mut s = String::new();
        append(&mut s, "[");
        let role = self.role.to_string();
        append(&mut s, role.as_str());
        match &self.name {
            Some(n) => {
                append(&mut s, ":");
                append(&mut s, n.as_str());
            },
            None => {},
        }
        append(&mut s, "] ");
        append(&mut s, self.content.as_str());
        s
    }
}

} // verus!
