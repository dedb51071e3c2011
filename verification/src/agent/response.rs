//! What an agent answers: a whole response, or chunks of one when it
//! streams, with the tool calls the model asked for.
use vstd::prelude::*;
use crate::agent::thread::last_with_role;
use crate::agent::types::{ChatMessage, ChatRole};
use crate::text::TextLike;

verus! {

/// A call to a tool that the model requested.
#[derive(Debug, Clone)]
pub struct ToolCall {
    /// Unique call identifier.
    pub id: String,
    /// Tool name.
    pub name: String,
    /// Arguments (JSON).
    pub arguments: serde_json::Value,
}

impl ToolCall {
    /// A tool call.
    pub fn new(id: impl TextLike, name: impl TextLike, arguments: serde_json::Value) -> (r: Self)
        ensures
            r.id@ == id.text(),
            r.name@ == name.text(),
            r.arguments == arguments,
    {
        ToolCall { id: id.into_string(), name: name.into_string(), arguments }
    }
}

/// Response from an agent invocation.
#[derive(Debug, Clone)]
pub struct AgentResponse {
    /// The final text content.
    pub content: String,
    /// Messages generated during this run.
    pub messages: Vec<ChatMessage>,
    /// Total tokens used, when known.
    pub tokens_used: Option<u32>,
    /// Model that generated the response.
    pub model: Option<String>,
    /// Whether the response was truncated.
    pub truncated: bool,
    /// Tool calls requested by the model.
    pub tool_calls: Vec<ToolCall>,
}

impl Default for AgentResponse {
    fn default() -> (r: Self)
        ensures
            r.content@.len() == 0,
            r.messages@.len() == 0,
            r.tokens_used is None,
            r.model is None,
            !r.truncated,
            r.tool_calls@.len() == 0,
    {
        AgentResponse {
            content: String::new(),
            messages: Vec::new(),
            tokens_used: None,
            model: None,
            truncated: false,
            tool_calls: Vec::new(),
        }
    }
}

impl AgentResponse {
    /// A response with the given content and nothing else.
    pub fn new(content: impl TextLike) -> (r: Self)
        ensures
            r.content@ == content.text(),
            r.messages@.len() == 0,
            r.tokens_used is None,
            r.model is None,
            !r.truncated,
            r.tool_calls@.len() == 0,
    {
        AgentResponse {
            content: content.into_string(),
            messages: Vec::new(),
            tokens_used: None,
            model: None,
            truncated: false,
            tool_calls: Vec::new(),
        }
    }

    /// A response with content and the messages generated.
    pub fn with_messages(content: impl TextLike, messages: Vec<ChatMessage>) -> (r: Self)
        ensures
            r.content@ == content.text(),
            r.messages == messages,
            r.tokens_used is None,
            r.model is None,
            !r.truncated,
            r.tool_calls@.len() == 0,
    {
        AgentResponse { content: content.into_string(), messages, tokens_used: None, model: None, truncated: false, tool_calls: Vec::new() }
    }

    /// The same response with a token count.
    pub fn with_tokens(self, tokens: u32) -> (r: Self)
        ensures
            r == (AgentResponse { tokens_used: Some(tokens), ..self }),
    {
        AgentResponse { tokens_used: Some(tokens), ..self }
    }

    /// The same response with the model name.
    pub fn with_model(self, model: impl TextLike) -> (r: Self)
        ensures
            r.model matches Some(m) && m@ == model.text(),
            r.content == self.content,
            r.messages == self.messages,
            r.tokens_used == self.tokens_used,
            r.truncated == self.truncated,
            r.tool_calls == self.tool_calls,
    {
        AgentResponse { model: Some(model.into_string()), ..self }
    }

    /// The same response, marked truncated or not.
    pub fn with_truncated(self, truncated: bool) -> (r: Self)
        ensures
            r == (AgentResponse { truncated, ..self }),
    {
        AgentResponse { truncated, ..self }
    }

    /// The same response with tool calls.
    pub fn with_tool_calls(self, calls: Vec<ToolCall>) -> (r: Self)
        ensures
            r == (AgentResponse { tool_calls: calls, ..self }),
    {
        AgentResponse { tool_calls: calls, ..self }
    }

    /// Whether the model requested tool calls.
    pub fn has_tool_calls(&self) -> (r: bool)
        ensures
            r == (self.tool_calls@.len() > 0),
    {
        self.tool_calls.len() > 0
    }

    /// The last assistant message among those generated.
    pub fn last_assistant_message(&self) -> (r: Option<&ChatMessage>)
        ensures
            match last_with_role(self.messages@, ChatRole::Assistant) {
                Some(i) => r == Some(&self.messages@[i]),
                None => r is None,
            },
    {
        let mut j = self.messages.len();
        assert(self.messages@.take(j as int) =~= self.messages@);
        while j > 0
            invariant
                j <= self.messages@.len(),
                last_with_role(self.messages@, ChatRole::Assistant) == last_with_role(
                    self.messages@.take(j as int),
                    ChatRole::Assistant,
                ),
            decreases j,
        {
            let ghost pre = self.messages@.take(j as int);
            assert(pre.drop_last() =~= self.messages@.take(j - 1));
            if self.messages[j - 1].is_assistant() {
                assert(pre.last() == self.messages@[j - 1]);
                return Some(&self.messages[j - 1]);
            }
            j = j - 1;
        }
        None
    }
}

/// A streaming chunk from an agent.
#[derive(Debug, Clone)]
pub struct AgentChunk {
    /// Text content of this chunk.
    pub content: Option<String>,
    /// Whether this is the final chunk.
    pub done: bool,
    /// Token count (usually only in the final chunk).
    pub tokens_used: Option<u32>,
    /// Model name (usually only in the final chunk).
    pub model: Option<String>,
    /// Tool calls (if any).
    pub tool_calls: Vec<ToolCall>,
    /// Error message, if streaming failed.
    pub error: Option<String>,
}

impl Default for AgentChunk {
    fn default() -> (r: Self)
        ensures
            r.content is None,
            !r.done,
            r.tokens_used is None,
            r.model is None,
            r.tool_calls@.len() == 0,
            r.error is None,
    {
        AgentChunk { content: None, done: false, tokens_used: None, model: None, tool_calls: Vec::new(), error: None }
    }
}

impl AgentChunk {
    /// A chunk of content, not the last.
    pub fn content(text: impl TextLike) -> (r: Self)
        ensures
            r.content matches Some(c) && c@ == text.text(),
            !r.done,
            r.tokens_used is None,
            r.model is None,
            r.tool_calls@.len() == 0,
            r.error is None,
    {
        AgentChunk { content: Some(text.into_string()), ..AgentChunk::default() }
    }

    /// The final chunk, without content.
    pub fn done() -> (r: Self)
        ensures
            r.content is None,
            r.done,
            r.tokens_used is None,
            r.model is None,
            r.tool_calls@.len() == 0,
            r.error is None,
    {
        AgentChunk { done: true, ..AgentChunk::default() }
    }

    /// The final chunk, with content.
    pub fn final_content(text: impl TextLike) -> (r: Self)
        ensures
            r.content matches Some(c) && c@ == text.text(),
            r.done,
            r.tokens_used is None,
            r.model is None,
            r.tool_calls@.len() == 0,
            r.error is None,
    {
        AgentChunk { content: Some(text.into_string()), done: true, ..AgentChunk::default() }
    }

    /// A final chunk reporting an error.
    pub fn error(msg: impl TextLike) -> (r: Self)
        ensures
            r.content is None,
            r.done,
            r.tokens_used is None,
            r.model is None,
            r.tool_calls@.len() == 0,
            r.error matches Some(e) && e@ == msg.text(),
    {
        AgentChunk { error: Some(msg.into_string()), done: true, ..AgentChunk::default() }
    }

    /// The same chunk with a token count.
    pub fn with_tokens(self, tokens: u32) -> (r: Self)
        ensures
            r == (AgentChunk { tokens_used: Some(tokens), ..self }),
    {
        AgentChunk { tokens_used: Some(tokens), ..self }
    }

    /// The same chunk with the model name.
    pub fn with_model(self, model: impl TextLike) -> (r: Self)
        ensures
            r.model matches Some(m) && m@ == model.text(),
            r.content == self.content,
            r.done == self.done,
            r.tokens_used == self.tokens_used,
            r.tool_calls == self.tool_calls,
            r.error == self.error,
    {
        AgentChunk { model: Some(model.into_string()), ..self }
    }

    /// Whether the chunk carries non-empty content.
    pub fn has_content(&self) -> (r: bool)
        ensures
            r == (self.content matches Some(c) && c@.len() > 0),
    {
        match &self.content {
            Some(c) => !c.as_str().is_empty(),
            None => false,
        }
    }

    /// Whether the chunk reports an error.
    pub fn is_error(&self) -> (r: bool)
        ensures
            r == (self.error is Some),
    {
        self.error.is_some()
    }
}

} // verus!
