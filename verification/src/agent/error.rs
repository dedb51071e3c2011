//! Error types for the agent layer.
use vstd::prelude::*;
use crate::agent::types::AgentId;
use crate::text::{append, TextLike};

verus! {

/// Agent-level errors.
#[derive(Debug)]
pub enum AgentError {
    /// LLM call failed.
    LLMError(String),
    /// Workflow execution failed.
    WorkflowError(String),
    /// Thread error (persistence, state).
    ThreadError(String),
    /// Invalid input provided.
    InvalidInput(String),
    /// Tool execution failed.
    ToolError { tool_name: String, message: String },
    /// Agent not found.
    AgentNotFound(AgentId),
    /// Operation timed out.
    Timeout(String),
    /// Stream was cancelled.
    Cancelled,
    /// Serialization error.
    SerializationError(String),
    /// Internal error.
    Internal(String),
    /// Memory operation error.
    MemoryError(String),
}

/// Result type for agent operations.
pub type AgentResult<T> = Result<T, AgentError>;

/// The text an agent error is displayed as.
pub open spec fn agent_error_text(e: AgentError) -> Seq<char> {
    match e {
        AgentError::LLMError(m) => "LLM error: "@ + m@,
        AgentError::WorkflowError(m) => "Workflow error: "@ + m@,
        AgentError::ThreadError(m) => "Thread error: "@ + m@,
        AgentError::InvalidInput(m) => "Invalid input: "@ + m@,
        AgentError::ToolError { tool_name, message } => "Tool error: "@ + tool_name@ + ": "@ + message@,
        AgentError::AgentNotFound(id) => "Agent not found: "@ + id@,
        AgentError::Timeout(m) => "Timeout: "@ + m@,
        AgentError::Cancelled => "Stream cancelled"@,
        AgentError::SerializationError(m) => "Serialization error: "@ + m@,
        AgentError::Internal(m) => "Internal error: "@ + m@,
        AgentError::MemoryError(m) => "Memory error: "@ + m@,
    }
}

/// Whether an operation that failed with this error may succeed when tried
/// again: LLM errors, timeouts and workflow errors.
pub open spec fn retriable(e: AgentError) -> bool {
    e is LLMError || e is Timeout || e is WorkflowError
}

impl AgentError {
    /// An LLM error.
    pub fn llm(msg: impl TextLike) -> (r: Self)
        ensures
            r matches AgentError::LLMError(m) && m@ == msg.text(),
    {
        AgentError::LLMError(msg.into_string())
    }

    /// A workflow error.
    pub fn workflow(msg: impl TextLike) -> (r: Self)
        ensures
            r matches AgentError::WorkflowError(m) && m@ == msg.text(),
    {
        AgentError::WorkflowError(msg.into_string())
    }

    /// A thread error.
    pub fn thread(msg: impl TextLike) -> (r: Self)
        ensures
            r matches AgentError::ThreadError(m) && m@ == msg.text(),
    {
        AgentError::ThreadError(msg.into_string())
    }

    /// An invalid input error.
    pub fn invalid_input(msg: impl TextLike) -> (r: Self)
        ensures
            r matches AgentError::InvalidInput(m) && m@ == msg.text(),
    {
        AgentError::InvalidInput(msg.into_string())
    }

    /// A tool error.
    pub fn tool(name: impl TextLike, msg: impl TextLike) -> (r: Self)
        ensures
            r matches AgentError::ToolError { tool_name, message } && tool_name@ == name.text() && message@ == msg.text(),
    {
        AgentError::ToolError { tool_name: name.into_string(), message: msg.into_string() }
    }

    /// A timeout error.
    pub fn timeout(msg: impl TextLike) -> (r: Self)
        ensures
            r matches AgentError::Timeout(m) && m@ == msg.text(),
    {
        AgentError::Timeout(msg.into_string())
    }

    /// An internal error.
    pub fn internal(msg: impl TextLike) -> (r: Self)
        ensures
            r matches AgentError::Internal(m) && m@ == msg.text(),
    {
        AgentError::Internal(msg.into_string())
    }

    /// A memory error.
    pub fn memory(msg: impl TextLike) -> (r: Self)
        ensures
            r matches AgentError::MemoryError(m) && m@ == msg.text(),
    {
        AgentError::MemoryError(msg.into_string())
    }

    /// Whether this error is retriable.
    pub fn is_retriable(&self) -> (b: bool)
        ensures
            b == retriable(*self),
    {
        match self {
            AgentError::LLMError(_) | AgentError::Timeout(_) | AgentError::WorkflowError(_) => true,
            _ => false,
        }
    }

    /// The text this error is displayed as.
    pub fn to_string(&self) -> (s: String)
        ensures
            s@ == agent_error_text(*self),
    {
        let mut s = String::new();
        match self {
            AgentError::LLMError(m) => {
                append(&mut s, "LLM error: ");
                append(&mut s, m.as_str());
            },
            AgentError::WorkflowError(m) => {
                append(&mut s, "Workflow error: ");
                append(&mut s, m.as_str());
            },
            AgentError::ThreadError(m) => {
                append(&mut s, "Thread error: ");
                append(&mut s, m.as_str());
            },
            AgentError::InvalidInput(m) => {
                append(&mut s, "Invalid input: ");
                append(&mut s, m.as_str());
            },
            AgentError::ToolError { tool_name, message } => {
                append(&mut s, "Tool error: ");
                append(&mut s, tool_name.as_str());
                append(&mut s, ": ");
                append(&mut s, message.as_str());
            },
            AgentError::AgentNotFound(id) => {
                append(&mut s, "Agent not found: ");
                append(&mut s, id.as_str());
            },
            AgentError::Timeout(m) => {
                append(&mut s, "Timeout: ");
                append(&mut s, m.as_str());
            },
            AgentError::Cancelled => {
                append(&mut s, "Stream cancelled");
            },
            AgentError::SerializationError(m) => {
                append(&mut s, "Serialization error: ");
                append(&mut s, m.as_str());
            },
            AgentError::Internal(m) => {
                append(&mut s, "Internal error: ");
                append(&mut s, m.as_str());
            },
            AgentError::MemoryError(m) => {
                append(&mut s, "Memory error: ");
                append(&mut s, m.as_str());
            },
        }
        s
    }
}

} // verus!
