//! Core types for the graph-based multi-agent architecture: identifiers,
//! errors and events.
use vstd::prelude::*;
use crate::text::{append, has_prefix, lemma_prefix_of_concat, TextLike};

verus! {

// ============================================================================
// IDENTIFIERS
// ============================================================================

/// A lowercase hexadecimal digit.
pub open spec fn is_lower_hex(c: char) -> bool {
    ('0' <= c && c <= '9') || ('a' <= c && c <= 'f')
}

/// The text of a random (version 4) UUID: 36 characters, hyphens at 8, 13,
/// 18 and 23, lowercase hexadecimal digits elsewhere, the version digit `4`
/// at 14 and a variant digit among `8`, `9`, `a`, `b` at 19.
pub open spec fn is_uuid_text(s: Seq<char>) -> bool {
    &&& s.len() == 36
    &&& forall|i: int|
        0 <= i < 36 ==> if i == 8 || i == 13 || i == 18 || i == 23 {
            #[trigger] s[i] == '-'
        } else {
            is_lower_hex(s[i])
        }
    &&& s[14] == '4'
    &&& (s[19] == '8' || s[19] == '9' || s[19] == 'a' || s[19] == 'b')
}

/// Calls `uuid::Uuid::new_v4` and renders it with `Display`, which writes
/// the lowercase hyphenated form; the value is random, so only its form is
/// stated: `new_v4` sets the version and variant bits.
#[verifier::external_body]
pub(crate) fn random_uuid_text() -> (r: String)
    ensures
        is_uuid_text(r@),
{
    uuid::Uuid::new_v4().to_string()
}

/// Unique identifier for an executor node in the graph.
#[derive(Debug, Eq, Hash)]
pub struct ExecutorId(String);

impl View for ExecutorId {
    type V = Seq<char>;

    closed spec fn view(&self) -> Seq<char> {
        self.0@
    }
}

impl ExecutorId {
    /// An identifier holding the given text.
    pub fn new(id: impl TextLike) -> (r: Self)
        ensures
            r@ == id.text(),
    {
        ExecutorId(id.into_string())
    }

    /// The identifier's text.
    pub fn as_str(&self) -> (r: &str)
        ensures
            r@ == self@,
    {
        self.0.as_str()
    }

    /// The identifier's text, as an owned string.
    pub fn to_string(&self) -> (r: String)
        ensures
            r@ == self@,
    {
        self.0.clone()
    }
}

impl Clone for ExecutorId {
    fn clone(&self) -> (r: Self)
        ensures
            r == *self,
    {
        ExecutorId(self.0.clone())
    }
}

impl PartialEq for ExecutorId {
    fn eq(&self, other: &Self) -> (r: bool) {
        self.0 == other.0
    }
}

impl vstd::std_specs::cmp::PartialEqSpecImpl for ExecutorId {
    open spec fn obeys_eq_spec() -> bool {
        true
    }

    open spec fn eq_spec(&self, other: &Self) -> bool {
        self@ == other@
    }
}

impl<'a> From<&'a str> for ExecutorId {
    fn from(s: &'a str) -> (r: Self)
        ensures
            r@ == s@,
    {
        ExecutorId::new(s)
    }
}

impl<'a> vstd::std_specs::convert::FromSpecImpl<&'a str> for ExecutorId {
    open spec fn obeys_from_spec() -> bool {
        false
    }

    open spec fn from_spec(s: &'a str) -> Self {
        arbitrary()
    }
}

impl From<String> for ExecutorId {
    fn from(s: String) -> (r: Self)
        ensures
            r@ == s@,
    {
        ExecutorId(s)
    }
}

impl vstd::std_specs::convert::FromSpecImpl<String> for ExecutorId {
    open spec fn obeys_from_spec() -> bool {
        true
    }

    closed spec fn from_spec(s: String) -> Self {
        ExecutorId(s)
    }
}

impl TextLike for ExecutorId {
    open spec fn text(&self) -> Seq<char> {
        self@
    }

    fn into_string(self) -> (r: String) {
        self.0
    }
}

/// Unique identifier for a task.
#[derive(Debug, Eq, Hash)]
pub struct TaskId(String);

impl View for TaskId {
    type V = Seq<char>;

    closed spec fn view(&self) -> Seq<char> {
        self.0@
    }
}

impl TaskId {
    /// A task identifier holding the given text.
    pub fn new(id: impl TextLike) -> (r: Self)
        ensures
            r@ == id.text(),
    {
        TaskId(id.into_string())
    }

    /// A fresh random identifier of the form `task-<uuid>`.
    pub fn generate() -> (r: Self)
        ensures
            has_prefix(r@, "task-"@),
            is_uuid_text(r@.skip(5)),
    {
        let mut s = String::new();
        append(&mut s, "task-");
        let u = random_uuid_text();
        append(&mut s, u.as_str());
        proof {
            lemma_prefix_of_concat("task-"@, u@);
            reveal_strlit("task-");
            assert(s@.skip(5) =~= u@);
        }
        TaskId(s)
    }

    /// The identifier's text.
    pub fn as_str(&self) -> (r: &str)
        ensures
            r@ == self@,
    {
        self.0.as_str()
    }

    /// The identifier's text, as an owned string.
    pub fn to_string(&self) -> (r: String)
        ensures
            r@ == self@,
    {
        self.0.clone()
    }
}

impl Clone for TaskId {
    fn clone(&self) -> (r: Self)
        ensures
            r == *self,
    {
        TaskId(self.0.clone())
    }
}

impl PartialEq for TaskId {
    fn eq(&self, other: &Self) -> (r: bool) {
        self.0 == other.0
    }
}

impl vstd::std_specs::cmp::PartialEqSpecImpl for TaskId {
    open spec fn obeys_eq_spec() -> bool {
        true
    }

    open spec fn eq_spec(&self, other: &Self) -> bool {
        self@ == other@
    }
}

/// Unique identifier for a workflow.
#[derive(Debug, Eq, Hash)]
pub struct WorkflowId(String);

impl View for WorkflowId {
    type V = Seq<char>;

    closed spec fn view(&self) -> Seq<char> {
        self.0@
    }
}

impl WorkflowId {
    /// A workflow identifier holding the given text.
    pub fn new(id: impl TextLike) -> (r: Self)
        ensures
            r@ == id.text(),
    {
        WorkflowId(id.into_string())
    }

    /// A fresh random identifier of the form `wf-<uuid>`.
    pub fn generate() -> (r: Self)
        ensures
            has_prefix(r@, "wf-"@),
            is_uuid_text(r@.skip(3)),
    {
        let mut s = String::new();
        append(&mut s, "wf-");
        let u = random_uuid_text();
        append(&mut s, u.as_str());
        proof {
            lemma_prefix_of_concat("wf-"@, u@);
            reveal_strlit("wf-");
            assert(s@.skip(3) =~= u@);
        }
        WorkflowId(s)
    }

    /// The identifier's text.
    pub fn as_str(&self) -> (r: &str)
        ensures
            r@ == self@,
    {
        self.0.as_str()
    }

    /// The identifier's text, as an owned string.
    pub fn to_string(&self) -> (r: String)
        ensures
            r@ == self@,
    {
        self.0.clone()
    }
}

impl Clone for WorkflowId {
    fn clone(&self) -> (r: Self)
        ensures
            r == *self,
    {
        WorkflowId(self.0.clone())
    }
}

impl PartialEq for WorkflowId {
    fn eq(&self, other: &Self) -> (r: bool) {
        self.0 == other.0
    }
}

impl vstd::std_specs::cmp::PartialEqSpecImpl for WorkflowId {
    open spec fn obeys_eq_spec() -> bool {
        true
    }

    open spec fn eq_spec(&self, other: &Self) -> bool {
        self@ == other@
    }
}

// ============================================================================
// ERRORS
// ============================================================================

/// Graph-level errors.
#[derive(Debug)]
pub enum GraphError {
    ExecutorNotFound(ExecutorId),
    EdgeNotFound(String),
    InvalidGraph(String),
    ValidationError(String),
    TypeMismatch(String),
    ExecutorFailed(String),
    SerializationError(String),
    Timeout(String),
    MaxRetriesExceeded(ExecutorId),
    Cancelled,
}

/// Result type for graph operations.
pub type GraphResult<T> = Result<T, GraphError>;

/// The text that a graph error is displayed as.
pub open spec fn graph_error_text(e: GraphError) -> Seq<char> {
    match e {
        GraphError::ExecutorNotFound(id) => "Executor not found: "@ + id@,
        GraphError::EdgeNotFound(m) => "Edge not found: "@ + m@,
        GraphError::InvalidGraph(m) => "Invalid graph: "@ + m@,
        GraphError::ValidationError(m) => "Validation error: "@ + m@,
        GraphError::TypeMismatch(m) => "Type mismatch: "@ + m@,
        GraphError::ExecutorFailed(m) => "Executor failed: "@ + m@,
        GraphError::SerializationError(m) => "Serialization error: "@ + m@,
        GraphError::Timeout(m) => "Timeout: "@ + m@,
        GraphError::MaxRetriesExceeded(id) => "Max retries exceeded for executor: "@ + id@,
        GraphError::Cancelled => "Workflow cancelled"@,
    }
}

impl GraphError {
    /// The text this error is displayed as.
    pub fn to_string(&self) -> (r: String)
        ensures
            r@ == graph_error_text(*self),
    {
        let mut s = String::new();
        match self {
            GraphError::ExecutorNotFound(id) => {
                append(&mut s, "Executor not found: ");
                append(&mut s, id.as_str());
            },
            GraphError::EdgeNotFound(m) => {
                append(&mut s, "Edge not found: ");
                append(&mut s, m.as_str());
            },
            GraphError::InvalidGraph(m) => {
                append(&mut s, "Invalid graph: ");
                append(&mut s, m.as_str());
            },
            GraphError::ValidationError(m) => {
                append(&mut s, "Validation error: ");
                append(&mut s, m.as_str());
            },
            GraphError::TypeMismatch(m) => {
                append(&mut s, "Type mismatch: ");
                append(&mut s, m.as_str());
            },
            GraphError::ExecutorFailed(m) => {
                append(&mut s, "Executor failed: ");
                append(&mut s, m.as_str());
            },
            GraphError::SerializationError(m) => {
                append(&mut s, "Serialization error: ");
                append(&mut s, m.as_str());
            },
            GraphError::Timeout(m) => {
                append(&mut s, "Timeout: ");
                append(&mut s, m.as_str());
            },
            GraphError::MaxRetriesExceeded(id) => {
                append(&mut s, "Max retries exceeded for executor: ");
                append(&mut s, id.as_str());
            },
            GraphError::Cancelled => {
                append(&mut s, "Workflow cancelled");
            },
        }
        assert(s@ =~= graph_error_text(*self));
        s
    }
}

/// Error category for conditional routing.
#[derive(Debug, Clone, Copy, PartialEq, Eq, Structural)]
pub enum ErrorCategory {
    Compilation,
    TestFailure,
    Linting,
    Timeout,
    LLMError,
    Unknown,
}

impl Default for ErrorCategory {
    fn default() -> (r: Self)
        ensures
            r == ErrorCategory::Unknown,
    {
        ErrorCategory::Unknown
    }
}

/// Executor-level error with metadata for routing.
#[derive(Debug)]
pub struct ExecutorError {
    pub executor_id: ExecutorId,
    pub message: String,
    pub retriable: bool,
    pub category: ErrorCategory,
}

impl Clone for ExecutorError {
    fn clone(&self) -> (r: Self)
        ensures
            r == *self,
    {
        ExecutorError {
            executor_id: self.executor_id.clone(),
            message: self.message.clone(),
            retriable: self.retriable,
            category: self.category,
        }
    }
}

impl ExecutorError {
    /// A retriable error of unknown category from the given executor.
    pub fn new(executor_id: impl TextLike, message: impl TextLike) -> (r: Self)
        ensures
            r.executor_id@ == executor_id.text(),
            r.message@ == message.text(),
            r.retriable,
            r.category == ErrorCategory::Unknown,
    {
        ExecutorError {
            executor_id: ExecutorId::new(executor_id),
            message: message.into_string(),
            retriable: true,
            category: ErrorCategory::Unknown,
        }
    }

    /// An internal error, which is not retriable.
    pub fn internal(message: impl TextLike) -> (r: Self)
        ensures
            r.executor_id@ == "internal"@,
            r.message@ == message.text(),
            !r.retriable,
            r.category == ErrorCategory::Unknown,
    {
        ExecutorError {
            executor_id: ExecutorId::new("internal"),
            message: message.into_string(),
            retriable: false,
            category: ErrorCategory::Unknown,
        }
    }

    /// A retriable validation (compilation) error.
    pub fn validation(message: impl TextLike) -> (r: Self)
        ensures
            r.executor_id@ == "validation"@,
            r.message@ == message.text(),
            r.retriable,
            r.category == ErrorCategory::Compilation,
    {
        ExecutorError {
            executor_id: ExecutorId::new("validation"),
            message: message.into_string(),
            retriable: true,
            category: ErrorCategory::Compilation,
        }
    }

    /// A retriable timeout error.
    pub fn timeout() -> (r: Self)
        ensures
            r.executor_id@ == "timeout"@,
            r.message@ == "Operation timed out"@,
            r.retriable,
            r.category == ErrorCategory::Timeout,
    {
        ExecutorError {
            executor_id: ExecutorId::new("timeout"),
            message: crate::text::to_owned("Operation timed out"),
            retriable: true,
            category: ErrorCategory::Timeout,
        }
    }

    /// The same error, marked as not retriable.
    pub fn non_retriable(self) -> (r: Self)
        ensures
            r == (ExecutorError { retriable: false, ..self }),
    {
        let mut s = self;
        s.retriable = false;
        s
    }

    /// The same error with the given category.
    pub fn with_category(self, category: ErrorCategory) -> (r: Self)
        ensures
            r == (ExecutorError { category, ..self }),
    {
        let mut s = self;
        s.category = category;
        s
    }

    /// The text this error is displayed as: `[executor] message`.
    pub fn to_string(&self) -> (r: String)
        ensures
            r@ == "["@ + self.executor_id@ + "] "@ + self.message@,
    {
        let mut s = String::new();
        append(&mut s, "[");
        append(&mut s, self.executor_id.as_str());
        append(&mut s, "] ");
        append(&mut s, self.message.as_str());
        s
    }
}

// ============================================================================
// EVENTS
// ============================================================================

/// Events emitted during executor processing.
#[derive(Debug)]
pub enum ExecutorEvent {
    Started { executor_id: ExecutorId, task_id: TaskId },
    Progress { executor_id: ExecutorId, percent: u8, message: Option<String> },
    Completed { executor_id: ExecutorId, duration_ms: u64 },
    Failed { executor_id: ExecutorId, error: String },
}

/// Events emitted by edges.
#[derive(Debug)]
pub enum EdgeEvent {
    Activated { edge_id: String, from: ExecutorId, to: ExecutorId },
    ConditionEvaluated { edge_id: String, result: bool },
}

} // verus!
