//! Executor kinds, log levels and the result a validator reports.
//!
//! Three kinds of executor exist: workers do work (LLM calls,
//! transformations), validators verify something (compile, test, lint), and
//! orchestrators coordinate a sub-graph.
use vstd::prelude::*;
use crate::text::{append, TextLike};

verus! {

/// The type of executor: determines its role in the graph.
#[derive(Debug, Clone, Copy, PartialEq, Eq, Structural)]
pub enum ExecutorKind {
    /// Does work: LLM calls, transformations, merging.
    Worker,
    /// Verifies something: compile, test, lint, review.
    Validator,
    /// Coordinates a sub-graph (recursive).
    Orchestrator,
}

/// The name an executor kind is displayed as.
pub open spec fn executor_kind_name(k: ExecutorKind) -> Seq<char> {
    match k {
        ExecutorKind::Worker => "Worker"@,
        ExecutorKind::Validator => "Validator"@,
        ExecutorKind::Orchestrator => "Orchestrator"@,
    }
}

impl ExecutorKind {
    /// The name this kind is displayed as.
    pub fn to_string(&self) -> (r: String)
        ensures
            r@ == executor_kind_name(*self),
    {
        let mut s = String::new();
        match self {
            ExecutorKind::Worker => append(&mut s, "Worker"),
            ExecutorKind::Validator => append(&mut s, "Validator"),
            ExecutorKind::Orchestrator => append(&mut s, "Orchestrator"),
        }
        assert(s@ =~= executor_kind_name(*self));
        s
    }
}

/// Log levels for executor logging.
#[derive(Debug, Clone, Copy, PartialEq, Eq, Structural)]
pub enum LogLevel {
    Debug,
    Info,
    Warn,
    Error,
}

/// The name a log level is recorded under.
pub open spec fn log_level_name(l: LogLevel) -> Seq<char> {
    match l {
        LogLevel::Debug => "Debug"@,
        LogLevel::Info => "Info"@,
        LogLevel::Warn => "Warn"@,
        LogLevel::Error => "Error"@,
    }
}

impl LogLevel {
    /// The name this level is recorded under.
    pub fn name(&self) -> (r: String)
        ensures
            r@ == log_level_name(*self),
    {
        let mut s = String::new();
        match self {
            LogLevel::Debug => append(&mut s, "Debug"),
            LogLevel::Info => append(&mut s, "Info"),
            LogLevel::Warn => append(&mut s, "Warn"),
            LogLevel::Error => append(&mut s, "Error"),
        }
        assert(s@ =~= log_level_name(*self));
        s
    }
}

/// Result from a validator executor.
#[derive(Debug)]
pub struct ValidationResult {
    /// Whether validation passed.
    pub passed: bool,
    /// Error messages if failed.
    pub errors: Vec<String>,
    /// Structured feedback for retry.
    pub feedback: Option<String>,
}

impl ValidationResult {
    /// A passed validation, without errors or feedback.
    pub fn success() -> (r: Self)
        ensures
            r.passed,
            r.errors@.len() == 0,
            r.feedback is None,
    {
        ValidationResult { passed: true, errors: Vec::new(), feedback: None }
    }

    /// A failed validation with the given errors.
    pub fn failure(errors: Vec<String>) -> (r: Self)
        ensures
            !r.passed,
            r.errors@ == errors@,
            r.feedback is None,
    {
        ValidationResult { passed: false, errors, feedback: None }
    }

    /// The same result with feedback for a retry.
    pub fn with_feedback(self, feedback: impl TextLike) -> (r: Self)
        ensures
            r.passed == self.passed,
            r.errors@ == self.errors@,
            r.feedback matches Some(f) && f@ == feedback.text(),
    {
        let mut r = self;
        r.feedback = Some(feedback.into_string());
        r
    }
}

} // verus!
