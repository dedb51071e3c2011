//! Test validator: the data it exchanges, and how it turns a sandbox's
//! verdict into its output and status line.
use vstd::prelude::*;
use crate::graph::executor::ValidationResult;
use crate::graph::executors::compile_validator::{copy_strings, text_or_empty};
use crate::pipeline::sandbox_validator::SandboxValidationResult;
use crate::text::{append, decimal, push_decimal, to_owned, TextLike};

verus! {

/// Input to the test validator.
#[derive(Debug)]
pub struct TestInput {
    /// The code to test.
    pub code: String,
    /// Language of the code.
    pub language: String,
    /// Optional test filter pattern.
    pub test_filter: Option<String>,
    /// Optional task description for context.
    pub task: Option<String>,
}

impl TestInput {
    /// An input without filter or task.
    pub fn new(code: impl TextLike, language: impl TextLike) -> (r: Self)
        ensures
            r.code@ == code.text(),
            r.language@ == language.text(),
            r.test_filter is None,
            r.task is None,
    {
        TestInput { code: code.into_string(), language: language.into_string(), test_filter: None, task: None }
    }

    /// The same input with a test filter pattern.
    pub fn with_filter(self, filter: impl TextLike) -> (r: Self)
        ensures
            r.code == self.code,
            r.language == self.language,
            r.test_filter matches Some(f) && f@ == filter.text(),
            r.task == self.task,
    {
        let mut i = self;
        i.test_filter = Some(filter.into_string());
        i
    }

    /// The same input with a task description.
    pub fn with_task(self, task: impl TextLike) -> (r: Self)
        ensures
            r.code == self.code,
            r.language == self.language,
            r.test_filter == self.test_filter,
            r.task matches Some(t) && t@ == task.text(),
    {
        let mut i = self;
        i.task = Some(task.into_string());
        i
    }
}

/// Output from the test validator.
#[derive(Debug)]
pub struct TestOutput {
    /// The original code.
    pub code: String,
    /// Language of the code.
    pub language: String,
    /// Whether all tests passed.
    pub passed: bool,
    /// Number of tests run.
    pub test_count: u32,
    /// Number of tests passed.
    pub tests_passed: u32,
    /// Number of tests failed.
    pub tests_failed: u32,
    /// Test errors if any.
    pub errors: Vec<String>,
    /// Structured feedback for retry.
    pub feedback: Option<String>,
    /// Execution time in milliseconds.
    pub execution_time_ms: u64,
}

impl TestOutput {
    /// Whether all tests passed.
    pub fn is_passed(&self) -> (b: bool)
        ensures
            b == self.passed,
    {
        self.passed
    }
}

/// The feedback text given when code did not compile.
pub open spec fn must_compile_text() -> Seq<char> {
    "Code must compile before tests can run."@
}

/// Builds a `TestOutput` from a sandbox result: it passes exactly when the
/// tests passed and carries the test errors; when they failed, its feedback
/// says that the code must compile first if compilation failed, and is the
/// sandbox's feedback, empty when there is none, otherwise.
pub fn test_output(input: &TestInput, result: SandboxValidationResult) -> (r: TestOutput)
    ensures
        r.code@ == input.code@,
        r.language@ == input.language@,
        r.passed == result.tests_passed,
        r.test_count == result.test_count,
        r.tests_passed == result.tests_ok,
        r.tests_failed == result.tests_failed,
        r.errors@ == result.test_errors@,
        result.tests_passed ==> r.feedback is None,
        !result.tests_passed && !result.compiles ==> (r.feedback matches Some(f) && f@ == must_compile_text()),
        !result.tests_passed && result.compiles ==> (r.feedback matches Some(f) && f@ == text_or_empty(result.feedback)),
        r.execution_time_ms == result.execution_time_ms,
{
    let SandboxValidationResult {
        compiles,
        tests_passed,
        test_count,
        tests_ok,
        tests_failed,
        compiler_errors,
        test_errors,
        feedback,
        execution_time_ms,
        ..
    } = result;
    let verdict = if tests_passed {
        ValidationResult::success()
    } else if !compiles {
        ValidationResult::failure(compiler_errors).with_feedback("Code must compile before tests can run.")
    } else {
        let text = match feedback {
            Some(f) => f,
            None => String::new(),
        };
        ValidationResult::failure(copy_strings(&test_errors)).with_feedback(text)
    };
    TestOutput {
        code: input.code.clone(),
        language: input.language.clone(),
        passed: verdict.passed,
        test_count,
        tests_passed: tests_ok,
        tests_failed,
        errors: test_errors,
        feedback: verdict.feedback,
        execution_time_ms,
    }
}

/// The status line the test validator yields.
pub open spec fn test_status_text(o: TestOutput) -> Seq<char> {
    if o.passed {
        "Tests: PASSED ("@ + decimal(o.tests_passed as nat) + "/"@ + decimal(o.test_count as nat) + " ok)"@
    } else {
        "Tests: FAILED ("@ + decimal(o.tests_passed as nat) + "/"@ + decimal(o.test_count as nat) + " ok, "@
            + decimal(o.tests_failed as nat) + " failures)"@
    }
}

/// The status line for a test output.
pub fn test_status(output: &TestOutput) -> (r: String)
    ensures
        r@ == test_status_text(*output),
{
    let mut s = String::new();
    if output.passed {
        append(&mut s, "Tests: PASSED (");
        push_decimal(&mut s, output.tests_passed as u64);
        append(&mut s, "/");
        push_decimal(&mut s, output.test_count as u64);
        append(&mut s, " ok)");
    } else {
        append(&mut s, "Tests: FAILED (");
        push_decimal(&mut s, output.tests_passed as u64);
        append(&mut s, "/");
        push_decimal(&mut s, output.test_count as u64);
        append(&mut s, " ok, ");
        push_decimal(&mut s, output.tests_failed as u64);
        append(&mut s, " failures)");
    }
    s
}

} // verus!
