//! Compile validator: the data it exchanges, and how it turns a sandbox's
//! verdict into its output and status line.
use vstd::prelude::*;
use crate::graph::executor::ValidationResult;
use crate::pipeline::sandbox_validator::{Language, SandboxValidationResult};
use crate::text::{append, decimal, lowercase_of, push_decimal, str_eq, to_lowercase, to_owned, views, TextLike};

verus! {

/// Input to the compile validator.
#[derive(Debug)]
pub struct CompileInput {
    /// The code to validate.
    pub code: String,
    /// Language of the code.
    pub language: String,
    /// Optional task description for context.
    pub task: Option<String>,
}

impl CompileInput {
    /// An input without a task description.
    pub fn new(code: impl TextLike, language: impl TextLike) -> (r: Self)
        ensures
            r.code@ == code.text(),
            r.language@ == language.text(),
            r.task is None,
    {
        CompileInput { code: code.into_string(), language: language.into_string(), task: None }
    }

    /// The same input with a task description.
    pub fn with_task(self, task: impl TextLike) -> (r: Self)
        ensures
            r.code == self.code,
            r.language == self.language,
            r.task matches Some(t) && t@ == task.text(),
    {
        let mut i = self;
        i.task = Some(task.into_string());
        i
    }
}

/// Output from the compile validator.
#[derive(Debug)]
pub struct CompileOutput {
    /// The original code (for passing to the next executor).
    pub code: String,
    /// Language of the code.
    pub language: String,
    /// Whether compilation passed.
    pub passed: bool,
    /// Compiler errors if any.
    pub errors: Vec<String>,
    /// Structured feedback for retry.
    pub feedback: Option<String>,
    /// Execution time in milliseconds.
    pub execution_time_ms: u64,
}

impl CompileOutput {
    /// Whether compilation passed.
    pub fn is_passed(&self) -> (b: bool)
        ensures
            b == self.passed,
    {
        self.passed
    }
}

/// The language a name stands for: Rust, Python (`py`), TypeScript
/// (`ts`), Go (`golang`), in any case; any other name stands for the
/// default.
pub open spec fn language_named(name: Seq<char>, default_language: Language) -> Language {
    let l = lowercase_of(name);
    if l == "rust"@ {
        Language::Rust
    } else if l == "python"@ || l == "py"@ {
        Language::Python
    } else if l == "typescript"@ || l == "ts"@ {
        Language::TypeScript
    } else if l == "go"@ || l == "golang"@ {
        Language::Go
    } else {
        default_language
    }
}

/// Parse a language name, falling back to the default.
pub fn parse_language(lang: &str, default_language: Language) -> (r: Language)
    ensures
        r == language_named(lang@, default_language),
{
    let lower = to_lowercase(lang);
    let l = lower.as_str();
    if str_eq(l, "rust") {
        Language::Rust
    } else if str_eq(l, "python") || str_eq(l, "py") {
        Language::Python
    } else if str_eq(l, "typescript") || str_eq(l, "ts") {
        Language::TypeScript
    } else if str_eq(l, "go") || str_eq(l, "golang") {
        Language::Go
    } else {
        default_language
    }
}

/// The text of an optional string, or empty.
pub open spec fn text_or_empty(o: Option<String>) -> Seq<char> {
    match o {
        Some(s) => s@,
        None => Seq::empty(),
    }
}

/// Builds a `CompileOutput` from a sandbox result: it passes exactly when
/// the code compiled and carries the compiler errors; when compilation
/// failed it also carries the sandbox's feedback, empty when there is none.
pub fn compile_output(input: &CompileInput, result: SandboxValidationResult) -> (r: CompileOutput)
    ensures
        r.code@ == input.code@,
        r.language@ == input.language@,
        r.passed == result.compiles,
        r.errors@ == result.compiler_errors@,
        result.compiles ==> r.feedback is None,
        !result.compiles ==> (r.feedback matches Some(f) && f@ == text_or_empty(result.feedback)),
        r.execution_time_ms == result.execution_time_ms,
{
    let SandboxValidationResult { compiles, compiler_errors, feedback, execution_time_ms, .. } = result;
    let verdict = if compiles {
        ValidationResult::success()
    } else {
        let copied = copy_strings(&compiler_errors);
        let text = match feedback {
            Some(f) => f,
            None => String::new(),
        };
        ValidationResult::failure(copied).with_feedback(text)
    };
    CompileOutput {
        code: input.code.clone(),
        language: input.language.clone(),
        passed: verdict.passed,
        errors: compiler_errors,
        feedback: verdict.feedback,
        execution_time_ms,
    }
}

/// Copies of the strings, in order.
pub fn copy_strings(v: &Vec<String>) -> (r: Vec<String>)
    ensures
        r@ == v@,
{
    let mut r: Vec<String> = Vec::new();
    let mut i: usize = 0;
    while i < v.len()
        invariant
            i <= v@.len(),
            r@ == v@.take(i as int),
        decreases v.len() - i,
    {
        r.push(v[i].clone());
        assert(v@.take(i + 1) =~= v@.take(i as int).push(v@[i as int]));
        i = i + 1;
    }
    assert(v@.take(v@.len() as int) =~= v@);
    r
}

/// The status line the compile validator yields.
pub open spec fn compile_status_text(passed: bool, error_count: nat) -> Seq<char> {
    if passed {
        "Compilation: PASSED"@
    } else {
        "Compilation: FAILED ("@ + decimal(error_count) + " errors)"@
    }
}

/// The status line for a compile output.
pub fn compile_status(output: &CompileOutput) -> (r: String)
    ensures
        r@ == compile_status_text(output.passed, output.errors@.len()),
{
    if output.passed {
        to_owned("Compilation: PASSED")
    } else {
        let mut s = String::new();
        append(&mut s, "Compilation: FAILED (");
        push_decimal(&mut s, output.errors.len() as u64);
        append(&mut s, " errors)");
        s
    }
}

} // verus!
