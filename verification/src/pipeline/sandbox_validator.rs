//! Ground-truth validation: results of compiling, linting and testing code
//! in a sandbox, the commands that do so per language, and the encoding
//! used to hand code to the sandbox's shell.
use vstd::prelude::*;
use crate::pipeline::output_parsers::{
    combine, combined, compiler_errors, clippy_errors, parse_clippy_errors, parse_compiler_errors, parse_test_results,
    test_results,
};
use crate::text::{
    append, chars_of, contains_str, decimal, has_infix, join, join_strings, lines, push_char, push_decimal, split_lines,
    string_of, to_owned,
    trim, trimmed, views, char_views,
};

verus! {

// ============================================================================
// VALIDATION RESULT
// ============================================================================

/// Result of sandbox validation.
#[derive(Debug)]
pub struct SandboxValidationResult {
    /// Overall pass/fail
    pub passed: bool,
    /// Compilation passed
    pub compiles: bool,
    /// Tests passed (if any)
    pub tests_passed: bool,
    /// Number of tests run
    pub test_count: u32,
    /// Number of tests passed
    pub tests_ok: u32,
    /// Number of tests failed
    pub tests_failed: u32,
    /// Compiler errors (if any)
    pub compiler_errors: Vec<String>,
    /// Test failures (if any)
    pub test_errors: Vec<String>,
    /// Warnings (non-blocking)
    pub warnings: Vec<String>,
    /// Structured feedback for LLM
    pub feedback: Option<String>,
    /// Total execution time in ms
    pub execution_time_ms: u64,
}

/// The errors reported for a failure: those given, or the fallback message
/// when none were captured.
pub open spec fn errors_or(errors: Seq<Seq<char>>, fallback: Seq<char>) -> Seq<Seq<char>> {
    if errors.len() == 0 { seq![fallback] } else { errors }
}

/// Fallback error of a compilation failure without captured errors.
pub open spec fn no_compilation_error_text() -> Seq<char> {
    "Compilation failed but no specific error was captured. Check command output."@
}

/// Fallback error of a test failure without captured errors.
pub open spec fn no_test_error_text() -> Seq<char> {
    "Tests failed but no specific error was captured. Check test output."@
}

/// Fallback error of a lint failure without captured errors.
pub open spec fn no_lint_error_text() -> Seq<char> {
    "Lint check failed but no specific error was captured. Check linter output."@
}

/// Feedback for a compilation failure.
pub open spec fn compile_feedback(errors: Seq<Seq<char>>) -> Seq<char> {
    "COMPILATION FAILED:\n\n"@ + join(errors, "\n"@) + "\n\nFix these errors and try again."@
}

/// Feedback for a test failure.
pub open spec fn test_feedback(tests_ok: u32, test_count: u32, errors: Seq<Seq<char>>) -> Seq<char> {
    "TESTS FAILED: "@ + decimal(tests_ok as nat) + "/"@ + decimal(test_count as nat) + " passed\n\nFailures:\n"@
        + join(errors, "\n"@) + "\n\nFix these test failures."@
}

/// Feedback for a lint failure.
pub open spec fn lint_feedback(errors: Seq<Seq<char>>) -> Seq<char> {
    "LINT ERRORS (code compiles but has issues):\n\n"@ + join(errors, "\n"@) + "\n\nFix these anti-patterns."@
}

/// `errors`, or a one-element list of `fallback` when it is empty.
fn errors_or_fallback(errors: Vec<String>, fallback: &str) -> (r: Vec<String>)
    ensures
        views(r@) == errors_or(views(errors@), fallback@),
{
    if errors.len() == 0 {
        let mut v: Vec<String> = Vec::new();
        v.push(to_owned(fallback));
        assert(views(v@) =~= seq![fallback@]);
        v
    } else {
        errors
    }
}

impl SandboxValidationResult {
    /// A passed validation: it compiled and all tests passed.
    pub fn success(test_count: u32, execution_time_ms: u64) -> (r: Self)
        ensures
            r.passed && r.compiles && r.tests_passed,
            r.test_count == test_count,
            r.tests_ok == test_count,
            r.tests_failed == 0,
            r.compiler_errors@.len() == 0,
            r.test_errors@.len() == 0,
            r.warnings@.len() == 0,
            r.feedback is None,
            r.execution_time_ms == execution_time_ms,
    {
        SandboxValidationResult {
            passed: true,
            compiles: true,
            tests_passed: true,
            test_count,
            tests_ok: test_count,
            tests_failed: 0,
            compiler_errors: Vec::new(),
            test_errors: Vec::new(),
            warnings: Vec::new(),
            feedback: None,
            execution_time_ms,
        }
    }

    /// A compilation failure. Never without an error: when none were
    /// captured, a fallback message stands for them.
    pub fn compilation_error(errors: Vec<String>, execution_time_ms: u64) -> (r: Self)
        ensures
            !r.passed && !r.compiles && !r.tests_passed,
            r.test_count == 0 && r.tests_ok == 0 && r.tests_failed == 0,
            views(r.compiler_errors@) == errors_or(views(errors@), no_compilation_error_text()),
            r.test_errors@.len() == 0,
            r.warnings@.len() == 0,
            r.feedback matches Some(f) && f@ == compile_feedback(views(r.compiler_errors@)),
            r.execution_time_ms == execution_time_ms,
    {
        let errors = errors_or_fallback(
            errors,
            "Compilation failed but no specific error was captured. Check command output.",
        );
        let joined = join_strings(errors.as_slice(), "\n");
        let mut feedback = String::new();
        append(&mut feedback, "COMPILATION FAILED:\n\n");
        append(&mut feedback, joined.as_str());
        append(&mut feedback, "\n\nFix these errors and try again.");
        SandboxValidationResult {
            passed: false,
            compiles: false,
            tests_passed: false,
            test_count: 0,
            tests_ok: 0,
            tests_failed: 0,
            compiler_errors: errors,
            test_errors: Vec::new(),
            warnings: Vec::new(),
            feedback: Some(feedback),
            execution_time_ms,
        }
    }

    /// A test failure: it compiled, and `tests_ok` of `test_count` tests
    /// passed. Never without an error.
    pub fn test_error(test_count: u32, tests_ok: u32, errors: Vec<String>, execution_time_ms: u64) -> (r: Self)
        requires
            tests_ok <= test_count,
        ensures
            !r.passed && r.compiles && !r.tests_passed,
            r.test_count == test_count,
            r.tests_ok == tests_ok,
            r.tests_failed == test_count - tests_ok,
            r.compiler_errors@.len() == 0,
            views(r.test_errors@) == errors_or(views(errors@), no_test_error_text()),
            r.warnings@.len() == 0,
            r.feedback matches Some(f) && f@ == test_feedback(tests_ok, test_count, views(r.test_errors@)),
            r.execution_time_ms == execution_time_ms,
    {
        let errors = errors_or_fallback(errors, "Tests failed but no specific error was captured. Check test output.");
        let joined = join_strings(errors.as_slice(), "\n");
        let mut feedback = String::new();
        append(&mut feedback, "TESTS FAILED: ");
        push_decimal(&mut feedback, tests_ok as u64);
        append(&mut feedback, "/");
        push_decimal(&mut feedback, test_count as u64);
        append(&mut feedback, " passed\n\nFailures:\n");
        append(&mut feedback, joined.as_str());
        append(&mut feedback, "\n\nFix these test failures.");
        SandboxValidationResult {
            passed: false,
            compiles: true,
            tests_passed: false,
            test_count,
            tests_ok,
            tests_failed: test_count - tests_ok,
            compiler_errors: Vec::new(),
            test_errors: errors,
            warnings: Vec::new(),
            feedback: Some(feedback),
            execution_time_ms,
        }
    }

    /// A lint failure (clippy, flake8, ...): the code compiles but has
    /// anti-patterns; the lint errors are kept as test errors. Never
    /// without an error.
    pub fn lint_error(errors: Vec<String>, execution_time_ms: u64) -> (r: Self)
        ensures
            !r.passed && r.compiles && !r.tests_passed,
            r.test_count == 0 && r.tests_ok == 0 && r.tests_failed == 0,
            r.compiler_errors@.len() == 0,
            views(r.test_errors@) == errors_or(views(errors@), no_lint_error_text()),
            r.warnings@.len() == 0,
            r.feedback matches Some(f) && f@ == lint_feedback(views(r.test_errors@)),
            r.execution_time_ms == execution_time_ms,
    {
        let errors = errors_or_fallback(
            errors,
            "Lint check failed but no specific error was captured. Check linter output.",
        );
        let joined = join_strings(errors.as_slice(), "\n");
        let mut feedback = String::new();
        append(&mut feedback, "LINT ERRORS (code compiles but has issues):\n\n");
        append(&mut feedback, joined.as_str());
        append(&mut feedback, "\n\nFix these anti-patterns.");
        SandboxValidationResult {
            passed: false,
            compiles: true,
            tests_passed: false,
            test_count: 0,
            tests_ok: 0,
            tests_failed: 0,
            compiler_errors: Vec::new(),
            test_errors: errors,
            warnings: Vec::new(),
            feedback: Some(feedback),
            execution_time_ms,
        }
    }
}

/// A failed validation always carries an error and feedback, whichever way
/// it failed.
pub proof fn lemma_failure_is_explained(errors: Seq<Seq<char>>, fallback: Seq<char>)
    ensures
        errors_or(errors, fallback).len() > 0,
{
}

// ============================================================================
// LANGUAGES
// ============================================================================

/// Language for code validation.
#[derive(Debug, Clone, Copy, PartialEq, Eq, Structural)]
pub enum Language {
    Rust,
    Python,
    JavaScript,
    TypeScript,
    Go,
    Shell,
}

/// The file extension of a language.
pub open spec fn extension_text(l: Language) -> Seq<char> {
    match l {
        Language::Rust => "rs"@,
        Language::Python => "py"@,
        Language::JavaScript => "js"@,
        Language::TypeScript => "ts"@,
        Language::Go => "go"@,
        Language::Shell => "sh"@,
    }
}

/// The command that compiles a project in `dir`, for compiled languages.
pub open spec fn compile_command_text(l: Language, dir: Seq<char>) -> Option<Seq<char>> {
    match l {
        Language::Rust => Some("cd "@ + dir + " && cargo check 2>&1"@),
        Language::Go => Some("cd "@ + dir + " && go build ./... 2>&1"@),
        Language::TypeScript => Some("cd "@ + dir + " && tsc --noEmit 2>&1"@),
        _ => None,
    }
}

/// The command that lints a project in `dir`, where a linter is available.
pub open spec fn lint_command_text(l: Language, dir: Seq<char>) -> Option<Seq<char>> {
    match l {
        Language::Rust => Some("cd "@ + dir + " && cargo clippy --all-targets -- -D warnings 2>&1"@),
        Language::Python => Some("cd "@ + dir + " && python3 -m flake8 --max-line-length=120 2>&1 || true"@),
        Language::JavaScript | Language::TypeScript => Some("cd "@ + dir + " && npx eslint . 2>&1 || true"@),
        Language::Go => Some("cd "@ + dir + " && go vet ./... 2>&1"@),
        _ => None,
    }
}

/// The command that tests a project in `dir`.
pub open spec fn test_command_text(l: Language, dir: Seq<char>) -> Seq<char> {
    match l {
        Language::Rust => "cd "@ + dir + " && cargo test 2>&1"@,
        Language::Python => "cd "@ + dir + " && python3 -m pytest -v 2>&1"@,
        Language::JavaScript => "cd "@ + dir + " && npm test 2>&1"@,
        Language::TypeScript => "cd "@ + dir + " && NODE_PATH=$(npm root -g) jest --config jest.config.js 2>&1"@,
        Language::Go => "cd "@ + dir + " && go test ./... -v 2>&1"@,
        Language::Shell => "cd "@ + dir + " && bash -n *.sh 2>&1"@,
    }
}

/// `"cd " + dir + rest`.
fn in_dir(dir: &str, rest: &str) -> (r: String)
    ensures
        r@ == "cd "@ + dir@ + rest@,
{
    let mut s = String::new();
    append(&mut s, "cd ");
    append(&mut s, dir);
    append(&mut s, rest);
    s
}

impl Language {
    /// Get file extension for this language.
    pub fn extension(&self) -> (r: &'static str)
        ensures
            r@ == extension_text(*self),
    {
        match self {
            Language::Rust => "rs",
            Language::Python => "py",
            Language::JavaScript => "js",
            Language::TypeScript => "ts",
            Language::Go => "go",
            Language::Shell => "sh",
        }
    }

    /// Get compile command (if applicable).
    pub fn compile_command(&self, project_dir: &str) -> (r: Option<String>)
        ensures
            match r {
                Some(c) => compile_command_text(*self, project_dir@) == Some(c@),
                None => compile_command_text(*self, project_dir@) is None,
            },
    {
        match self {
            Language::Rust => Some(in_dir(project_dir, " && cargo check 2>&1")),
            Language::Go => Some(in_dir(project_dir, " && go build ./... 2>&1")),
            Language::TypeScript => Some(in_dir(project_dir, " && tsc --noEmit 2>&1")),
            _ => None,
        }
    }

    /// Get lint command (optional static analysis); `None` when no linter
    /// is available for this language.
    pub fn lint_command(&self, project_dir: &str) -> (r: Option<String>)
        ensures
            match r {
                Some(c) => lint_command_text(*self, project_dir@) == Some(c@),
                None => lint_command_text(*self, project_dir@) is None,
            },
    {
        match self {
            Language::Rust => Some(in_dir(project_dir, " && cargo clippy --all-targets -- -D warnings 2>&1")),
            Language::Python => Some(in_dir(project_dir, " && python3 -m flake8 --max-line-length=120 2>&1 || true")),
            Language::JavaScript | Language::TypeScript => Some(in_dir(project_dir, " && npx eslint . 2>&1 || true")),
            Language::Go => Some(in_dir(project_dir, " && go vet ./... 2>&1")),
            _ => None,
        }
    }

    /// Get test command.
    pub fn test_command(&self, project_dir: &str) -> (r: String)
        ensures
            r@ == test_command_text(*self, project_dir@),
    {
        match self {
            Language::Rust => in_dir(project_dir, " && cargo test 2>&1"),
            Language::Python => in_dir(project_dir, " && python3 -m pytest -v 2>&1"),
            Language::JavaScript => in_dir(project_dir, " && npm test 2>&1"),
            Language::TypeScript => in_dir(project_dir, " && NODE_PATH=$(npm root -g) jest --config jest.config.js 2>&1"),
            Language::Go => in_dir(project_dir, " && go test ./... -v 2>&1"),
            Language::Shell => in_dir(project_dir, " && bash -n *.sh 2>&1"),
        }
    }
}

// ============================================================================
// BASE64
// ============================================================================

/// The base64 digit for a value below 64.
pub open spec fn b64_digit(v: nat) -> char {
    if v < 26 {
        (65 + v) as char
    } else if v < 52 {
        (97 + (v - 26)) as char
    } else if v < 62 {
        (48 + (v - 52)) as char
    } else if v == 62 {
        '+'
    } else {
        '/'
    }
}

/// The four characters encoding the (up to three) bytes of `bytes` from
/// `start`: missing bytes count as zero, and each missing one turns a
/// trailing character into `=`.
pub open spec fn b64_chunk(bytes: Seq<u8>, start: int) -> Seq<char> {
    let rest = bytes.len() - start;
    let b0 = bytes[start] as nat;
    let b1: nat = if rest > 1 { bytes[start + 1] as nat } else { 0 };
    let b2: nat = if rest > 2 { bytes[start + 2] as nat } else { 0 };
    let n = b0 * 65536 + b1 * 256 + b2;
    seq![
        b64_digit((n / 262144) % 64),
        b64_digit((n / 4096) % 64),
        if rest > 1 { b64_digit((n / 64) % 64) } else { '=' },
        if rest > 2 { b64_digit(n % 64) } else { '=' },
    ]
}

/// The encoding of the first `k` chunks of three bytes.
pub open spec fn b64_chunks(bytes: Seq<u8>, k: nat) -> Seq<char>
    decreases k,
{
    if k == 0 {
        Seq::empty()
    } else {
        b64_chunks(bytes, (k - 1) as nat) + b64_chunk(bytes, 3 * (k - 1))
    }
}

/// The base64 encoding (standard alphabet, padded) of a byte sequence.
pub open spec fn base64(bytes: Seq<u8>) -> Seq<char> {
    b64_chunks(bytes, ((bytes.len() + 2) / 3) as nat)
}

/// The base64 digit for a value below 64.
fn b64_digit_char(v: u32) -> (c: char)
    requires
        v < 64,
    ensures
        c == b64_digit(v as nat),
{
    if v < 26 {
        ((65 + v) as u8) as char
    } else if v < 52 {
        ((97 + (v - 26)) as u8) as char
    } else if v < 62 {
        ((48 + (v - 52)) as u8) as char
    } else if v == 62 {
        '+'
    } else {
        '/'
    }
}

/// Appends the encoding of the chunk of `bytes` at `start`.
fn push_chunk(result: &mut String, bytes: &[u8], start: usize)
    requires
        start < bytes@.len(),
    ensures
        final(result)@ == old(result)@ + b64_chunk(bytes@, start as int),
{
    let rest = bytes.len() - start;
    let b0 = bytes[start] as u32;
    let b1: u32 = if rest > 1 { bytes[start + 1] as u32 } else { 0 };
    let b2: u32 = if rest > 2 { bytes[start + 2] as u32 } else { 0 };
    let n: u32 = b0 * 65536 + b1 * 256 + b2;
    let ghost before = result@;
    push_char(result, b64_digit_char((n / 262144) % 64));
    push_char(result, b64_digit_char((n / 4096) % 64));
    if rest > 1 {
        push_char(result, b64_digit_char((n / 64) % 64));
    } else {
        push_char(result, '=');
    }
    if rest > 2 {
        push_char(result, b64_digit_char(n % 64));
    } else {
        push_char(result, '=');
    }
    assert(result@ =~= before + b64_chunk(bytes@, start as int));
}

/// Base64 encode a string's UTF-8 bytes (standard alphabet, padded).
pub fn base64_encode(input: &str) -> (r: String)
    ensures
        r@ == base64(vstd::utf8::encode_utf8(input@)),
{
    let bytes = input.as_bytes();
    let len = bytes.len();
    let chunks: usize = len / 3 + if len % 3 > 0 { 1 } else { 0 };
    assert(chunks == (len + 2) / 3);
    let mut result = String::new();
    let mut c: usize = 0;
    while c < chunks
        invariant
            c <= chunks,
            len == bytes@.len(),
            chunks == (len + 2) / 3,
            chunks == len / 3 + if len % 3 > 0 { 1nat } else { 0nat },
            result@ == b64_chunks(bytes@, c as nat),
        decreases chunks - c,
    {
        assert(3 * c < len) by (nonlinear_arith)
            requires
                c < chunks,
                chunks == len / 3 + if len % 3 > 0 { 1nat } else { 0nat },
        ;
        push_chunk(&mut result, bytes, 3 * c);
        c = c + 1;
    }
    result
}


// ============================================================================
// VALIDATION STEPS
// ============================================================================

/// A signed number in decimal.
pub open spec fn signed_decimal(n: int) -> Seq<char> {
    if n < 0 {
        "-"@ + decimal((-n) as nat)
    } else {
        decimal(n as nat)
    }
}

/// Appends a signed number in decimal.
fn push_signed(s: &mut String, n: i32)
    ensures
        final(s)@ == old(s)@ + signed_decimal(n as int),
{
    if n < 0 {
        append(s, "-");
        let m: i64 = -(n as i64);
        push_decimal(s, m as u64);
        assert(final(s)@ =~= old(s)@ + signed_decimal(n as int));
    } else {
        push_decimal(s, n as u64);
    }
}

/// The result of a failed project setup: a compilation failure whose one
/// error names the setup's error output.
pub fn setup_failure(stderr: &str, execution_time_ms: u64) -> (r: SandboxValidationResult)
    ensures
        !r.passed && !r.compiles,
        views(r.compiler_errors@) == seq!["Project setup failed: "@ + stderr@],
        !r.tests_passed && r.test_count == 0 && r.tests_ok == 0 && r.tests_failed == 0,
        r.test_errors@.len() == 0 && r.warnings@.len() == 0,
        r.feedback matches Some(f) && f@ == compile_feedback(views(r.compiler_errors@)),
        r.execution_time_ms == execution_time_ms,
{
    let mut e = String::new();
    append(&mut e, "Project setup failed: ");
    append(&mut e, stderr);
    let mut v: Vec<String> = Vec::new();
    v.push(e);
    assert(views(v@) =~= seq!["Project setup failed: "@ + stderr@]);
    SandboxValidationResult::compilation_error(v, execution_time_ms)
}

/// The result of a failed compilation: the compiler errors read from its
/// output.
pub fn compile_failure(stdout: &str, stderr: &str, execution_time_ms: u64) -> (r: SandboxValidationResult)
    ensures
        !r.passed && !r.compiles,
        views(r.compiler_errors@) == errors_or(compiler_errors(stdout@, stderr@), no_compilation_error_text()),
        !r.tests_passed && r.test_count == 0 && r.tests_ok == 0 && r.tests_failed == 0,
        r.test_errors@.len() == 0 && r.warnings@.len() == 0,
        r.feedback matches Some(f) && f@ == compile_feedback(views(r.compiler_errors@)),
        r.execution_time_ms == execution_time_ms,
{
    let errors = parse_compiler_errors(stdout, stderr);
    SandboxValidationResult::compilation_error(errors, execution_time_ms)
}

/// The result of a failed lint run: a lint failure with the lint errors
/// read from its output, or none when there are no actionable ones.
pub fn lint_failure(stdout: &str, stderr: &str, execution_time_ms: u64) -> (r: Option<SandboxValidationResult>)
    ensures
        clippy_errors(stdout@, stderr@).len() == 0 ==> r is None,
        clippy_errors(stdout@, stderr@).len() > 0 ==> (r matches Some(v) && !v.passed && v.compiles && !v.tests_passed
            && views(v.test_errors@) == clippy_errors(stdout@, stderr@) && v.test_count == 0 && v.tests_ok == 0
            && v.tests_failed == 0 && v.compiler_errors@.len() == 0 && v.warnings@.len() == 0 && (v.feedback matches Some(
            f,
        ) && f@ == lint_feedback(views(v.test_errors@))) && v.execution_time_ms == execution_time_ms),
{
    let errors = parse_clippy_errors(stdout, stderr);
    if errors.len() == 0 {
        None
    } else {
        Some(SandboxValidationResult::lint_error(errors, execution_time_ms))
    }
}

/// What a failed test run reports when no error was read from it: its
/// output (the last eighty lines when it has more than a hundred), or a
/// note that nothing was captured.
pub open spec fn raw_test_failure(stdout: Seq<char>, stderr: Seq<char>, exit_code: i32) -> Seq<char> {
    let c = combined(stdout, stderr);
    let ls = lines(c);
    let shown = if ls.len() > 100 { join(ls.skip(ls.len() - 80), "\n"@) } else { c };
    if trim(shown).len() == 0 {
        "Test failed with exit code "@ + signed_decimal(exit_code as int)
            + " but no output captured. Check for panics, timeouts, or infinite loops."@
    } else {
        "Test failed (exit code "@ + signed_decimal(exit_code as int) + "):\n"@ + shown
    }
}

/// Whether the counts read from a test run fit: when the run is taken as
/// failed, no more tests passed than ran.
pub open spec fn test_counts_fit(stdout: Seq<char>, stderr: Seq<char>, succeeded: bool, language: Language) -> bool {
    let t = test_results(stdout, stderr, language);
    (t.2 > 0 || !succeeded) ==> t.1 <= t.0
}

/// The result of a test run: passed when no test failed and the command
/// succeeded, with the count of tests; otherwise a test failure with the
/// counts, the errors read (or the raw output when none were read) and
/// the feedback on them.
pub open spec fn tested(
    r: SandboxValidationResult,
    stdout: Seq<char>,
    stderr: Seq<char>,
    exit_code: i32,
    succeeded: bool,
    language: Language,
    execution_time_ms: u64,
) -> bool {
    &&& r.execution_time_ms == execution_time_ms
    &&& {
        let t = test_results(stdout, stderr, language);
        if t.2 > 0 || !succeeded {
            &&& !r.passed && r.compiles && !r.tests_passed
            &&& r.test_count == t.0 && r.tests_ok == t.1
            &&& views(r.test_errors@) == errors_or(
                if t.3.len() > 0 { t.3 } else { seq![raw_test_failure(stdout, stderr, exit_code)] },
                no_test_error_text(),
            )
            &&& r.feedback matches Some(f) && f@ == test_feedback(t.1, t.0, views(r.test_errors@))
            &&& r.tests_failed == t.0 - t.1
            &&& r.compiler_errors@.len() == 0 && r.warnings@.len() == 0
        } else {
            &&& r.passed && r.compiles && r.tests_passed
            &&& r.test_count == t.0 && r.tests_ok == t.0 && r.tests_failed == 0
            &&& r.test_errors@.len() == 0 && r.compiler_errors@.len() == 0 && r.warnings@.len() == 0
            &&& r.feedback is None
        }
    }
}

/// The result of a test run: passed when no test failed and the command
/// succeeded, with the count of tests; otherwise a test failure with the
/// counts and the errors read, or the raw output when none were read.
pub fn test_outcome(
    stdout: &str,
    stderr: &str,
    exit_code: i32,
    succeeded: bool,
    language: Language,
    execution_time_ms: u64,
) -> (r: SandboxValidationResult)
    requires
        test_counts_fit(stdout@, stderr@, succeeded, language),
    ensures
        tested(r, stdout@, stderr@, exit_code, succeeded, language, execution_time_ms),
{
    let (total, passed, failed, errors) = parse_test_results(stdout, stderr, language);
    if failed > 0 || !succeeded {
        let final_errors = if errors.len() == 0 {
            let c = combine(stdout, stderr);
            let cs = chars_of(c.as_str());
            let ls = split_lines(&cs);
            let shown = if ls.len() > 100 {
                let mut tail: Vec<String> = Vec::new();
                let mut m = ls.len() - 80;
                let ghost lv = char_views(ls@);
                while m < ls.len()
                    invariant
                        ls@.len() > 100,
                        ls@.len() - 80 <= m <= ls@.len(),
                        lv == char_views(ls@),
                        views(tail@) == lv.subrange(ls@.len() - 80, m as int),
                    decreases ls.len() - m,
                {
                    let ghost before = views(tail@);
                    let line = string_of(ls[m].as_slice());
                    assert(line@ == lv[m as int]);
                    tail.push(line);
                    assert(views(tail@) =~= before.push(lv[m as int]));
                    assert(lv.subrange(ls@.len() - 80, m + 1) =~= lv.subrange(ls@.len() - 80, m as int).push(lv[m as int]));
                    m = m + 1;
                }
                assert(lv.subrange(ls@.len() - 80, ls@.len() as int) =~= lv.skip(lv.len() - 80));
                join_strings(tail.as_slice(), "\n")
            } else {
                c
            };
            let sc = chars_of(shown.as_str());
            let st = trimmed(&sc);
            let mut msg = String::new();
            if st.len() == 0 {
                append(&mut msg, "Test failed with exit code ");
                push_signed(&mut msg, exit_code);
                append(&mut msg, " but no output captured. Check for panics, timeouts, or infinite loops.");
            } else {
                append(&mut msg, "Test failed (exit code ");
                push_signed(&mut msg, exit_code);
                append(&mut msg, "):\n");
                append(&mut msg, shown.as_str());
            }
            let mut v: Vec<String> = Vec::new();
            v.push(msg);
            assert(views(v@) =~= seq![raw_test_failure(stdout@, stderr@, exit_code)]);
            v
        } else {
            errors
        };
        SandboxValidationResult::test_error(total, passed, final_errors, execution_time_ms)
    } else {
        SandboxValidationResult::success(total, execution_time_ms)
    }
}

/// The result of a test run, when the counts read from it fit; nothing
/// when more tests are reported passed than ran in a failed run.
pub fn checked_test_outcome(
    stdout: &str,
    stderr: &str,
    exit_code: i32,
    succeeded: bool,
    language: Language,
    execution_time_ms: u64,
) -> (r: Option<SandboxValidationResult>)
    ensures
        r is None <==> !test_counts_fit(stdout@, stderr@, succeeded, language),
        r matches Some(v) ==> tested(v, stdout@, stderr@, exit_code, succeeded, language, execution_time_ms),
{
    let (total, passed, failed, _errors) = parse_test_results(stdout, stderr, language);
    if (failed > 0 || !succeeded) && passed > total {
        None
    } else {
        Some(test_outcome(stdout, stderr, exit_code, succeeded, language, execution_time_ms))
    }
}

} // verus!

verus! {

// ============================================================================
// THE ORDER OF A VALIDATION RUN
// ============================================================================

/// The phases of a validation run, in order: the project is set up, then
/// compiled (when the language has a compiler), linted (when it has a
/// linter), and tested (when tests are enabled).
#[derive(Debug, Clone, Copy, PartialEq, Eq, Structural)]
pub enum ValidationPhase {
    /// Writing the project's files.
    Setup,
    /// Running the compiler.
    Compile,
    /// Running the linter.
    Lint,
    /// Running the tests.
    Test,
}

/// What a validation run does next.
#[derive(Debug)]
pub enum ValidationStep {
    /// Run this command, as this phase.
    Run(ValidationPhase, String),
    /// Stop with this result, removing the project first when `true`.
    Finish(SandboxValidationResult, bool),
}

/// The command that follows a phase that went well, with its phase, or
/// nothing when the run is over: compile, lint and test, skipping those the
/// language lacks (and the tests when they are disabled).
pub open spec fn phase_after(l: Language, dir: Seq<char>, run_tests: bool, p: ValidationPhase) -> Option<
    (ValidationPhase, Seq<char>),
> {
    let test = if run_tests { Some((ValidationPhase::Test, test_command_text(l, dir))) } else { None };
    let lint = match lint_command_text(l, dir) {
        Some(c) => Some((ValidationPhase::Lint, c)),
        None => test,
    };
    match p {
        ValidationPhase::Setup => match compile_command_text(l, dir) {
            Some(c) => Some((ValidationPhase::Compile, c)),
            None => lint,
        },
        ValidationPhase::Compile => lint,
        ValidationPhase::Lint => test,
        ValidationPhase::Test => None,
    }
}

/// The step after a phase that went well.
fn step_after(language: Language, project_dir: &str, run_tests: bool, phase: ValidationPhase, elapsed_ms: u64) -> (r:
    ValidationStep)
    ensures
        match phase_after(language, project_dir@, run_tests, phase) {
            Some((p, c)) => r matches ValidationStep::Run(q, d) && q == p && d@ == c,
            None => r matches ValidationStep::Finish(v, clean) && clean && v.passed && v.test_count == 0
                && v.test_errors@.len() == 0 && v.compiler_errors@.len() == 0 && v.feedback is None
                && v.execution_time_ms == elapsed_ms,
        },
{
    if let ValidationPhase::Setup = phase {
        if let Some(c) = language.compile_command(project_dir) {
            return ValidationStep::Run(ValidationPhase::Compile, c);
        }
    }
    match phase {
        ValidationPhase::Setup | ValidationPhase::Compile => {
            if let Some(c) = language.lint_command(project_dir) {
                return ValidationStep::Run(ValidationPhase::Lint, c);
            }
        },
        _ => {},
    }
    match phase {
        ValidationPhase::Test => ValidationStep::Finish(SandboxValidationResult::success(0, elapsed_ms), true),
        _ => {
            if run_tests {
                ValidationStep::Run(ValidationPhase::Test, language.test_command(project_dir))
            } else {
                ValidationStep::Finish(SandboxValidationResult::success(0, elapsed_ms), true)
            }
        },
    }
}

/// What a validation run does once a phase has run, given how it went:
/// a failed setup stops with a setup failure (nothing to remove); a failed
/// compile stops with the compiler's errors; a failed lint with actionable
/// errors stops with them; the tests end the run with their outcome;
/// otherwise the next phase runs, or the run passes when none is left.
pub fn advance(
    language: Language,
    project_dir: &str,
    run_tests: bool,
    phase: ValidationPhase,
    succeeded: bool,
    stdout: &str,
    stderr: &str,
    exit_code: i32,
    elapsed_ms: u64,
) -> (r: ValidationStep)
    requires
        phase == ValidationPhase::Test ==> test_counts_fit(stdout@, stderr@, succeeded, language),
    ensures
        phase == ValidationPhase::Setup && !succeeded ==> (r matches ValidationStep::Finish(v, clean) && !clean
            && !v.passed && !v.compiles && !v.tests_passed && v.test_count == 0 && v.tests_ok == 0 && v.tests_failed == 0
            && v.test_errors@.len() == 0 && v.warnings@.len() == 0
            && views(v.compiler_errors@) == seq!["Project setup failed: "@ + stderr@]
            && (v.feedback matches Some(f) && f@ == compile_feedback(views(v.compiler_errors@)))
            && v.execution_time_ms == elapsed_ms),
        phase == ValidationPhase::Compile && !succeeded ==> (r matches ValidationStep::Finish(v, clean) && clean
            && !v.passed && !v.compiles && !v.tests_passed && v.test_count == 0 && v.tests_ok == 0 && v.tests_failed == 0
            && v.test_errors@.len() == 0 && v.warnings@.len() == 0 && views(v.compiler_errors@) == errors_or(
            compiler_errors(stdout@, stderr@),
            no_compilation_error_text(),
        ) && (v.feedback matches Some(f) && f@ == compile_feedback(views(v.compiler_errors@)))
            && v.execution_time_ms == elapsed_ms),
        phase == ValidationPhase::Lint && !succeeded && clippy_errors(stdout@, stderr@).len() > 0 ==> (
        r matches ValidationStep::Finish(v, clean) && clean && !v.passed && v.compiles && !v.tests_passed && views(
            v.test_errors@,
        ) == clippy_errors(stdout@, stderr@) && v.test_count == 0 && v.tests_ok == 0 && v.tests_failed == 0
            && v.compiler_errors@.len() == 0 && v.warnings@.len() == 0 && (v.feedback matches Some(f) && f@
            == lint_feedback(views(v.test_errors@))) && v.execution_time_ms == elapsed_ms),
        phase == ValidationPhase::Test ==> (r matches ValidationStep::Finish(v, clean) && clean && tested(
            v,
            stdout@,
            stderr@,
            exit_code,
            succeeded,
            language,
            elapsed_ms,
        )),
        (phase == ValidationPhase::Setup || phase == ValidationPhase::Compile) && succeeded || phase
            == ValidationPhase::Lint && (succeeded || clippy_errors(stdout@, stderr@).len() == 0) ==> match phase_after(
            language,
            project_dir@,
            run_tests,
            phase,
        ) {
            Some((p, c)) => r matches ValidationStep::Run(q, d) && q == p && d@ == c,
            None => r matches ValidationStep::Finish(v, clean) && clean && v.passed && v.test_count == 0
                && v.test_errors@.len() == 0 && v.compiler_errors@.len() == 0 && v.feedback is None
                && v.execution_time_ms == elapsed_ms,
        },
{
    match phase {
        ValidationPhase::Setup => {
            if !succeeded {
                return ValidationStep::Finish(setup_failure(stderr, elapsed_ms), false);
            }
        },
        ValidationPhase::Compile => {
            if !succeeded {
                return ValidationStep::Finish(compile_failure(stdout, stderr, elapsed_ms), true);
            }
        },
        ValidationPhase::Lint => {
            if !succeeded {
                if let Some(v) = lint_failure(stdout, stderr, elapsed_ms) {
                    return ValidationStep::Finish(v, true);
                }
            }
        },
        ValidationPhase::Test => {
            return ValidationStep::Finish(
                test_outcome(stdout, stderr, exit_code, succeeded, language, elapsed_ms),
                true,
            );
        },
    }
    step_after(language, project_dir, run_tests, phase, elapsed_ms)
}

/// What a validation run does once a phase has run, when the test counts
/// read fit; nothing when a failed test run reports more tests passed than
/// ran.
pub fn checked_advance(
    language: Language,
    project_dir: &str,
    run_tests: bool,
    phase: ValidationPhase,
    succeeded: bool,
    stdout: &str,
    stderr: &str,
    exit_code: i32,
    elapsed_ms: u64,
) -> (r: Option<ValidationStep>)
    ensures
        r is None <==> (phase == ValidationPhase::Test && !test_counts_fit(stdout@, stderr@, succeeded, language)),
        phase == ValidationPhase::Test ==> match r {
            Some(s) => s matches ValidationStep::Finish(v, clean) && clean && tested(
                v,
                stdout@,
                stderr@,
                exit_code,
                succeeded,
                language,
                elapsed_ms,
            ),
            None => true,
        },
        phase != ValidationPhase::Test ==> r matches Some(s),
{
    if let ValidationPhase::Test = phase {
        match checked_test_outcome(stdout, stderr, exit_code, succeeded, language, elapsed_ms) {
            Some(v) => Some(ValidationStep::Finish(v, true)),
            None => None,
        }
    } else {
        Some(advance(language, project_dir, run_tests, phase, succeeded, stdout, stderr, exit_code, elapsed_ms))
    }
}

} // verus!

verus! {

// ============================================================================
// PROJECT SETUP
// ============================================================================

/// The script that sets up a Rust project: a manifest with common
/// dependencies and lints, and the code as its library.
pub open spec fn rust_setup_text(dir: Seq<char>, enc: Seq<char>) -> Seq<char> {
    "\nmkdir -p "@ + dir + "/src && \\\ncat > "@ + dir + "/Cargo.toml << 'CARGO_EOF'\n[package]\nname = \"validation_project\"\nversion = \"0.1.0\"\nedition = \"2021\"\n\n[dependencies]\ntokio = { version = \"1\", features = [\"full\"] }\nserde = { version = \"1\", features = [\"derive\"] }\nserde_json = \"1\"\nthiserror = \"2\"\nanyhow = \"1\"\nasync-trait = \"0.1\"\nfutures = \"0.3\"\nreqwest = { version = \"0.12\", features = [\"json\"] }\n\n[lints.clippy]\n# Allow common false positives - focus on real errors, not style\nnew_without_default = \"allow\"\nmust_use_candidate = \"allow\"\nmissing_errors_doc = \"allow\"\nmissing_panics_doc = \"allow\"\nmodule_name_repetitions = \"allow\"\nCARGO_EOF\necho '"@ + enc + "' | base64 -d > "@ + dir + "/src/lib.rs\n"@
}

/// The script that sets up a Python project whose tests are async: the
/// pytest plugin, the code as the test file, and a configuration loading it.
pub open spec fn py_async_setup_text(dir: Seq<char>, enc: Seq<char>) -> Seq<char> {
    "\npip3 install pytest-asyncio -q 2>/dev/null || true && \\\nmkdir -p "@ + dir + " && \\\necho '"@ + enc + "' | base64 -d > "@ + dir + "/test_main.py && \\\ncat > "@ + dir + "/conftest.py << 'CONFTEST_EOF'\nimport pytest\npytest_plugins = ('pytest_asyncio',)\nCONFTEST_EOF\n"@
}

/// The script that sets up a Python project with tests: the code as the
/// test file.
pub open spec fn py_sync_setup_text(dir: Seq<char>, enc: Seq<char>) -> Seq<char> {
    "\nmkdir -p "@ + dir + " && \\\necho '"@ + enc + "' | base64 -d > "@ + dir + "/test_main.py\n"@
}

/// The script that sets up a Python project without tests: the code as
/// the main module and a placeholder test.
pub open spec fn py_plain_setup_text(dir: Seq<char>, enc: Seq<char>) -> Seq<char> {
    "\nmkdir -p "@ + dir + " && \\\necho '"@ + enc + "' | base64 -d > "@ + dir + "/main.py && \\\ncat > "@ + dir + "/test_main.py << 'TEST_EOF'\nimport pytest\nfrom main import *\n\n# Auto-generated test stub\ndef test_placeholder():\n    pass\nTEST_EOF\n"@
}

/// The script that sets up a TypeScript project: the code in the given
/// file, a package, a compiler configuration with the given types line,
/// and a test runner configuration.
pub open spec fn ts_setup_text(dir: Seq<char>, enc: Seq<char>, filename: Seq<char>, types: Seq<char>) -> Seq<char> {
    "\nmkdir -p "@ + dir + " && \\\necho '"@ + enc + "' | base64 -d > "@ + dir + "/"@ + filename + " && \\\ncat > "@ + dir + "/package.json << 'PKG_EOF'\n{\n  \"name\": \"validation\",\n  \"version\": \"1.0.0\",\n  \"scripts\": {\n    \"test\": \"jest --config jest.config.js\"\n  }\n}\nPKG_EOF\ncat > "@ + dir + "/tsconfig.json << TS_EOF\n{\n  \"compilerOptions\": {\n    \"target\": \"ES2020\",\n    \"module\": \"commonjs\",\n    \"strict\": true,\n    \"esModuleInterop\": true,\n    \"skipLibCheck\": true,\n    \"outDir\": \"./dist\",\n    \"typeRoots\": [\"/usr/lib/node_modules/@types\", \"./node_modules/@types\"],\n    "@ + types + "\n  },\n  \"include\": [\"*.ts\"]\n}\nTS_EOF\ncat > "@ + dir + "/jest.config.js << 'JEST_EOF'\nmodule.exports = {\n  transform: {\n    '^.+\\\\.tsx?$': ['ts-jest', { tsconfig: 'tsconfig.json' }]\n  },\n  testEnvironment: 'node',\n  testMatch: ['**/*.test.ts'],\n  moduleFileExtensions: ['ts', 'tsx', 'js', 'jsx', 'json', 'node'],\n};\nJEST_EOF\necho \"TypeScript project setup complete (using global packages)\"\n"@
}

/// The script that sets up a Go module with the code in the given file.
pub open spec fn go_setup_text(dir: Seq<char>, enc: Seq<char>, filename: Seq<char>) -> Seq<char> {
    "\nmkdir -p "@ + dir + " && \\\necho '"@ + enc + "' | base64 -d > "@ + dir + "/"@ + filename + " && \\\ncd "@ + dir + " && go mod init validation 2>&1\n"@
}

/// The script that writes the code to the given file.
pub open spec fn generic_setup_text(dir: Seq<char>, enc: Seq<char>, filename: Seq<char>) -> Seq<char> {
    "\nmkdir -p "@ + dir + " && \\\necho '"@ + enc + "' | base64 -d > "@ + dir + "/"@ + filename + "\n"@
}

fn rust_setup(dir: &str, enc: &str) -> (r: String)
    ensures
        r@ == rust_setup_text(dir@, enc@),
{
    let mut s = String::new();
    append(&mut s, "\nmkdir -p ");
    append(&mut s, dir);
    append(&mut s, "/src && \\\ncat > ");
    append(&mut s, dir);
    append(&mut s, "/Cargo.toml << 'CARGO_EOF'\n[package]\nname = \"validation_project\"\nversion = \"0.1.0\"\nedition = \"2021\"\n\n[dependencies]\ntokio = { version = \"1\", features = [\"full\"] }\nserde = { version = \"1\", features = [\"derive\"] }\nserde_json = \"1\"\nthiserror = \"2\"\nanyhow = \"1\"\nasync-trait = \"0.1\"\nfutures = \"0.3\"\nreqwest = { version = \"0.12\", features = [\"json\"] }\n\n[lints.clippy]\n# Allow common false positives - focus on real errors, not style\nnew_without_default = \"allow\"\nmust_use_candidate = \"allow\"\nmissing_errors_doc = \"allow\"\nmissing_panics_doc = \"allow\"\nmodule_name_repetitions = \"allow\"\nCARGO_EOF\necho '");
    append(&mut s, enc);
    append(&mut s, "' | base64 -d > ");
    append(&mut s, dir);
    append(&mut s, "/src/lib.rs\n");
    assert(s@ =~= rust_setup_text(dir@, enc@));
    s
}

fn py_async_setup(dir: &str, enc: &str) -> (r: String)
    ensures
        r@ == py_async_setup_text(dir@, enc@),
{
    let mut s = String::new();
    append(&mut s, "\npip3 install pytest-asyncio -q 2>/dev/null || true && \\\nmkdir -p ");
    append(&mut s, dir);
    append(&mut s, " && \\\necho '");
    append(&mut s, enc);
    append(&mut s, "' | base64 -d > ");
    append(&mut s, dir);
    append(&mut s, "/test_main.py && \\\ncat > ");
    append(&mut s, dir);
    append(&mut s, "/conftest.py << 'CONFTEST_EOF'\nimport pytest\npytest_plugins = ('pytest_asyncio',)\nCONFTEST_EOF\n");
    assert(s@ =~= py_async_setup_text(dir@, enc@));
    s
}

fn py_sync_setup(dir: &str, enc: &str) -> (r: String)
    ensures
        r@ == py_sync_setup_text(dir@, enc@),
{
    let mut s = String::new();
    append(&mut s, "\nmkdir -p ");
    append(&mut s, dir);
    append(&mut s, " && \\\necho '");
    append(&mut s, enc);
    append(&mut s, "' | base64 -d > ");
    append(&mut s, dir);
    append(&mut s, "/test_main.py\n");
    assert(s@ =~= py_sync_setup_text(dir@, enc@));
    s
}

fn py_plain_setup(dir: &str, enc: &str) -> (r: String)
    ensures
        r@ == py_plain_setup_text(dir@, enc@),
{
    let mut s = String::new();
    append(&mut s, "\nmkdir -p ");
    append(&mut s, dir);
    append(&mut s, " && \\\necho '");
    append(&mut s, enc);
    append(&mut s, "' | base64 -d > ");
    append(&mut s, dir);
    append(&mut s, "/main.py && \\\ncat > ");
    append(&mut s, dir);
    append(&mut s, "/test_main.py << 'TEST_EOF'\nimport pytest\nfrom main import *\n\n# Auto-generated test stub\ndef test_placeholder():\n    pass\nTEST_EOF\n");
    assert(s@ =~= py_plain_setup_text(dir@, enc@));
    s
}

fn ts_setup(dir: &str, enc: &str, filename: &str, types: &str) -> (r: String)
    ensures
        r@ == ts_setup_text(dir@, enc@, filename@, types@),
{
    let mut s = String::new();
    append(&mut s, "\nmkdir -p ");
    append(&mut s, dir);
    append(&mut s, " && \\\necho '");
    append(&mut s, enc);
    append(&mut s, "' | base64 -d > ");
    append(&mut s, dir);
    append(&mut s, "/");
    append(&mut s, filename);
    append(&mut s, " && \\\ncat > ");
    append(&mut s, dir);
    append(&mut s, "/package.json << 'PKG_EOF'\n{\n  \"name\": \"validation\",\n  \"version\": \"1.0.0\",\n  \"scripts\": {\n    \"test\": \"jest --config jest.config.js\"\n  }\n}\nPKG_EOF\ncat > ");
    append(&mut s, dir);
    append(&mut s, "/tsconfig.json << TS_EOF\n{\n  \"compilerOptions\": {\n    \"target\": \"ES2020\",\n    \"module\": \"commonjs\",\n    \"strict\": true,\n    \"esModuleInterop\": true,\n    \"skipLibCheck\": true,\n    \"outDir\": \"./dist\",\n    \"typeRoots\": [\"/usr/lib/node_modules/@types\", \"./node_modules/@types\"],\n    ");
    append(&mut s, types);
    append(&mut s, "\n  },\n  \"include\": [\"*.ts\"]\n}\nTS_EOF\ncat > ");
    append(&mut s, dir);
    append(&mut s, "/jest.config.js << 'JEST_EOF'\nmodule.exports = {\n  transform: {\n    '^.+\\\\.tsx?$': ['ts-jest', { tsconfig: 'tsconfig.json' }]\n  },\n  testEnvironment: 'node',\n  testMatch: ['**/*.test.ts'],\n  moduleFileExtensions: ['ts', 'tsx', 'js', 'jsx', 'json', 'node'],\n};\nJEST_EOF\necho \"TypeScript project setup complete (using global packages)\"\n");
    assert(s@ =~= ts_setup_text(dir@, enc@, filename@, types@));
    s
}

fn go_setup(dir: &str, enc: &str, filename: &str) -> (r: String)
    ensures
        r@ == go_setup_text(dir@, enc@, filename@),
{
    let mut s = String::new();
    append(&mut s, "\nmkdir -p ");
    append(&mut s, dir);
    append(&mut s, " && \\\necho '");
    append(&mut s, enc);
    append(&mut s, "' | base64 -d > ");
    append(&mut s, dir);
    append(&mut s, "/");
    append(&mut s, filename);
    append(&mut s, " && \\\ncd ");
    append(&mut s, dir);
    append(&mut s, " && go mod init validation 2>&1\n");
    assert(s@ =~= go_setup_text(dir@, enc@, filename@));
    s
}

fn generic_setup(dir: &str, enc: &str, filename: &str) -> (r: String)
    ensures
        r@ == generic_setup_text(dir@, enc@, filename@),
{
    let mut s = String::new();
    append(&mut s, "\nmkdir -p ");
    append(&mut s, dir);
    append(&mut s, " && \\\necho '");
    append(&mut s, enc);
    append(&mut s, "' | base64 -d > ");
    append(&mut s, dir);
    append(&mut s, "/");
    append(&mut s, filename);
    append(&mut s, "\n");
    assert(s@ =~= generic_setup_text(dir@, enc@, filename@));
    s
}

/// Whether Python code holds tests.
pub open spec fn python_has_tests(code: Seq<char>) -> bool {
    has_infix(code, "def test_"@) || has_infix(code, "import pytest"@)
}

/// Whether Python code holds async tests.
pub open spec fn python_has_async_tests(code: Seq<char>) -> bool {
    has_infix(code, "@pytest.mark.asyncio"@) || has_infix(code, "async def test_"@)
}

/// Whether TypeScript code holds tests.
pub open spec fn typescript_has_tests(code: Seq<char>) -> bool {
    has_infix(code, "describe("@) || has_infix(code, "it("@) || has_infix(code, "test("@)
}

/// Whether Go code holds tests.
pub open spec fn go_has_tests(code: Seq<char>) -> bool {
    has_infix(code, "func Test"@) || has_infix(code, "testing.T"@)
}

/// The script that sets up a project for some code in a directory: the
/// code travels base64-encoded; tests decide the file names (and, for
/// Python, whether a placeholder test or the async plugin is added, and
/// for TypeScript, whether the test types are declared).
pub open spec fn setup_script_text(l: Language, dir: Seq<char>, code: Seq<char>) -> Seq<char> {
    let enc = base64(vstd::utf8::encode_utf8(code));
    match l {
        Language::Rust => rust_setup_text(dir, enc),
        Language::Python => if python_has_tests(code) {
            if python_has_async_tests(code) {
                py_async_setup_text(dir, enc)
            } else {
                py_sync_setup_text(dir, enc)
            }
        } else {
            py_plain_setup_text(dir, enc)
        },
        Language::TypeScript => if typescript_has_tests(code) {
            ts_setup_text(dir, enc, "main.test.ts"@, "\"types\": [\"jest\", \"node\"]"@)
        } else {
            ts_setup_text(dir, enc, "main.ts"@, "\"types\": []"@)
        },
        Language::Go => go_setup_text(dir, enc, if go_has_tests(code) { "main_test.go"@ } else { "main.go"@ }),
        _ => generic_setup_text(dir, enc, "main."@ + extension_text(l)),
    }
}

/// The script that sets up a project for some code in a directory.
pub fn setup_script(language: Language, project_dir: &str, code: &str) -> (r: String)
    ensures
        r@ == setup_script_text(language, project_dir@, code@),
{
    let encoded = base64_encode(code);
    let cs = chars_of(code);
    match language {
        Language::Rust => rust_setup(project_dir, encoded.as_str()),
        Language::Python => {
            if contains_str(&cs, "def test_") || contains_str(&cs, "import pytest") {
                if contains_str(&cs, "@pytest.mark.asyncio") || contains_str(&cs, "async def test_") {
                    py_async_setup(project_dir, encoded.as_str())
                } else {
                    py_sync_setup(project_dir, encoded.as_str())
                }
            } else {
                py_plain_setup(project_dir, encoded.as_str())
            }
        },
        Language::TypeScript => {
            if contains_str(&cs, "describe(") || contains_str(&cs, "it(") || contains_str(&cs, "test(") {
                ts_setup(project_dir, encoded.as_str(), "main.test.ts", "\"types\": [\"jest\", \"node\"]")
            } else {
                ts_setup(project_dir, encoded.as_str(), "main.ts", "\"types\": []")
            }
        },
        Language::Go => {
            let filename = if contains_str(&cs, "func Test") || contains_str(&cs, "testing.T") {
                "main_test.go"
            } else {
                "main.go"
            };
            go_setup(project_dir, encoded.as_str(), filename)
        },
        _ => {
            let mut filename = to_owned("main.");
            append(&mut filename, language.extension());
            generic_setup(project_dir, encoded.as_str(), filename.as_str())
        },
    }
}

} // verus!
