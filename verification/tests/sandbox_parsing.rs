use agentic_core::pipeline::sandbox_validator::{advance, ValidationPhase, ValidationStep};
use agentic_core::pipeline::output_parsers::{
    extract_warnings, parse_clippy_errors, parse_compiler_errors, parse_go_test_output, parse_jest_output,
    parse_number, parse_pytest_output, parse_rust_test_output, parse_test_results,
};
use agentic_core::pipeline::sandbox_validator::{
    compile_failure, lint_failure, setup_failure, test_outcome, Language, SandboxValidationResult,
};

#[test]
fn test_parse_rust_errors() {
    let stderr = r#"
error[E0308]: mismatched types
 --> src/lib.rs:4:5
  |
3 | pub fn broken() -> i32 {
  |                    --- expected `i32` because of return type
4 |     "hello"
  |     ^^^^^^^ expected `i32`, found `&str`
"#;

    let errors = parse_compiler_errors("", stderr);
    assert!(!errors.is_empty());
    assert!(errors[0].contains("E0308"));
}

#[test]
fn test_parse_rust_test_results() {
    let output = r#"
running 3 tests
test tests::test_one ... ok
test tests::test_two ... FAILED
test tests::test_three ... ok

failures:

---- tests::test_two stdout ----
thread 'tests::test_two' panicked at src/lib.rs:15:9:
assertion `left == right` failed
  left: 1
 right: 2

test result: FAILED. 2 passed; 1 failed; 0 ignored
"#;

    let (total, passed, failed, errors) = parse_rust_test_output(output);

    assert_eq!(total, 3);
    assert_eq!(passed, 2);
    assert_eq!(failed, 1);
    assert!(!errors.is_empty());
}

#[test]
fn compiler_errors_with_context_and_fallback() {
    let errors = parse_compiler_errors("", "error: bad\n --> src/lib.rs:1:1\nother");
    assert_eq!(errors, vec!["error: bad\n --> src/lib.rs:1:1".to_string()]);
    assert_eq!(parse_compiler_errors("  plain failure  ", ""), vec!["plain failure".to_string()]);
    assert!(parse_compiler_errors("", "").is_empty());
}

#[test]
fn warnings_and_lints() {
    assert_eq!(extract_warnings("warning: unused\nok", "warn[x]"), vec!["warning: unused".to_string(), "warn[x]".to_string()]);
    let lints = parse_clippy_errors("warning: a\n  --> x.rs:1\n= help: try\nerror: aborting due to 1 previous error", "");
    assert_eq!(lints, vec!["warning: a\n  --> x.rs:1\n= help: try".to_string()]);
}

#[test]
fn numbers_parse_like_std() {
    assert_eq!(parse_number("42"), Some(42));
    assert_eq!(parse_number("+7"), Some(7));
    assert_eq!(parse_number(""), None);
    assert_eq!(parse_number("4294967296"), None);
    assert_eq!(parse_number("4294967295"), Some(4294967295));
    assert_eq!(parse_number("1a"), None);
}

#[test]
fn runner_outputs() {
    let (t, p, f, e) = parse_pytest_output("test_a FAILED\n===== 3 passed, 1 failed in 0.1s =====");
    assert_eq!((t, p, f), (4, 3, 1));
    assert_eq!(e, vec!["test_a FAILED".to_string()]);
    let (t, p, f, _) = parse_jest_output("Tests:       1 failed, 2 passed, 3 total");
    assert_eq!((t, p, f), (3, 2, 1));
    let (t, p, f, e) = parse_go_test_output("--- PASS: TestA (0.00s)\n--- FAIL: TestB (0.00s)\nFAIL\tpkg");
    assert_eq!((t, p, f), (2, 1, 1));
    assert_eq!(e, vec!["--- FAIL: TestB (0.00s)".to_string(), "FAIL\tpkg".to_string()]);
    let (t, _, _, e) = parse_test_results("out", "err", Language::Shell);
    assert_eq!(t, 0);
    assert_eq!(e, vec!["out\nerr".to_string()]);
}

#[test]
fn validation_steps() {
    let r = setup_failure("no disk", 5);
    assert!(!r.compiles);
    assert_eq!(r.compiler_errors, vec!["Project setup failed: no disk".to_string()]);
    let r = compile_failure("", "error[E0425]: x", 1);
    assert_eq!(r.compiler_errors, vec!["error[E0425]: x".to_string()]);
    assert!(lint_failure("", "", 1).is_none());
    let r = test_outcome("test result: ok. 2 passed; 0 failed", "", 0, true, Language::Rust, 9);
    assert!(r.passed);
    assert_eq!(r.test_count, 2);
    let r = test_outcome("", "", 101, false, Language::Rust, 9);
    assert!(!r.passed);
    assert_eq!(
        r.test_errors,
        vec!["Test failed with exit code 101 but no output captured. Check for panics, timeouts, or infinite loops.".to_string()]
    );
    let r: SandboxValidationResult = test_outcome("x", "", -1, false, Language::Go, 9);
    assert_eq!(r.test_errors, vec!["Test failed (exit code -1):\nx\n".to_string()]);
}

#[test]
fn checked_test_outcome_reports_failures_with_feedback() {
    let out = "running 2 tests\ntest a ... ok\ntest b ... FAILED\n\ntest result: FAILED. 1 passed; 1 failed; 0 ignored";
    let r = agentic_core::pipeline::sandbox_validator::checked_test_outcome(out, "", 101, false, agentic_core::pipeline::sandbox_validator::Language::Rust, 7).unwrap();
    assert!(!r.passed);
    assert_eq!(r.test_count, 2);
    assert_eq!(r.tests_ok, 1);
    assert!(r.feedback.unwrap().starts_with("TESTS FAILED: 1/2 passed"));
    assert_eq!(r.execution_time_ms, 7);
}

#[test]
fn validation_runs_setup_compile_lint_then_tests() {
    match advance(Language::Rust, "/w/p", true, ValidationPhase::Setup, true, "", "", 0, 1) {
        ValidationStep::Run(ValidationPhase::Compile, c) => assert!(c.contains("cargo check")),
        other => panic!("unexpected {:?}", other),
    }
    match advance(Language::Rust, "/w/p", true, ValidationPhase::Compile, true, "", "", 0, 1) {
        ValidationStep::Run(ValidationPhase::Lint, c) => assert!(c.contains("cargo clippy")),
        other => panic!("unexpected {:?}", other),
    }
    match advance(Language::Rust, "/w/p", true, ValidationPhase::Lint, true, "", "", 0, 1) {
        ValidationStep::Run(ValidationPhase::Test, c) => assert!(c.contains("cargo test")),
        other => panic!("unexpected {:?}", other),
    }
    match advance(Language::Rust, "/w/p", false, ValidationPhase::Lint, true, "", "", 0, 9) {
        ValidationStep::Finish(v, clean) => {
            assert!(v.passed && clean);
            assert_eq!(v.test_count, 0);
            assert_eq!(v.execution_time_ms, 9);
        },
        other => panic!("unexpected {:?}", other),
    }
    match advance(Language::Python, "/w/p", true, ValidationPhase::Setup, true, "", "", 0, 1) {
        ValidationStep::Run(ValidationPhase::Lint, _) => {},
        other => panic!("unexpected {:?}", other),
    }
    match advance(Language::Rust, "/w/p", true, ValidationPhase::Setup, false, "", "disk full", 1, 2) {
        ValidationStep::Finish(v, clean) => {
            assert!(!clean && !v.compiles);
            assert_eq!(v.compiler_errors, vec!["Project setup failed: disk full".to_string()]);
        },
        other => panic!("unexpected {:?}", other),
    }
    match advance(Language::Rust, "/w/p", true, ValidationPhase::Compile, false, "", "error[E0425]: cannot find value `x`", 1, 2) {
        ValidationStep::Finish(v, clean) => assert!(clean && !v.compiles),
        other => panic!("unexpected {:?}", other),
    }
}

#[test]
fn setup_scripts_follow_the_code() {
    use_setup();
}

fn use_setup() {
    let go = agentic_core::pipeline::sandbox_validator::setup_script(
        agentic_core::pipeline::sandbox_validator::Language::Go,
        "/w/p",
        "func TestX(t *testing.T) {}",
    );
    let enc = agentic_core::pipeline::sandbox_validator::base64_encode("func TestX(t *testing.T) {}");
    assert_eq!(
        go,
        format!("\nmkdir -p /w/p && \\\necho '{}' | base64 -d > /w/p/main_test.go && \\\ncd /w/p && go mod init validation 2>&1\n", enc)
    );
    let py = agentic_core::pipeline::sandbox_validator::setup_script(
        agentic_core::pipeline::sandbox_validator::Language::Python,
        "/w/p",
        "print(1)",
    );
    assert!(py.contains("/w/p/main.py") && py.contains("def test_placeholder():"));
    let ts = agentic_core::pipeline::sandbox_validator::setup_script(
        agentic_core::pipeline::sandbox_validator::Language::TypeScript,
        "/w/p",
        "describe('x', () => {});",
    );
    assert!(ts.contains("/w/p/main.test.ts") && ts.contains("\"types\": [\"jest\", \"node\"]"));
    let rs = agentic_core::pipeline::sandbox_validator::setup_script(
        agentic_core::pipeline::sandbox_validator::Language::Rust,
        "/w/p",
        "fn main() {}",
    );
    assert!(rs.starts_with("\nmkdir -p /w/p/src && \\\ncat > /w/p/Cargo.toml << 'CARGO_EOF'\n[package]\n"));
    assert!(rs.ends_with("' | base64 -d > /w/p/src/lib.rs\n"));
}

#[test]
fn lint_failure_carries_feedback() {
    let out = "warning: unused variable: `x`\n --> src/lib.rs:1:5\nerror: could not compile";
    match advance(agentic_core::pipeline::sandbox_validator::Language::Rust, "/w/p", true, ValidationPhase::Lint, false, out, "", 101, 4) {
        ValidationStep::Finish(v, clean) => {
            assert!(clean && v.compiles && !v.passed);
            assert_eq!(v.test_count, 0);
            assert!(v.feedback.unwrap().starts_with("LINT ERRORS (code compiles but has issues):\n\n"));
        },
        ValidationStep::Run(p, _) => panic!("lint errors were not read: {:?}", p),
    }
}
