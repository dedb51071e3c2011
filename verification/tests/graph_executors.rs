use agentic_core::graph::executor::{ExecutorKind, ValidationResult};
use agentic_core::graph::executors::code_assembler::{
    comment_prefix, extract_imports, remove_imports, AssemblyInput, CodeAssemblerExecutor, CodePart, SeparatorStyle,
};
use agentic_core::graph::executors::compile_validator::{CompileInput, CompileOutput};
use agentic_core::graph::executors::llm_generator::{extract_code_from_response, GeneratedCode, GeneratorInput};
use agentic_core::graph::executors::test_validator::{TestInput, TestOutput};
use agentic_core::graph::superstep::SuperstepMetrics;

#[test]
fn test_executor_kind_display() {
    assert_eq!(ExecutorKind::Worker.to_string(), "Worker");
    assert_eq!(ExecutorKind::Validator.to_string(), "Validator");
    assert_eq!(ExecutorKind::Orchestrator.to_string(), "Orchestrator");
}

#[test]
fn test_validation_result_success() {
    let result = ValidationResult::success();
    assert!(result.passed);
    assert!(result.errors.is_empty());
}

#[test]
fn test_validation_result_failure() {
    let result = ValidationResult::failure(vec!["Error 1".into(), "Error 2".into()]).with_feedback("Fix the errors");

    assert!(!result.passed);
    assert_eq!(result.errors.len(), 2);
    assert_eq!(result.feedback, Some("Fix the errors".into()));
}

#[test]
fn test_code_part() {
    let part = CodePart::new("types", "struct Foo {}", "rust").with_section("Type Definitions");

    assert_eq!(part.name, "types");
    assert_eq!(part.section, Some("Type Definitions".into()));
}

#[test]
fn test_assembly_input() {
    let input = AssemblyInput::new("rust")
        .add_part(CodePart::new("a", "struct A {}", "rust"))
        .add_part(CodePart::new("b", "struct B {}", "rust"));

    assert_eq!(input.parts.len(), 2);
    assert_eq!(input.language, "rust");
}

#[test]
fn test_extract_imports_rust() {
    let code = "use std::io;\nuse std::fs;\n\nfn main() {}";
    let imports = extract_imports(code, "rust");
    assert_eq!(imports.len(), 2);
}

#[test]
fn test_comment_prefix() {
    assert_eq!(comment_prefix("rust"), "//");
    assert_eq!(comment_prefix("python"), "#");
}

#[test]
fn remove_imports_keeps_other_lines() {
    let code = "use std::io;\nuse std::fs;\n\nfn main() {}";
    assert_eq!(remove_imports(code, "rust"), "fn main() {}");
}

#[test]
fn assemble_parts_collects_imports_and_sections() {
    let executor = CodeAssemblerExecutor::new("assembler").with_separator_style(SeparatorStyle::Simple);
    let input = AssemblyInput::new("rust")
        .add_part(CodePart::new("a", "use std::io;\nstruct A {}", "rust"))
        .add_part(CodePart::new("b", "use std::io;\nuse std::fs;\nstruct B {}", "rust"));
    let out = executor.assemble_parts(&input);
    assert!(out.starts_with("use std::fs;\nuse std::io;\n"));
    assert!(out.contains("struct A {}"));
    assert!(out.contains("struct B {}"));
    assert_eq!(out.matches("use std::io;").count(), 1);
}

#[test]
fn test_compile_input() {
    let input = CompileInput::new("fn main() {}", "rust").with_task("Write a function");

    assert_eq!(input.code, "fn main() {}");
    assert_eq!(input.language, "rust");
    assert!(input.task.is_some());
}

#[test]
fn test_compile_output_passed() {
    let output = CompileOutput {
        code: "fn main() {}".into(),
        language: "rust".into(),
        passed: true,
        errors: vec![],
        feedback: None,
        execution_time_ms: 100,
    };

    assert!(output.is_passed());
}

#[test]
fn test_generator_input() {
    let input = GeneratorInput::new("Write fibonacci", "rust")
        .with_context("pub trait Sequence { fn next(&mut self) -> u64; }")
        .with_errors(vec!["error[E0308]: expected i32".into()]);

    assert_eq!(input.prompt, "Write fibonacci");
    assert_eq!(input.language, "rust");
    assert!(input.context.is_some());
    assert_eq!(input.previous_errors.len(), 1);
}

#[test]
fn test_generated_code() {
    let code = GeneratedCode::new("fn main() {}", "rust").with_tokens(100);

    assert_eq!(code.language, "rust");
    assert_eq!(code.tokens_used, 100);
}

#[test]
fn test_code_extraction() {
    let response = "Here's the code:\n```rust\nfn main() {}\n```\nThat's it.";
    let extracted = extract_code_from_response(response, true);
    assert_eq!(extracted, "fn main() {}");
}

#[test]
fn code_extraction_without_fence_or_disabled() {
    assert_eq!(extract_code_from_response("  fn f() {}  ", true), "  fn f() {}  ");
    assert_eq!(extract_code_from_response("```rust\nx\n```", false), "```rust\nx\n```");
}

#[test]
fn test_test_input() {
    let input = TestInput::new("fn main() {}", "rust").with_filter("test_").with_task("Write tests");

    assert_eq!(input.code, "fn main() {}");
    assert_eq!(input.language, "rust");
    assert_eq!(input.test_filter, Some("test_".into()));
}

#[test]
fn test_test_output_passed() {
    let output = TestOutput {
        code: "fn main() {}".into(),
        language: "rust".into(),
        passed: true,
        test_count: 5,
        tests_passed: 5,
        tests_failed: 0,
        errors: vec![],
        feedback: None,
        execution_time_ms: 100,
    };

    assert!(output.is_passed());
}

#[test]
fn test_test_output_partial_failure() {
    let output = TestOutput {
        code: "fn main() {}".into(),
        language: "rust".into(),
        passed: false,
        test_count: 5,
        tests_passed: 4,
        tests_failed: 1,
        errors: vec!["test_add failed".into()],
        feedback: None,
        execution_time_ms: 100,
    };

    assert!(!output.is_passed());
}

#[test]
fn test_superstep_metrics() {
    let mut metrics = SuperstepMetrics::new(3);

    metrics.record_execution(10, 5, 2);
    metrics.record_execution(8, 3, 1);
    metrics.record_failure();
    metrics.set_duration(150);

    assert_eq!(metrics.superstep, 3);
    assert_eq!(metrics.executor_count, 2);
    assert_eq!(metrics.messages_processed, 18);
    assert_eq!(metrics.messages_produced, 8);
    assert_eq!(metrics.outputs_yielded, 3);
    assert_eq!(metrics.failure_count, 1);
    assert_eq!(metrics.duration_ms, 150);
}
