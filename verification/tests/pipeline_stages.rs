use agentic_core::pipeline::go_extractor::GoExtractor;
use agentic_core::pipeline::incremental_pipeline::{
    generate_stage_fix_prompt, get_extractor, AnyExtractor, IncrementalResult, LanguageExtractor, Stage,
    StageValidation,
};
use agentic_core::pipeline::python_extractor::PythonExtractor;
use agentic_core::pipeline::rust_extractor::{CodeExtractor, RustExtractor};
use agentic_core::pipeline::sandbox_validator::Language;
use agentic_core::pipeline::shell_extractor::ShellExtractor;
use agentic_core::pipeline::typescript_extractor::TypeScriptExtractor;

#[test]
fn incremental_pipeline_test_extract_types() {
    let code = r#"
use std::collections::HashMap;
use tokio::sync::Mutex;

#[derive(Debug, Clone)]
pub struct TaskId(pub u64);

pub enum TaskError {
    Timeout,
    Failed,
}

impl TaskId {
    pub fn new(id: u64) -> Self {
        Self(id)
    }

    pub fn value(&self) -> u64 {
        self.0
    }
}

pub struct Scheduler {
    tasks: HashMap<TaskId, String>,
}
"#;

    let types = CodeExtractor::extract_types(code);

    assert!(types.contains("use std::collections::HashMap"));
    assert!(types.contains("pub struct TaskId"));
    assert!(types.contains("pub enum TaskError"));
    assert!(types.contains("pub struct Scheduler"));
    assert!(!types.contains("pub fn new"));
    assert!(!types.contains("pub fn value"));
}

#[test]
fn test_extract_stubs() {
    let code = r#"
use std::time::Duration;

pub struct Scheduler {
    max: usize,
}

impl Scheduler {
    pub fn new(max: usize) -> Self {
        Self { max }
    }

    pub async fn run(&self) -> Vec<u64> {
        let mut results = Vec::new();
        for i in 0..self.max {
            results.push(i as u64);
        }
        results
    }
}
"#;

    let stubs = CodeExtractor::extract_stubs(code);

    assert!(stubs.contains("pub struct Scheduler"));
    assert!(stubs.contains("pub fn new"));
    assert!(stubs.contains("pub async fn run"));
    assert!(stubs.contains("todo!()"));
    assert!(!stubs.contains("for i in 0..self.max"));
}

#[test]
fn test_stage_progression() {
    assert_eq!(Stage::Types.next(), Some(Stage::Stubs));
    assert_eq!(Stage::Stubs.next(), Some(Stage::Logic));
    assert_eq!(Stage::Logic.next(), None);
}

#[test]
fn rust_types_exact_text() {
    let code = "use a::b;\n#[derive(Debug)]\nstruct P {\n    x: u8,\n}\nfn f() {}\ntype T = u8;\n";
    assert_eq!(
        RustExtractor::extract_types(code),
        "use a::b;\n#[derive(Debug)]\nstruct P {\n    x: u8,\n}\n\ntype T = u8;\n\n"
    );
}

#[test]
fn rust_stubs_exact_text() {
    let code = "struct S;\nimpl S {\n    fn a(&self) -> u8 {\n        1\n    }\n}\n";
    assert_eq!(
        RustExtractor::extract_stubs(code),
        "struct S;\n\nimpl S {\n    fn a(&self) -> u8 { todo!() }\n}\n\n\n"
    );
}

#[test]
fn rust_for_stage_and_logic() {
    let code = "fn main() {}\n";
    assert_eq!(RustExtractor::for_stage(Stage::Logic, code), code);
    assert_eq!(RustExtractor::extract_logic(code), code);
    assert_eq!(RustExtractor::for_stage(Stage::Types, code), "");
}

#[test]
fn go_extraction() {
    let code = "package main\n\nimport \"fmt\"\n\ntype P struct {\n\tX int\n}\n\nfunc main() {\n\tfmt.Println(1)\n}\n";
    let go = GoExtractor;
    assert_eq!(go.extract_types(code), "package main\n\nimport \"fmt\"\ntype P struct {\n\tX int\n}\n\n");
    assert_eq!(
        go.extract_stubs(code),
        "package main\n\nimport \"fmt\"\ntype P struct {\n\tX int\n}\n\nfunc main() {\n\tpanic(\"TODO\")\n}\n\n"
    );
}

#[test]
fn shell_extraction() {
    let code = "#!/bin/bash\n# setup\n\nrun() {\n  echo hi\n}\necho done\n";
    let sh = ShellExtractor;
    assert_eq!(sh.extract_types(code), "#!/bin/bash\n# setup\n\n");
    assert_eq!(sh.extract_stubs(code), "#!/bin/bash\n# setup\n\nrun() { echo 'TODO' && exit 1; }\n");
}

#[test]
fn python_extraction() {
    let code = "import os\nclass Color(Enum):\n    RED = 1\n\ndef f(x):\n    return x\n\nclass Box:\n    pass\n";
    let py = PythonExtractor;
    assert_eq!(py.extract_types(code), "import os\nclass Color(Enum):\n");
    assert_eq!(
        py.extract_stubs(code),
        "import os\nclass Color(Enum):\ndef f(x):\n    raise NotImplementedError()\n\nclass Box:\n"
    );
}

#[test]
fn typescript_extraction() {
    let code = "import { a } from 'b';\ninterface P {\n  x: number;\n}\nfunction f(a: number): number {\n  return a;\n}\nconst g = (x: number) => {\n  return x;\n};\n";
    let ts = TypeScriptExtractor;
    assert_eq!(ts.extract_types(code), "import { a } from 'b';\ninterface P {\n  x: number;\n}\n\n");
    assert_eq!(
        ts.extract_stubs(code),
        "import { a } from 'b';\ninterface P {\n  x: number;\n}\n\nfunction f(a: number): number { throw new Error('TODO'); }\n\nconst g = (x: number) => { throw new Error('TODO'); };\n\n"
    );
}

#[test]
fn extractor_for_each_language() {
    assert_eq!(get_extractor(Language::JavaScript).language(), Language::TypeScript);
    assert_eq!(get_extractor(Language::Rust).stub_body(), "todo!()");
    assert!(matches!(get_extractor(Language::Shell), AnyExtractor::Shell(_)));
    assert_eq!(get_extractor(Language::Go).stub_body(), "panic(\"TODO\")");
}

fn stage(stage: Stage, passed: bool, code: &str, errors: Vec<String>) -> StageValidation {
    StageValidation { stage, passed, code: code.to_string(), errors, duration_ms: 1 }
}

#[test]
fn incremental_result_stops_at_first_failure() {
    let mut r = IncrementalResult::start();
    assert!(r.record(stage(Stage::Types, true, "t", vec![])));
    assert!(!r.record(stage(Stage::Stubs, false, "s", vec!["e1\nmore".to_string(), "e2".to_string()])));
    assert!(!r.passed);
    assert_eq!(r.failed_stage, Some(Stage::Stubs));
    assert_eq!(r.last_passed_stage, Some(Stage::Types));
    assert_eq!(r.validated_code.get(Stage::Types).unwrap(), "t");
    assert!(r.validated_code.get(Stage::Stubs).is_none());
    assert_eq!(r.summary(), "[types: ✓ → stubs: ✗] FAILED at stubs");
    assert_eq!(r.errors(), vec!["e1\nmore".to_string(), "e2".to_string()]);
    assert_eq!(r.code_to_fix(), Some("s"));
}

#[test]
fn incremental_result_all_passed() {
    let mut r = IncrementalResult::start();
    for s in Stage::all() {
        assert!(r.record(stage(s, true, s.name(), vec![])));
    }
    assert!(r.passed);
    assert_eq!(r.summary(), "[types: ✓ → stubs: ✓ → logic: ✓] ALL PASSED");
    assert!(r.errors().is_empty());
    assert_eq!(r.code_to_fix(), None);
    assert_eq!(r.validated_code.len(), 3);
}

#[test]
fn fix_prompt_for_types_stage() {
    let errors = vec!["bad type\nsecond line".to_string()];
    let p = generate_stage_fix_prompt(Language::Rust, Stage::Types, "struct A", &errors, "full");
    assert_eq!(
        p,
        "=== RUST FAILED AT STAGE: TYPES ===\n\nThe TYPE DEFINITIONS have errors.\nFix ONLY the struct/enum/type definitions.\n\n=== ERRORS ===\nbad type\n\n=== CODE TO FIX ===\nstruct A\n\n=== INSTRUCTIONS ===\nReturn the COMPLETE fixed code (all stages combined).\nNO markdown. NO explanations.\n"
    );
}

#[test]
fn fix_prompt_truncates_long_context() {
    let full = "x".repeat(2500);
    let p = RustExtractor.generate_fix_prompt(Stage::Logic, "fn f", &[], &full);
    assert!(p.contains(&format!("{}\n... (truncated)", "x".repeat(2000))));
    assert!(!p.contains(&"x".repeat(2001)));
}

#[test]
fn one_line_functions_each_get_a_stub() {
    let code = "impl Foo {\n    fn a() -> u8 { 1 }\n    fn b() -> u8 { 2 }\n}\n";
    let s = agentic_core::pipeline::rust_extractor::RustExtractor::extract_stubs(code);
    assert!(s.contains("fn a() -> u8 { todo!() }"));
    assert!(s.contains("fn b() -> u8 { todo!() }"));
    assert_eq!(s.matches('{').count(), s.matches('}').count());
}
