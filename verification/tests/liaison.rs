use agentic_core::pipeline::liaison_architect::{
    fixed_result, passed_result, refix_prompt, CoherenceReport, IssueCategory, LiaisonArchitect, LiaisonError,
    NameSet, NameSetMapping, SubTaskResult,
};

fn part(id: &str, name: &str, code: &str) -> SubTaskResult {
    SubTaskResult { id: id.to_string(), name: name.to_string(), code: code.to_string(), success: true, error: None }
}

#[test]
fn liaison_architect_test_extract_types() {
    let architect = LiaisonArchitect::new("rust");
    let mut report = CoherenceReport {
        issues: Vec::new(),
        defined_types: NameSet::new(),
        defined_fields: NameSetMapping::new(),
        defined_methods: NameSetMapping::new(),
        used_fields: NameSetMapping::new(),
        used_methods: NameSetMapping::new(),
        declared_imports: NameSet::new(),
        needed_imports: NameSet::new(),
    };

    let code = r#"
            pub struct Scheduler {
                max_concurrent: usize,
                tasks: Vec<Task>,
            }

            pub enum TaskError {
                Timeout,
                Failed,
            }
        "#;

    architect.extract_types(code, &mut report);

    assert!(report.defined_types.contains("Scheduler"));
    assert!(report.defined_types.contains("TaskError"));

    let fields = report.defined_fields.get("Scheduler").unwrap();
    assert!(fields.contains("max_concurrent"));
    assert!(fields.contains("tasks"));
}

#[test]
fn test_detect_missing_field() {
    let architect = LiaisonArchitect::new("rust");

    let results = vec![
        SubTaskResult {
            id: "types".to_string(),
            name: "Types".to_string(),
            code: "pub struct Foo { x: i32 }".to_string(),
            success: true,
            error: None,
        },
        SubTaskResult {
            id: "impl".to_string(),
            name: "Impl".to_string(),
            code: "impl Foo { fn bar(&self) { self.y } }".to_string(),
            success: true,
            error: None,
        },
    ];

    let report = architect.analyze(&results);

    let has_field_issue = report.issues.iter().any(|i| matches!(i.category, IssueCategory::MissingField));
    assert!(has_field_issue, "Should detect missing field 'y'");
}

#[test]
fn missing_field_issue_text_and_fixing() {
    let architect = LiaisonArchitect::new("rust");
    let results = vec![part("types", "Types", "pub struct Foo { x: i32 }"), part("impl", "Impl", "impl Foo { fn bar(&self) { self.y } }")];
    let report = architect.analyze(&results);
    let issue = &report.issues[0];
    assert_eq!(issue.category, IssueCategory::MissingField);
    assert_eq!(issue.description, "Field 'y' used but not defined in struct 'Foo'");
    assert_eq!(issue.location, "impl Foo");
    assert!(architect.needs_fixing(&report));
    assert_eq!(report.defined_methods.get("Foo").unwrap().items(), &vec!["bar".to_string()]);
}

#[test]
fn import_issues_follow_declared_imports() {
    let architect = LiaisonArchitect::new("rust");
    let results = vec![
        part("imports", "Imports", "use std::sync::Arc;\nuse std::collections::HashMap;"),
        part("types", "Types", "pub struct S { a: Arc<Mutex<u8>> }"),
    ];
    let report = architect.analyze(&results);
    assert!(report.declared_imports.contains("std::sync::Arc"));
    assert_eq!(report.needed_imports.items(), &vec!["std::sync::Arc".to_string(), "tokio::sync::Mutex".to_string()]);
    assert_eq!(report.issues.len(), 1);
    assert_eq!(report.issues[0].category, IssueCategory::MissingImport);
    assert_eq!(report.issues[0].description, "May need import for 'tokio::sync::Mutex'");
    assert!(!architect.needs_fixing(&report));
    assert_eq!(architect.summary(&report), "Coherence issues: missing_import: 1");
}

#[test]
fn code_without_common_names_needs_no_imports() {
    let architect = LiaisonArchitect::new("rust");
    let results = vec![part("types", "Types", "pub struct Foo { x: i32 }")];
    let report = architect.analyze(&results);
    assert!(report.issues.is_empty());
    assert!(!architect.needs_fixing(&report));
    assert_eq!(architect.summary(&report), "No coherence issues detected");
}

#[test]
fn missing_method_in_tests() {
    let architect = LiaisonArchitect::new("rust");
    let results = vec![
        part("types", "Types", "pub struct Counter { n: u32 }"),
        part("impl", "Impl", "impl Counter { pub fn new() -> Self { Counter { n: 0 } } pub fn get(&self) -> u32 { self.n } }"),
        part("tests", "Tests", "let c = Counter::new(); c.get(); c.reset(); c.clone();"),
    ];
    let report = architect.analyze(&results);
    let methods: Vec<&str> = report
        .issues
        .iter()
        .filter(|i| i.category == IssueCategory::MissingMethod)
        .map(|i| i.description.as_str())
        .collect();
    assert_eq!(methods, vec!["Method 'reset' called but not defined in impl 'Counter'"]);
}

#[test]
fn syntax_validation() {
    let architect = LiaisonArchitect::new("rust");
    assert_eq!(architect.validate_syntax("fn f() { }"), None);
    assert_eq!(architect.validate_syntax("fn f() {"), Some("Unbalanced braces: 1 open, 0 close".to_string()));
    assert_eq!(architect.validate_syntax("f(()"), Some("Unbalanced parentheses: 2 open, 1 close".to_string()));
    assert_eq!(architect.validate_syntax("a[0]]"), Some("Unbalanced brackets: 1 open, 2 close".to_string()));
}

#[test]
fn minimal_prompt_and_summary() {
    let architect = LiaisonArchitect::new("rust");
    let empty = CoherenceReport::new();
    assert_eq!(architect.generate_minimal_fix_prompt("code", &empty), None);
    assert_eq!(architect.summary(&empty), "No coherence issues detected");
    let results = vec![part("types", "Types", "pub struct Foo { x: i32 }"), part("impl", "Impl", "impl Foo { fn bar(&self) { self.y } }")];
    let report = architect.analyze(&results);
    let p = architect.generate_minimal_fix_prompt("CODE", &report).unwrap();
    assert!(p.starts_with("Fix these specific issues in the Rust code:\n\n- impl Foo: Field 'y' used but not defined in struct 'Foo'\n"));
    assert!(p.ends_with("\n=== CODE ===\nCODE\n\n=== INSTRUCTIONS ===\nReturn the FIXED code. Keep everything else the same. No markdown.\n"));
    let full = architect.generate_fix_prompt(&results, &report);
    assert!(full.contains("- MissingField: Field 'y' used but not defined in struct 'Foo' (in impl Foo)\n"));
    assert!(full.contains("- Foo\n    field: x\n    method: bar\n"));
    assert!(full.contains("--- Types (types) ---\npub struct Foo { x: i32 }\n\n"));
}

#[test]
fn liaison_results_and_errors() {
    let mut failed = part("impl", "Impl", "bad");
    failed.success = false;
    let results = vec![part("types", "Types", "struct A;"), failed, part("tests", "Tests", "t();")];
    let passed = passed_result(&results);
    assert_eq!(passed.id, "liaison_passed");
    assert_eq!(passed.code, "struct A;\n\nt();");
    assert_eq!(fixed_result("x".to_string()).name, "Liaison Fixed");
    assert_eq!(
        refix_prompt("Unbalanced braces: 1 open, 0 close", "fn f() {"),
        "The code has a syntax error: Unbalanced braces: 1 open, 0 close\n\nFix the syntax and return the complete, corrected Rust code.\nNo markdown, no explanations.\n\nfn f() {"
    );
    assert_eq!(LiaisonError::SyntaxError("x".to_string()).to_string(), "Syntax error: x");
}
