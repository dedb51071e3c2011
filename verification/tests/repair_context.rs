use agentic_core::pipeline::repair_context::{
    ErrorContext, ErrorContextExtractor, ErrorPattern, FocusedPromptBuilder, RepairEngine, RepairSuggestion,
};
use agentic_core::pipeline::repair_engine::SurgicalRepair;
use agentic_core::pipeline::sandbox_validator::Language;

#[test]
fn test_extract_typescript_location() {
    let extractor = ErrorContextExtractor::new();

    let code = r#"function test() {
    const x = 1;
    throw new Error(Invalid value ${x});
    return x;
}"#;

    let error = "main.ts(3,22): error TS1005: ',' expected";
    let ctx = extractor.extract(code, error).unwrap();

    assert_eq!(ctx.file, Some("main.ts".to_string()));
    assert_eq!(ctx.line, Some(3));
    assert_eq!(ctx.column, Some(22));
    assert!(ctx.code_line.as_ref().unwrap().contains("Error"));
    assert_eq!(ctx.error_code, Some("TS1005".to_string()));
}

#[test]
fn test_detect_template_literal_pattern() {
    let extractor = ErrorContextExtractor::new();

    let code = r#"throw new Error(Invalid state ${state});"#;
    let error = "main.ts(1,20): error TS1005: ',' expected";

    let ctx = extractor.extract(code, error).unwrap();
    assert!(ctx.detected_pattern.is_some());
    assert_eq!(ctx.detected_pattern.as_ref().unwrap().id, "TEMPLATE_LITERAL_NO_BACKTICKS");
}

#[test]
fn extract_reads_lines_around_and_suggests_backticks() {
    let extractor = ErrorContextExtractor::new();
    let code = "a\nb\nthrow new Error(\"bad ${x}\");\nd\ne\nf";
    let ctx = extractor.extract(code, "main.ts(3,1): error TS1005").unwrap();
    assert_eq!(ctx.lines_before, vec![(1, "a".to_string()), (2, "b".to_string())]);
    assert_eq!(ctx.lines_after, vec![(4, "d".to_string()), (5, "e".to_string())]);
    let p = ctx.detected_pattern.unwrap();
    assert_eq!(p.confidence, 95);
    assert_eq!(p.example_fix, Some("throw new Error(`bad ${x}`)".to_string()));
}

#[test]
fn extract_without_location_has_no_line() {
    let extractor = ErrorContextExtractor::new();
    let ctx = extractor.extract("x", "something failed").unwrap();
    assert_eq!(ctx.line, None);
    assert_eq!(ctx.code_line, None);
    assert!(ctx.detected_pattern.is_none());
    assert_eq!(extractor.extract_all("x", &["e1".to_string(), "e2".to_string()]).len(), 2);
}

#[test]
fn test_repair_suggestion() {
    let extractor = ErrorContextExtractor::new();

    let code = r#"throw new Error(Invalid: ${x});"#;
    let error = "main.ts(1,20): error TS1005: ',' expected";

    let ctx = extractor.extract(code, error).unwrap();
    let suggestions = RepairSuggestion::from_contexts(&[ctx]);

    assert!(!suggestions.is_empty());
    assert!(suggestions[0].suggested.contains('`'));
}

#[test]
fn test_focused_prompt_builder() {
    let contexts = vec![ErrorContext {
        error_message: "TS1005: ',' expected".to_string(),
        file: Some("main.ts".to_string()),
        line: Some(5),
        column: Some(20),
        code_line: Some("throw new Error(test ${x});".to_string()),
        lines_before: vec![(4, "const x = 1;".to_string())],
        lines_after: vec![(6, "return x;".to_string())],
        error_code: Some("TS1005".to_string()),
        detected_pattern: Some(ErrorPattern {
            id: "TEMPLATE_LITERAL_NO_BACKTICKS",
            description: "Missing backticks".to_string(),
            fix_instruction: "Add backticks".to_string(),
            example_fix: None,
            confidence: 90,
        }),
    }];

    let prompt = FocusedPromptBuilder::new().with_contexts(&contexts).with_language(Language::TypeScript).build();

    assert!(prompt.contains("Error 1"));
    assert!(prompt.contains("main.ts:5"));
    assert!(prompt.contains("BACKTICKS"));
}

#[test]
fn test_repair_engine() {
    let engine = RepairEngine::new();

    let code = r#"function test() {
    throw new Error(Bad value ${x});
}"#;
    let errors = vec!["main.ts(2,22): error TS1005: ',' expected".to_string()];

    let analysis = engine.analyze(code, &errors, Language::TypeScript, None);

    assert!(analysis.has_suggestions);
    assert!(analysis.confidence > 50);
    assert!(analysis.prompt.contains("BACKTICKS"));
}

#[test]
fn suggestions_fix_template_literals_and_add_await() {
    let extractor = ErrorContextExtractor::new();
    let ctx = extractor.extract("throw new Error(\"bad ${x}\");", "main.ts(1,1): error TS1005").unwrap();
    let s = RepairSuggestion::from_context(&ctx).unwrap();
    assert_eq!(s.suggested, "throw new Error(`bad ${x}`);");
    assert_eq!(s.confidence, 95);
    assert!(s.can_auto_apply());
    let ctx2 = extractor
        .extract("const r: Promise<Data> = fetchData();", "main.ts(1,7): Type 'Promise<Data>' is not assignable to type 'Data'")
        .unwrap();
    let s2 = RepairSuggestion::from_context(&ctx2).unwrap();
    assert_eq!(s2.suggested, "const r: Promise<Data> = await fetchData();");
    assert_eq!(s2.confidence, 80);
    assert!(!s2.can_auto_apply());
}

#[test]
fn surgical_apply_keeps_indentation_and_skips_mismatches() {
    let s = RepairSuggestion {
        line: Some(2),
        original: "throw new Error(Bad ${x});".to_string(),
        suggested: "throw new Error(`Bad ${x}`);".to_string(),
        explanation: "x".to_string(),
        confidence: 95,
    };
    let code = "function f() {\n    throw new Error(Bad ${x});\n}";
    assert_eq!(
        SurgicalRepair::apply(code, &[s.clone()]).unwrap(),
        "function f() {\n    throw new Error(`Bad ${x}`);\n}"
    );
    let mut other = s.clone();
    other.line = Some(1);
    assert_eq!(SurgicalRepair::apply(code, &[other]), None);
}

#[test]
fn minimal_prompt_lists_fixes_with_lines() {
    let s = RepairSuggestion {
        line: Some(3),
        original: "  a ".to_string(),
        suggested: " b".to_string(),
        explanation: "why".to_string(),
        confidence: 50,
    };
    let p = FocusedPromptBuilder::new().with_suggestions(&[s]).build_minimal();
    assert_eq!(
        p,
        "FIX THESE SPECIFIC ISSUES:\n\nLine 3: Change\n  FROM: a\n  TO:   b\n  (why))\n\nApply these fixes and return the complete corrected code.\n"
    );
}

#[test]
fn engine_repairs_surgically_when_sure() {
    let engine = RepairEngine::new();
    let code = "function test() {\n    throw new Error(Bad value ${x});\n}";
    let errors = vec!["main.ts(2,22): error TS1005: ',' expected".to_string()];
    let a = engine.analyze(code, &errors, Language::TypeScript, Some("Write a test"));
    assert_eq!(a.confidence, 95);
    assert_eq!(a.surgical_fix_count, 1);
    assert_eq!(a.surgical_fix.unwrap(), "function test() {\n    throw new Error(`Bad value ${x}`);\n}");
    assert!(a.prompt.contains("TASK: Write a test"));
}
