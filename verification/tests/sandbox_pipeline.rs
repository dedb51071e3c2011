use agentic_core::pipeline::sandbox_pipeline::{passed_feedback, sandbox_language, sandbox_recommendations};
use agentic_core::pipeline::sandbox_validator::Language;

#[test]
fn languages_by_name() {
    assert!(matches!(sandbox_language("rust"), Ok(Language::Rust)));
    assert!(matches!(sandbox_language("python"), Ok(Language::Python)));
    assert!(matches!(sandbox_language("typescript"), Ok(Language::TypeScript)));
    match sandbox_language("cobol") {
        Err(m) => assert_eq!(m, "Unsupported language: cobol"),
        Ok(_) => panic!("cobol is not supported"),
    }
}

#[test]
fn recommendations_are_sorted_and_unique() {
    let errors = vec![
        "error[E0432]: unresolved import `foo`".to_string(),
        "cannot borrow `x` as mutable; lifetime too short".to_string(),
        "unresolved name".to_string(),
    ];
    let r = sandbox_recommendations(&errors);
    assert_eq!(
        r,
        vec![
            "Check lifetime annotations".to_string(),
            "Check that all required dependencies are in Cargo.toml".to_string(),
            "Review ownership and borrowing rules".to_string(),
        ]
    );
    assert!(sandbox_recommendations(&["all good".to_string()]).is_empty());
    assert_eq!(passed_feedback(3), "Compilation OK, 3 tests passed");
}
