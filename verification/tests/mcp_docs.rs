use agentic_core::pipeline::mcp_doc_validator::{
    doc_recommendation, library_id_from, library_name_for, MCPDocConfig, MCPDocValidator,
};

#[test]
fn test_extract_rust_topic_unresolved() {
    let config = MCPDocConfig::context7("test");
    let validator = MCPDocValidator::new(config);

    let error = "error[E0433]: failed to resolve: use of unresolved module or unlinked crate `tokio`";
    let topic = validator.extract_rust_topic(error);

    assert!(topic.is_some());
    assert!(topic.unwrap().contains("tokio"));
}

#[test]
fn test_extract_rust_topic_trait_bound() {
    let config = MCPDocConfig::context7("test");
    let validator = MCPDocValidator::new(config);

    let error = "error[E0277]: the trait bound `Foo: Clone` is not satisfied";
    let topic = validator.extract_rust_topic(error);

    assert!(topic.is_some());
    assert!(topic.unwrap().contains("Foo: Clone"));
}

#[test]
fn context7_config() {
    let c = MCPDocConfig::context7("k");
    assert_eq!(c.url, "https://mcp.context7.com/mcp");
    assert_eq!(c.api_key, "Bearer k");
    assert_eq!(c.timeout_ms, 30000);
}

#[test]
fn topics_by_language() {
    let v = MCPDocValidator::new(MCPDocConfig::context7("k"));
    assert_eq!(v.extract_rust_topic("error[E0599]: no method named `foo` found").unwrap(), "rust foo method");
    assert_eq!(v.extract_rust_topic("tokio Semaphore missing").unwrap(), "tokio Semaphore acquire permit");
    assert_eq!(v.extract_python_topic("ModuleNotFoundError: No module named 'numpy'").unwrap(), "python numpy module");
    assert_eq!(v.extract_ts_topic("Cannot find module 'lodash'").unwrap(), "npm lodash");
    assert_eq!(v.extract_topic_from_error("anything", "go"), None);
    let errors = vec![
        "use of unresolved module or unlinked crate `a`".to_string(),
        "use of unresolved module or unlinked crate `a`".to_string(),
        "use of unresolved module or unlinked crate `b`".to_string(),
        "use of unresolved module or unlinked crate `c`".to_string(),
        "use of unresolved module or unlinked crate `d`".to_string(),
    ];
    assert_eq!(
        v.extract_error_topics(&errors, "rust"),
        vec!["a usage examples".to_string(), "b usage examples".to_string(), "c usage examples".to_string()]
    );
}

#[test]
fn library_resolution() {
    assert_eq!(library_name_for("tokio JoinSet"), "tokio");
    assert_eq!(library_name_for("  reqwest client"), "reqwest");
    assert_eq!(library_name_for("   "), "rust");
    assert_eq!(library_id_from("Found /tokio-rs/tokio here", "tokio"), "/tokio-rs/tokio");
    assert_eq!(library_id_from("nothing", "reqwest"), "/rust/reqwest");
    assert_eq!(doc_recommendation("/a/b", "t"), "See /a/b documentation for t");
}
