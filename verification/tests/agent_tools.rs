use agentic_core::agent::tools::{Tool, ToolParam, ToolParameters};

#[test]
fn test_tool_new() {
    let tool = Tool::new("search", "Search the web");
    assert_eq!(tool.name, "search");
    assert!(tool.is_enabled());
    assert!(!tool.disabled().is_enabled());
}

#[test]
fn test_tool_with_params() {
    let tool = Tool::new("calculator", "Perform calculations")
        .with_param("expression", ToolParam::string("Math expression to evaluate"))
        .with_optional_param("precision", ToolParam::integer("Decimal precision"));

    assert_eq!(tool.parameters.properties.len(), 2);
    assert_eq!(tool.parameters.required.len(), 1);
    assert!(tool.parameters.required.contains(&"expression".to_string()));
}

#[test]
fn adding_a_parameter_twice_replaces_it() {
    let mut params = ToolParameters::new();
    params.add_optional("x", ToolParam::string("first"));
    params.add_required("x", ToolParam::number("second"));
    assert_eq!(params.properties.len(), 1);
    assert_eq!(params.properties[0].1.param_type, "number");
    assert_eq!(params.required, vec!["x".to_string()]);
    assert_eq!(ToolParameters::default().param_type, "");
}

#[test]
fn test_tool_param_types() {
    let string_param = ToolParam::string("A string");
    assert_eq!(string_param.param_type, "string");

    let number_param = ToolParam::number("A number");
    assert_eq!(number_param.param_type, "number");

    let bool_param = ToolParam::boolean("A boolean");
    assert_eq!(bool_param.param_type, "boolean");
}

#[test]
fn test_tool_param_enum() {
    let param = ToolParam::string_enum("Select one", vec!["a", "b", "c"]);
    assert_eq!(param.enum_values, Some(vec!["a".into(), "b".into(), "c".into()]));
}

#[test]
fn test_tool_param_array() {
    let param = ToolParam::array("List of items", ToolParam::string("Item"));
    assert_eq!(param.param_type, "array");
    assert!(param.items.is_some());
    let with_default = ToolParam::integer("n").with_default(serde_json::Value::from(3u64));
    assert_eq!(with_default.default, Some(serde_json::Value::from(3u64)));
}
