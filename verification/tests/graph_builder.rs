use agentic_core::graph::builder::{validate_workflow, WorkflowBuilder};
use agentic_core::graph::edge::EdgeKind;
use agentic_core::graph::types::{ExecutorId, GraphError};

#[test]
fn test_simple_linear_workflow() {
    let workflow = WorkflowBuilder::<String>::new("test-wf")
        .name("Test Workflow")
        .set_start("a")
        .add_executor_id("b")
        .add_executor_id("c")
        .add_direct_edge("a", "b")
        .add_direct_edge("b", "c")
        .build()
        .unwrap();

    assert_eq!(workflow.id.as_str(), "test-wf");
    assert_eq!(workflow.name, Some("Test Workflow".to_string()));
    assert_eq!(workflow.start.as_str(), "a");
    assert_eq!(workflow.executors.len(), 3);

    assert!(workflow.has_executor(&ExecutorId::new("a")));
    assert!(workflow.has_executor(&ExecutorId::new("b")));
    assert!(workflow.has_executor(&ExecutorId::new("c")));

    let edges_from_a = workflow.edges_from(&ExecutorId::new("a"));
    assert_eq!(edges_from_a.len(), 1);

    assert!(workflow.is_terminal(&ExecutorId::new("c")));
    assert!(!workflow.is_terminal(&ExecutorId::new("a")));
}

#[test]
fn test_conditional_workflow() {
    let workflow = WorkflowBuilder::<bool>::new("conditional-wf")
        .set_start("validator")
        .add_executor_id("success_handler")
        .add_executor_id("error_handler")
        .add_conditional_edge("validator", "success_handler", |passed: &bool| *passed, "on_success")
        .add_conditional_edge("validator", "error_handler", |passed: &bool| !*passed, "on_error")
        .build()
        .unwrap();

    assert_eq!(workflow.executors.len(), 3);
    assert_eq!(workflow.edges.len(), 2);
}

#[test]
fn test_fan_out_workflow() {
    let workflow = WorkflowBuilder::<String>::new("fan-out-wf")
        .set_start("splitter")
        .add_fan_out_edge("splitter", vec!["worker1", "worker2", "worker3"])
        .add_fan_in_edge(vec!["worker1", "worker2", "worker3"], "aggregator")
        .build()
        .unwrap();

    assert_eq!(workflow.executors.len(), 5);

    let edges_from_splitter = workflow.edges_from(&ExecutorId::new("splitter"));
    assert_eq!(edges_from_splitter.len(), 1);
    assert_eq!(edges_from_splitter[0].kind, EdgeKind::FanOut);

    assert!(workflow.is_terminal(&ExecutorId::new("aggregator")));
}

#[test]
fn test_switch_workflow() {
    #[derive(Clone)]
    struct Priority(u8);

    let workflow = WorkflowBuilder::<Priority>::new("switch-wf")
        .set_start("router")
        .add_switch_edge_with_default(
            "router",
            vec!["fast", "normal", "slow"],
            |p: &Priority| {
                if p.0 > 8 {
                    Some(0)
                } else if p.0 > 4 {
                    Some(1)
                } else {
                    None
                }
            },
            2,
        )
        .build()
        .unwrap();

    assert_eq!(workflow.executors.len(), 4);
}

#[test]
fn test_validation_no_start() {
    let result = WorkflowBuilder::<String>::new("invalid")
        .add_executor_id("a")
        .add_executor_id("b")
        .add_direct_edge("a", "b")
        .build();

    assert!(result.is_err());
    match result {
        Err(err) => assert!(matches!(err, GraphError::ValidationError(_))),
        Ok(_) => panic!("Expected an error"),
    }
}

#[test]
fn test_validation_unreachable_executor() {
    let result = WorkflowBuilder::<String>::new("invalid")
        .set_start("a")
        .add_executor_id("b")
        .add_executor_id("orphan")
        .add_direct_edge("a", "b")
        .build();

    assert!(result.is_err());
    match result {
        Err(GraphError::ValidationError(msg)) => {
            assert!(msg.contains("Unreachable"));
        }
        _ => panic!("Expected ValidationError"),
    }
}

#[test]
fn test_validation_unknown_edge_target() {
    let result = WorkflowBuilder::<String>::new("invalid")
        .set_start("a")
        .add_direct_edge("a", "unknown")
        .build();

    assert!(result.is_ok());
}

#[test]
fn test_cycle_detection() {
    let workflow = WorkflowBuilder::<String>::new("cyclic")
        .set_start("a")
        .add_direct_edge("a", "b")
        .add_direct_edge("b", "c")
        .add_direct_edge("c", "a")
        .build()
        .unwrap();

    let report = validate_workflow(&workflow);
    assert!(report.warnings.iter().any(|w| w.contains("cycle")));
}

#[test]
fn test_validation_report() {
    let workflow = WorkflowBuilder::<String>::new("test")
        .set_start("a")
        .add_direct_edge("a", "b")
        .build()
        .unwrap();

    let report = validate_workflow(&workflow);
    assert!(report.is_valid());
}

#[test]
fn test_successors_and_predecessors() {
    let workflow = WorkflowBuilder::<String>::new("test")
        .set_start("a")
        .add_direct_edge("a", "b")
        .add_direct_edge("a", "c")
        .add_direct_edge("b", "d")
        .add_direct_edge("c", "d")
        .build()
        .unwrap();

    let successors = workflow.successors(&ExecutorId::new("a"));
    assert_eq!(successors.len(), 2);

    let predecessors = workflow.predecessors(&ExecutorId::new("d"));
    assert_eq!(predecessors.len(), 2);
}

#[test]
fn builder_test_executor_metadata() {
    let workflow = WorkflowBuilder::<String>::new("test")
        .set_start("gen")
        .add_executor_with_metadata(
            "gen",
            Some("Code Generator".into()),
            Some("Generates code from prompts".into()),
        )
        .add_executor_id("validator")
        .add_direct_edge("gen", "validator")
        .build()
        .unwrap();

    let meta = workflow
        .executor_metadata
        .get(&ExecutorId::new("gen"))
        .unwrap();
    assert_eq!(meta.name, Some("Code Generator".to_string()));
    assert_eq!(meta.description, Some("Generates code from prompts".to_string()));
}

#[test]
fn terminal_executors_are_listed_once() {
    let mut workflow = WorkflowBuilder::<String>::new("test-wf")
        .set_start("a")
        .add_executor_id("b")
        .add_executor_id("c")
        .add_direct_edge("a", "b")
        .add_direct_edge("b", "c")
        .build()
        .unwrap();
    let names: Vec<String> = workflow.terminal_executors().iter().map(|e| e.as_str().to_string()).collect();
    assert_eq!(names, vec!["c".to_string()]);
    workflow.executors.push(ExecutorId::new("c"));
    let names: Vec<String> = workflow.terminal_executors().iter().map(|e| e.as_str().to_string()).collect();
    assert_eq!(names, vec!["c".to_string()]);
}
