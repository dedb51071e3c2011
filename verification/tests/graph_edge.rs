use agentic_core::graph::edge::{Edge, EdgeCollection, EdgeId, EdgeKind};
use agentic_core::graph::types::ExecutorId;

#[test]
fn test_direct_edge() {
    let edge: Edge<String> = Edge::direct("a", "b");

    assert_eq!(edge.kind, EdgeKind::Direct);
    assert!(edge.should_activate(&"test".to_string()));

    let targets = edge.route(&"test".to_string());
    assert_eq!(targets.len(), 1);
    assert_eq!(targets[0].as_str(), "b");
}

#[test]
fn test_conditional_edge_pass() {
    let edge: Edge<i32> = Edge::conditional("a", "b", |n: &i32| *n > 10);

    assert!(edge.should_activate(&20));
    let targets = edge.route(&20);
    assert_eq!(targets.len(), 1);
}

#[test]
fn test_conditional_edge_fail() {
    let edge: Edge<i32> = Edge::conditional("a", "b", |n: &i32| *n > 10);

    assert!(!edge.should_activate(&5));
    let targets = edge.route(&5);
    assert!(targets.is_empty());
}

#[test]
fn test_switch_edge() {
    #[derive(Debug)]
    enum Priority {
        High,
        Medium,
        Low,
    }

    let edge: Edge<Priority> = Edge::switch("router", vec!["fast", "normal", "slow"], |p: &Priority| match p {
        Priority::High => Some(0),
        Priority::Medium => Some(1),
        Priority::Low => Some(2),
    });

    assert_eq!(edge.kind, EdgeKind::Switch);

    let targets = edge.route(&Priority::High);
    assert_eq!(targets.len(), 1);
    assert_eq!(targets[0].as_str(), "fast");

    let targets = edge.route(&Priority::Low);
    assert_eq!(targets[0].as_str(), "slow");

    let targets = edge.route(&Priority::Medium);
    assert_eq!(targets[0].as_str(), "normal");
}

#[test]
fn test_switch_edge_with_default() {
    let edge: Edge<i32> = Edge::switch("router", vec!["a", "b", "c"], |n: &i32| {
        if *n == 1 {
            Some(0)
        } else {
            None
        }
    })
    .with_default(2);

    let targets = edge.route(&1);
    assert_eq!(targets[0].as_str(), "a");

    let targets = edge.route(&999);
    assert_eq!(targets[0].as_str(), "c");
}

#[test]
fn test_fan_out_edge() {
    let edge: Edge<String> = Edge::fan_out("splitter", vec!["w1", "w2", "w3"]);

    assert_eq!(edge.kind, EdgeKind::FanOut);

    let targets = edge.route(&"test".to_string());
    assert_eq!(targets.len(), 3);
    assert_eq!(targets[0].as_str(), "w1");
    assert_eq!(targets[1].as_str(), "w2");
    assert_eq!(targets[2].as_str(), "w3");
}

#[test]
fn test_fan_out_with_selection() {
    #[derive(Debug)]
    struct Task {
        priority: u8,
    }

    let edge: Edge<Task> = Edge::fan_out_with_selection(
        "router",
        vec!["fast", "medium", "slow"],
        |task: &Task, _count: usize| {
            if task.priority > 8 {
                vec![0]
            } else if task.priority > 5 {
                vec![0, 1]
            } else {
                vec![]
            }
        },
    );

    let targets = edge.route(&Task { priority: 10 });
    assert_eq!(targets.len(), 1);
    assert_eq!(targets[0].as_str(), "fast");

    let targets = edge.route(&Task { priority: 7 });
    assert_eq!(targets.len(), 2);

    let targets = edge.route(&Task { priority: 2 });
    assert_eq!(targets.len(), 3);
}

#[test]
fn test_fan_in_edge() {
    let edge: Edge<String> = Edge::fan_in(vec!["w1", "w2", "w3"], "aggregator");

    assert_eq!(edge.kind, EdgeKind::FanIn);
    assert!(edge.is_from(&ExecutorId::new("w1")));
    assert!(edge.is_from(&ExecutorId::new("w2")));
    assert!(edge.is_from(&ExecutorId::new("w3")));
    assert!(edge.is_to(&ExecutorId::new("aggregator")));
}

#[test]
fn test_edge_collection() {
    let mut collection: EdgeCollection<String> = EdgeCollection::new();

    collection.add(Edge::direct("a", "b"));
    collection.add(Edge::direct("a", "c"));
    collection.add(Edge::direct("b", "d"));

    assert_eq!(collection.len(), 3);

    let edges = collection.from_executor(&ExecutorId::new("a"));
    assert_eq!(edges.len(), 2);

    let edges = collection.to_executor(&ExecutorId::new("d"));
    assert_eq!(edges.len(), 1);
}

#[test]
fn test_edge_collection_routing() {
    let mut collection: EdgeCollection<i32> = EdgeCollection::new();

    collection.add(Edge::conditional("router", "high", |n: &i32| *n > 100));
    collection.add(Edge::conditional("router", "medium", |n: &i32| *n > 50 && *n <= 100));
    collection.add(Edge::conditional("router", "low", |n: &i32| *n <= 50));

    let targets = collection.route_from(&ExecutorId::new("router"), &150);
    assert_eq!(targets.len(), 1);
    assert_eq!(targets[0].as_str(), "high");

    let targets = collection.route_from(&ExecutorId::new("router"), &75);
    assert_eq!(targets.len(), 1);
    assert_eq!(targets[0].as_str(), "medium");

    let targets = collection.route_from(&ExecutorId::new("router"), &25);
    assert_eq!(targets.len(), 1);
    assert_eq!(targets[0].as_str(), "low");
}

#[test]
fn test_edge_with_name() {
    let edge: Edge<String> = Edge::direct("a", "b").with_name("success_path");

    assert_eq!(edge.name, Some("success_path".to_string()));
}

#[test]
fn test_edge_id() {
    let id = EdgeId::from_endpoints(&ExecutorId::new("a"), &ExecutorId::new("b"));
    assert_eq!(id.as_str(), "a→b");

    let id = EdgeId::new("custom-id");
    assert_eq!(id.as_str(), "custom-id");
}

#[test]
fn test_edge_kind_display() {
    assert_eq!(EdgeKind::Direct.to_string(), "Direct");
    assert_eq!(EdgeKind::Conditional.to_string(), "Conditional");
    assert_eq!(EdgeKind::Switch.to_string(), "Switch");
    assert_eq!(EdgeKind::FanOut.to_string(), "FanOut");
    assert_eq!(EdgeKind::FanIn.to_string(), "FanIn");
}

#[test]
fn edge_collection_get_by_id_finds_added_edge() {
    let mut collection: EdgeCollection<String> = EdgeCollection::new();
    collection.add(Edge::direct("a", "b").with_id("first"));
    collection.add(Edge::direct("b", "c"));
    assert!(collection.get(&EdgeId::new("first")).is_some());
    assert_eq!(collection.get(&EdgeId::new("b→c")).unwrap().target.targets()[0].as_str(), "c");
    assert!(collection.get(&EdgeId::new("missing")).is_none());
}
