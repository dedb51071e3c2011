use agentic_core::agent::background::BackgroundTaskId;
use agentic_core::agent::types::ThreadId;
use agentic_core::graph::types::{TaskId, WorkflowId};

fn is_uuid(s: &str) -> bool {
    let cs: Vec<char> = s.chars().collect();
    cs.len() == 36
        && cs.iter().enumerate().all(|(i, c)| {
            if i == 8 || i == 13 || i == 18 || i == 23 {
                *c == '-'
            } else {
                c.is_ascii_digit() || ('a'..='f').contains(c)
            }
        })
        && cs[14] == '4'
        && "89ab".contains(cs[19])
}

#[test]
fn generated_ids_are_prefix_and_uuid() {
    let t = TaskId::generate();
    assert!(t.as_str().starts_with("task-") && is_uuid(&t.as_str()[5..]));
    let w = WorkflowId::generate();
    assert!(w.as_str().starts_with("wf-") && is_uuid(&w.as_str()[3..]));
    let th = ThreadId::generate();
    assert!(th.as_str().starts_with("thread-") && is_uuid(&th.as_str()[7..]));
    let b = BackgroundTaskId::generate();
    assert!(b.as_str().starts_with("task-") && is_uuid(&b.as_str()[5..]));
    assert_ne!(TaskId::generate().as_str(), t.as_str());
}
