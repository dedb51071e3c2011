//! Sub-workflows: a whole workflow run as one orchestration step of another,
//! and how its result is reported to the parent.
use vstd::prelude::*;
use crate::graph::types::{ExecutorError, ExecutorId};
use crate::graph::workflow::WorkflowResult;
use crate::text::{append, decimal, push_decimal, to_owned, TextLike};

verus! {

/// Input for a sub-workflow.
#[derive(Debug, Clone)]
pub struct SubWorkflowInput {
    /// The input for the child workflow.
    pub input: serde_json::Value,
    /// Task identifier for the child run, if given.
    pub task_id: Option<String>,
}

impl SubWorkflowInput {
    /// Input without a task identifier.
    pub fn new(input: serde_json::Value) -> (r: Self)
        ensures
            r.input == input,
            r.task_id is None,
    {
        SubWorkflowInput { input, task_id: None }
    }

    /// The same input with a task identifier.
    pub fn with_task_id(self, task_id: impl TextLike) -> (r: Self)
        ensures
            r.input == self.input,
            r.task_id matches Some(t) && t@ == task_id.text(),
    {
        SubWorkflowInput { task_id: Some(task_id.into_string()), ..self }
    }
}

/// Output of a sub-workflow.
#[derive(Debug, Clone)]
pub struct SubWorkflowOutput {
    /// The child's outputs.
    pub outputs: Vec<serde_json::Value>,
    /// Supersteps the child ran.
    pub superstep_count: u32,
    /// How long the child ran, in milliseconds.
    pub duration_ms: u64,
    /// Whether the child succeeded.
    pub success: bool,
    /// The child's error, if it failed.
    pub error: Option<String>,
}

impl SubWorkflowOutput {
    /// The output of a child run whose outputs are JSON values.
    pub fn from_result(result: WorkflowResult<serde_json::Value>) -> (r: Self)
        ensures
            r.outputs@ == result.outputs@,
            r.superstep_count == result.superstep_count,
            r.duration_ms == result.duration_ms,
            r.success == result.success,
            r.error == result.error,
    {
        SubWorkflowOutput {
            outputs: result.outputs,
            superstep_count: result.superstep_count,
            duration_ms: result.duration_ms,
            success: result.success,
            error: result.error,
        }
    }

    /// Whether the child succeeded.
    pub fn is_success(&self) -> (r: bool)
        ensures
            r == self.success,
    {
        self.success
    }

    /// The child's first output.
    pub fn first_output(&self) -> (r: Option<&serde_json::Value>)
        ensures
            self.outputs@.len() == 0 ==> r is None,
            self.outputs@.len() > 0 ==> r == Some(&self.outputs@[0]),
    {
        if self.outputs.len() == 0 {
            None
        } else {
            Some(&self.outputs[0])
        }
    }

    /// The child's last output.
    pub fn last_output(&self) -> (r: Option<&serde_json::Value>)
        ensures
            self.outputs@.len() == 0 ==> r is None,
            self.outputs@.len() > 0 ==> r == Some(&self.outputs@.last()),
    {
        let n = self.outputs.len();
        if n == 0 {
            None
        } else {
            Some(&self.outputs[n - 1])
        }
    }
}

/// The status line a sub-workflow step yields for its child's output.
pub open spec fn status_text(o: SubWorkflowOutput) -> Seq<char> {
    if o.success {
        "Sub-workflow: COMPLETED ("@ + decimal(o.outputs@.len()) + " outputs, "@ + decimal(o.superstep_count as nat)
            + " supersteps, "@ + decimal(o.duration_ms as nat) + "ms)"@
    } else {
        "Sub-workflow: FAILED after "@ + decimal(o.superstep_count as nat) + " supersteps ("@ + match o.error {
            Some(e) => e@,
            None => "unknown error"@,
        } + ")"@
    }
}

/// What a sub-workflow step does with its child's output: when the child
/// failed and the step is to fail with it, an error from the step with the
/// child's error (or `Sub-workflow failed`); otherwise the status line.
pub fn child_outcome(executor_id: &ExecutorId, fail_on_child_failure: bool, output: &SubWorkflowOutput) -> (r: Result<String, ExecutorError>)
    requires
        output.outputs@.len() <= u64::MAX,
    ensures
        fail_on_child_failure && !output.success ==> (r matches Err(e) && e.executor_id@ == executor_id@ && e.message@
            == match output.error {
            Some(m) => m@,
            None => "Sub-workflow failed"@,
        }),
        !(fail_on_child_failure && !output.success) ==> (r matches Ok(s) && s@ == status_text(*output)),
{
    if fail_on_child_failure && !output.success {
        let message = match &output.error {
            Some(m) => m.clone(),
            None => to_owned("Sub-workflow failed"),
        };
        return Err(ExecutorError::new(executor_id.clone(), message));
    }
    if output.success {
        let mut s = to_owned("Sub-workflow: COMPLETED (");
        push_decimal(&mut s, output.outputs.len() as u64);
        append(&mut s, " outputs, ");
        push_decimal(&mut s, output.superstep_count as u64);
        append(&mut s, " supersteps, ");
        push_decimal(&mut s, output.duration_ms);
        append(&mut s, "ms)");
        Ok(s)
    } else {
        let mut s = to_owned("Sub-workflow: FAILED after ");
        push_decimal(&mut s, output.superstep_count as u64);
        append(&mut s, " supersteps (");
        match &output.error {
            Some(e) => append(&mut s, e.as_str()),
            None => append(&mut s, "unknown error"),
        }
        append(&mut s, ")");
        Ok(s)
    }
}

} // verus!
