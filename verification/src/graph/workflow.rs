//! Workflow configuration, results, and the decisions the superstep loop
//! takes between runs of executors.
use vstd::prelude::*;
use crate::graph::superstep::{lemma_enqueue_adds_one, message_total, queued_after, Checkpoint, SuperstepState};
use crate::keyed::{assoc_has, assoc_index, assoc_put, keys_unique};
use crate::clock::{subsec_nanos_of, whole_secs, Timestamp};
use crate::graph::types::{graph_error_text, ExecutorError, ExecutorId, GraphError, TaskId, WorkflowId};
use crate::text::{append, decimal, push_decimal, TextLike};

verus! {

/// Configuration for workflow execution.
#[derive(Debug, Clone, Copy)]
pub struct WorkflowConfig {
    /// Maximum number of supersteps before timeout.
    pub max_supersteps: u32,
    /// Maximum retries per executor on failure.
    pub max_retries_per_executor: u32,
    /// Enable checkpointing at superstep boundaries.
    pub enable_checkpointing: bool,
    /// Checkpoint every N supersteps (if enabled).
    pub checkpoint_interval: u32,
    /// Timeout per executor in milliseconds.
    pub executor_timeout_ms: u64,
    /// Base delay for exponential backoff on retry (milliseconds).
    /// Delay = base * 2^retry_count, capped at max.
    pub retry_backoff_base_ms: u64,
    /// Maximum backoff delay (milliseconds).
    pub retry_backoff_max_ms: u64,
}

/// Two to the power `k`.
pub open spec fn two_pow(k: nat) -> nat
    decreases k,
{
    if k == 0 {
        1
    } else {
        2 * two_pow((k - 1) as nat)
    }
}

/// The backoff delay for a retry: `min(base * 2^retry, max)`, the product
/// saturating at `u64::MAX`.
pub open spec fn backoff_delay(base: u64, max: u64, retry: u32) -> u64 {
    let product = base * two_pow(retry as nat);
    let saturated: u64 = if product > u64::MAX { u64::MAX } else { product as u64 };
    if saturated < max { saturated } else { max }
}

/// `base * 2^k`, saturating at `u64::MAX`.
pub open spec fn saturated_scale(base: u64, k: nat) -> u64 {
    let product = base * two_pow(k);
    if product > u64::MAX { u64::MAX } else { product as u64 }
}

/// Whether the loop checkpoints after the given superstep: checkpointing is
/// enabled, the superstep is not the first, and it is a multiple of the
/// interval.
pub open spec fn checkpoint_due(c: WorkflowConfig, superstep: u32) -> bool {
    c.enable_checkpointing && superstep > 0 && superstep % c.checkpoint_interval == 0
}

/// Whether the resuming loop saves a persistent checkpoint after the given
/// superstep: a persistent backend is set, the superstep is not the first,
/// and it is a multiple of the interval (whether checkpointing is enabled
/// does not matter there).
pub open spec fn persist_due(c: WorkflowConfig, superstep: u32, has_backend: bool) -> bool {
    has_backend && superstep > 0 && superstep % c.checkpoint_interval == 0
}

/// Calls `std::time::Duration::from_millis`, whose documentation says it
/// makes a duration of that many milliseconds: the whole seconds are
/// `ms / 1000` and the nanoseconds past them `(ms % 1000) * 1_000_000`.
#[verifier::external_body]
fn duration_from_millis(ms: u64) -> (d: std::time::Duration)
    ensures
        whole_secs(d) == ms / 1000,
        subsec_nanos_of(d) == (ms % 1000) * 1_000_000,
{
    std::time::Duration::from_millis(ms)
}

impl Default for WorkflowConfig {
    fn default() -> (r: Self)
        ensures
            r.max_supersteps == 100,
            r.max_retries_per_executor == 3,
            !r.enable_checkpointing,
            r.checkpoint_interval == 5,
            r.executor_timeout_ms == 60_000,
            r.retry_backoff_base_ms == 1_000,
            r.retry_backoff_max_ms == 30_000,
    {
        WorkflowConfig {
            max_supersteps: 100,
            max_retries_per_executor: 3,
            enable_checkpointing: false,
            checkpoint_interval: 5,
            executor_timeout_ms: 60_000,
            retry_backoff_base_ms: 1_000,
            retry_backoff_max_ms: 30_000,
        }
    }
}

impl WorkflowConfig {
    /// The default configuration.
    pub fn new() -> (r: Self)
        ensures
            r.max_supersteps == 100,
            r.max_retries_per_executor == 3,
            !r.enable_checkpointing,
            r.checkpoint_interval == 5,
            r.executor_timeout_ms == 60_000,
            r.retry_backoff_base_ms == 1_000,
            r.retry_backoff_max_ms == 30_000,
    {
        Self::default()
    }

    /// The same configuration with another superstep limit.
    pub fn with_max_supersteps(self, max: u32) -> (r: Self)
        ensures
            r == (WorkflowConfig { max_supersteps: max, ..self }),
    {
        WorkflowConfig { max_supersteps: max, ..self }
    }

    /// The same configuration with another retry limit.
    pub fn with_max_retries(self, max: u32) -> (r: Self)
        ensures
            r == (WorkflowConfig { max_retries_per_executor: max, ..self }),
    {
        WorkflowConfig { max_retries_per_executor: max, ..self }
    }

    /// The same configuration with checkpointing switched on or off.
    pub fn with_checkpointing(self, enabled: bool) -> (r: Self)
        ensures
            r == (WorkflowConfig { enable_checkpointing: enabled, ..self }),
    {
        WorkflowConfig { enable_checkpointing: enabled, ..self }
    }

    /// The same configuration with another checkpoint interval.
    pub fn with_checkpoint_interval(self, interval: u32) -> (r: Self)
        ensures
            r == (WorkflowConfig { checkpoint_interval: interval, ..self }),
    {
        WorkflowConfig { checkpoint_interval: interval, ..self }
    }

    /// The same configuration with another executor timeout.
    pub fn with_executor_timeout_ms(self, timeout_ms: u64) -> (r: Self)
        ensures
            r == (WorkflowConfig { executor_timeout_ms: timeout_ms, ..self }),
    {
        WorkflowConfig { executor_timeout_ms: timeout_ms, ..self }
    }

    /// Set exponential backoff parameters for retries.
    ///
    /// Delay formula: `min(base_ms * 2^retry_count, max_ms)`.
    pub fn with_retry_backoff(self, base_ms: u64, max_ms: u64) -> (r: Self)
        ensures
            r == (WorkflowConfig { retry_backoff_base_ms: base_ms, retry_backoff_max_ms: max_ms, ..self }),
    {
        WorkflowConfig { retry_backoff_base_ms: base_ms, retry_backoff_max_ms: max_ms, ..self }
    }

    /// The backoff delay in milliseconds for a given retry count.
    pub fn backoff_delay_ms(&self, retry_count: u32) -> (ms: u64)
        ensures
            ms == backoff_delay(self.retry_backoff_base_ms, self.retry_backoff_max_ms, retry_count),
    {
        let base = self.retry_backoff_base_ms;
        let mut p: u64 = base;
        let mut i: u32 = 0;
        assert(two_pow(0) == 1);
        while i < retry_count && 0 < p && p < u64::MAX
            invariant
                i <= retry_count,
                p == saturated_scale(base, i as nat),
            decreases retry_count - i,
        {
            proof {
                lemma_saturated_double(base, i as nat);
            }
            if p > u64::MAX / 2 {
                p = u64::MAX;
            } else {
                p = p * 2;
            }
            i = i + 1;
        }
        proof {
            lemma_saturated_stable(base, i as nat, retry_count as nat);
        }
        if p < self.retry_backoff_max_ms {
            p
        } else {
            self.retry_backoff_max_ms
        }
    }

    /// Calculate backoff delay for a given retry count.
    pub fn calculate_backoff(&self, retry_count: u32) -> (d: std::time::Duration)
        ensures
            whole_secs(d) == backoff_delay(self.retry_backoff_base_ms, self.retry_backoff_max_ms, retry_count) / 1000,
            subsec_nanos_of(d) == (backoff_delay(self.retry_backoff_base_ms, self.retry_backoff_max_ms, retry_count)
                % 1000) * 1_000_000,
    {
        duration_from_millis(self.backoff_delay_ms(retry_count))
    }

    /// Whether the superstep loop saves a checkpoint after `superstep`.
    pub fn should_checkpoint(&self, superstep: u32) -> (b: bool)
        requires
            self.enable_checkpointing && superstep > 0 ==> self.checkpoint_interval > 0,
        ensures
            b == checkpoint_due(*self, superstep),
    {
        self.enable_checkpointing && superstep > 0 && superstep % self.checkpoint_interval == 0
    }

    /// Whether the resuming superstep loop saves a persistent checkpoint
    /// after `superstep`, given whether a persistent backend is set.
    pub fn should_persist(&self, superstep: u32, has_backend: bool) -> (b: bool)
        requires
            has_backend && superstep > 0 ==> self.checkpoint_interval > 0,
        ensures
            b == persist_due(*self, superstep, has_backend),
    {
        has_backend && superstep > 0 && superstep % self.checkpoint_interval == 0
    }

    /// Whether an executor that has failed `failures` times may not be
    /// retried.
    pub fn retries_exhausted(&self, failures: u32) -> (b: bool)
        ensures
            b == (failures >= self.max_retries_per_executor),
    {
        failures >= self.max_retries_per_executor
    }

    /// The failure message when the superstep limit is reached.
    pub fn max_supersteps_message(&self) -> (m: String)
        ensures
            m@ == "Max supersteps ("@ + decimal(self.max_supersteps as nat) + ") exceeded"@,
    {
        let mut m = String::new();
        append(&mut m, "Max supersteps (");
        push_decimal(&mut m, self.max_supersteps as u64);
        append(&mut m, ") exceeded");
        m
    }
}

/// One more doubling of a saturated product is the doubled product,
/// saturated.
proof fn lemma_saturated_double(base: u64, k: nat)
    requires
        saturated_scale(base, k) < u64::MAX,
    ensures
        saturated_scale(base, k + 1) == (if saturated_scale(base, k) > u64::MAX / 2 {
            u64::MAX as int
        } else {
            2 * saturated_scale(base, k)
        }),
{
    assert(two_pow(k + 1) == 2 * two_pow(k));
    assert(base * two_pow(k + 1) == 2 * (base * two_pow(k))) by (nonlinear_arith)
        requires
            two_pow(k + 1) == 2 * two_pow(k),
    ;
}

/// Once the product is zero or saturated, further doublings leave it so.
proof fn lemma_saturated_stable(base: u64, i: nat, j: nat)
    requires
        i <= j,
        saturated_scale(base, i) == 0 || saturated_scale(base, i) == u64::MAX || i == j,
    ensures
        saturated_scale(base, j) == saturated_scale(base, i),
{
    lemma_two_pow_monotone(i, j);
    lemma_two_pow_positive(i);
    if saturated_scale(base, i) == 0 {
        assert(base == 0) by (nonlinear_arith)
            requires
                base * two_pow(i) == 0,
                two_pow(i) > 0,
        ;
        assert(base * two_pow(j) == 0) by (nonlinear_arith)
            requires
                base == 0,
        ;
    } else if saturated_scale(base, i) == u64::MAX {
        assert(base * two_pow(i) <= base * two_pow(j)) by (nonlinear_arith)
            requires
                two_pow(i) <= two_pow(j),
        ;
    }
}

/// `2^k` is positive.
proof fn lemma_two_pow_positive(k: nat)
    ensures
        two_pow(k) > 0,
    decreases k,
{
    if k > 0 {
        lemma_two_pow_positive((k - 1) as nat);
    }
}

/// The backoff delay never exceeds the configured maximum, and it grows (or
/// stays) with the retry count.
pub proof fn lemma_backoff_bounded_monotone(base: u64, max: u64, a: u32, b: u32)
    requires
        a <= b,
    ensures
        backoff_delay(base, max, a) <= max,
        backoff_delay(base, max, a) <= backoff_delay(base, max, b),
{
    lemma_two_pow_monotone(a as nat, b as nat);
    assert(base * two_pow(a as nat) <= base * two_pow(b as nat)) by (nonlinear_arith)
        requires
            two_pow(a as nat) <= two_pow(b as nat),
    ;
}

/// `2^i <= 2^j` when `i <= j`.
proof fn lemma_two_pow_monotone(i: nat, j: nat)
    requires
        i <= j,
    ensures
        two_pow(i) <= two_pow(j),
    decreases j,
{
    if i < j {
        lemma_two_pow_monotone(i, (j - 1) as nat);
    }
}

/// Result of a workflow execution.
#[derive(Debug)]
pub struct WorkflowResult<TOutput> {
    /// Workflow ID.
    pub workflow_id: WorkflowId,
    /// Task ID.
    pub task_id: TaskId,
    /// All outputs yielded during execution.
    pub outputs: Vec<TOutput>,
    /// Number of supersteps executed.
    pub superstep_count: u32,
    /// Total execution duration in milliseconds.
    pub duration_ms: u64,
    /// Whether the workflow completed successfully.
    pub success: bool,
    /// Error message if failed.
    pub error: Option<String>,
}

impl<TOutput> WorkflowResult<TOutput> {
    /// Create a successful result.
    pub fn success(
        workflow_id: WorkflowId,
        task_id: TaskId,
        outputs: Vec<TOutput>,
        superstep_count: u32,
        duration_ms: u64,
    ) -> (r: Self)
        ensures
            r.workflow_id == workflow_id,
            r.task_id == task_id,
            r.outputs@ == outputs@,
            r.superstep_count == superstep_count,
            r.duration_ms == duration_ms,
            r.success,
            r.error is None,
    {
        WorkflowResult { workflow_id, task_id, outputs, superstep_count, duration_ms, success: true, error: None }
    }

    /// Create a failed result.
    pub fn failure(
        workflow_id: WorkflowId,
        task_id: TaskId,
        error: impl TextLike,
        superstep_count: u32,
        duration_ms: u64,
    ) -> (r: Self)
        ensures
            r.workflow_id == workflow_id,
            r.task_id == task_id,
            r.outputs@.len() == 0,
            r.superstep_count == superstep_count,
            r.duration_ms == duration_ms,
            !r.success,
            r.error matches Some(e) && e@ == error.text(),
    {
        WorkflowResult {
            workflow_id,
            task_id,
            outputs: Vec::new(),
            superstep_count,
            duration_ms,
            success: false,
            error: Some(error.into_string()),
        }
    }
}


// ============================================================================
// THE SUPERSTEP LOOP'S DECISIONS
// ============================================================================

/// What the superstep loop does at the start of a superstep.
#[derive(Debug)]
pub enum LoopStep {
    /// No message is pending: the workflow completed after this many
    /// supersteps.
    Complete(u32),
    /// Run this superstep.
    Execute(u32),
    /// The superstep limit is reached: the workflow fails with this message,
    /// counted as having run this many supersteps.
    Exhausted(String, u32),
}

/// What the superstep loop does once a superstep has run.
#[derive(Debug)]
pub enum AfterStep {
    /// Go on to the next superstep, saving a checkpoint first when `true`.
    Continue(bool),
    /// The superstep failed: the workflow fails with this message, counted as
    /// having run this many supersteps.
    Fail(String, u32),
}

/// The message of an executor's failure that does not exhaust its retries:
/// `"Executor {id} failed: {error}"`.
pub open spec fn executor_failed_text(id: Seq<char>, error: ExecutorError) -> Seq<char> {
    "Executor "@ + id + " failed: "@ + "["@ + error.executor_id@ + "] "@ + error.message@
}

/// The retry count stored for `id`, zero when there is none.
pub open spec fn retry_count_of(counts: Seq<(Seq<char>, u32)>, id: Seq<char>) -> u32 {
    if assoc_has(counts, id) { counts[assoc_index(counts, id)].1 } else { 0 }
}

/// Views of retry counts.
pub open spec fn count_views(v: Seq<(ExecutorId, u32)>) -> Seq<(Seq<char>, u32)> {
    v.map_values(|e: (ExecutorId, u32)| (e.0@, e.1))
}

/// The pending queues after a message is enqueued for each target in turn.
pub open spec fn queued_for_all(
    s: Seq<(Seq<char>, Seq<serde_json::Value>)>,
    targets: Seq<Seq<char>>,
    m: serde_json::Value,
) -> Seq<(Seq<char>, Seq<serde_json::Value>)>
    decreases targets.len(),
{
    if targets.len() == 0 {
        s
    } else {
        queued_after(queued_for_all(s, targets.drop_last(), m), targets.last(), m)
    }
}

impl WorkflowConfig {
    /// The step at the start of superstep `superstep`: the limit is checked
    /// first, then whether any message is pending.
    pub fn next_step(&self, superstep: u32, state: &SuperstepState) -> (r: LoopStep)
        ensures
            superstep >= self.max_supersteps ==> (r matches LoopStep::Exhausted(m, n) && n == self.max_supersteps
                && m@ == "Max supersteps ("@ + decimal(self.max_supersteps as nat) + ") exceeded"@),
            superstep < self.max_supersteps && state.pending().len() == 0 ==> r == LoopStep::Complete(superstep),
            superstep < self.max_supersteps && state.pending().len() > 0 ==> r == LoopStep::Execute(superstep),
    {
        if superstep >= self.max_supersteps {
            LoopStep::Exhausted(self.max_supersteps_message(), self.max_supersteps)
        } else if !state.has_pending_messages() {
            LoopStep::Complete(superstep)
        } else {
            LoopStep::Execute(superstep)
        }
    }

    /// The step once superstep `superstep` has run with the given outcome:
    /// its outputs join `outputs`, and the loop goes on, checkpointing when
    /// one is due; a failure ends the workflow with the error's text.
    pub fn after_superstep<O>(&self, superstep: u32, outcome: Result<Vec<O>, GraphError>, outputs: &mut Vec<O>) -> (r: AfterStep)
        requires
            self.enable_checkpointing && superstep > 0 ==> self.checkpoint_interval > 0,
        ensures
            match outcome {
                Ok(produced) => {
                    &&& final(outputs)@ == old(outputs)@ + produced@
                    &&& r == AfterStep::Continue(checkpoint_due(*self, superstep))
                },
                Err(e) => {
                    &&& final(outputs)@ == old(outputs)@
                    &&& r matches AfterStep::Fail(m, n) && n == superstep && m@ == graph_error_text(e)
                },
            },
    {
        match outcome {
            Ok(produced) => {
                let mut produced = produced;
                outputs.append(&mut produced);
                AfterStep::Continue(self.should_checkpoint(superstep))
            },
            Err(e) => AfterStep::Fail(e.to_string(), superstep),
        }
    }

    /// The error that ends a superstep when an executor fails: its retry
    /// count goes up by one, and once it reaches the limit the error is
    /// `MaxRetriesExceeded`; before that it is `ExecutorFailed` with
    /// `"Executor {id} failed: {error}"`.
    pub fn executor_failure(&self, retry_counts: &mut Vec<(ExecutorId, u32)>, executor_id: &ExecutorId, error: &ExecutorError) -> (r: GraphError)
        requires
            keys_unique(count_views(old(retry_counts)@)),
            retry_count_of(count_views(old(retry_counts)@), executor_id@) < u32::MAX,
        ensures
            keys_unique(count_views(final(retry_counts)@)),
            count_views(final(retry_counts)@) == assoc_put(
                count_views(old(retry_counts)@),
                executor_id@,
                (retry_count_of(count_views(old(retry_counts)@), executor_id@) + 1) as u32,
            ),
            retry_count_of(count_views(old(retry_counts)@), executor_id@) + 1 >= self.max_retries_per_executor
                ==> (r matches GraphError::MaxRetriesExceeded(id) && id@ == executor_id@),
            retry_count_of(count_views(old(retry_counts)@), executor_id@) + 1 < self.max_retries_per_executor
                ==> (r matches GraphError::ExecutorFailed(m) && m@ == executor_failed_text(executor_id@, *error)),
    {
        let ghost c0 = count_views(retry_counts@);
        let n = retry_counts.len();
        let mut j: usize = 0;
        let mut count: u32 = 1;
        let mut found = false;
        while !found && j < n
            invariant
                n == retry_counts.len(),
                c0 == count_views(retry_counts@),
                c0 == count_views(old(retry_counts)@),
                keys_unique(c0),
                retry_count_of(c0, executor_id@) < u32::MAX,
                0 <= j <= n,
                !found ==> forall|i: int| 0 <= i < j ==> c0[i].0 != executor_id@,
                !found ==> count == 1,
                found ==> j < n && c0[j as int].0 == executor_id@ && count == c0[j as int].1 + 1,
            decreases n - j, (if found { 0int } else { 1int }),
        {
            if retry_counts[j].0 == *executor_id {
                proof {
                    let k = assoc_index(c0, executor_id@);
                    assert(c0[j as int].0 == executor_id@);
                    assert(k == j) by {
                        if k != j {
                            assert(c0[k].0 == c0[j as int].0);
                        }
                    }
                }
                count = retry_counts[j].1 + 1;
                found = true;
            } else {
                j = j + 1;
            }
        }
        if found {
            let id = retry_counts[j].0.clone();
            retry_counts.set(j, (id, count));
            proof {
                assert(count_views(retry_counts@) =~= c0.update(j as int, (executor_id@, count)));
                assert forall|a: int, b: int| 0 <= a < b < c0.len() implies count_views(retry_counts@)[a].0 != count_views(retry_counts@)[b].0 by {
                    assert(c0[a].0 != c0[b].0);
                }
            }
        } else {
            proof {
                assert(!assoc_has(c0, executor_id@));
            }
            retry_counts.push((executor_id.clone(), 1));
            proof {
                assert(count_views(retry_counts@) =~= c0.push((executor_id@, 1u32)));
            }
        }
        if count >= self.max_retries_per_executor {
            GraphError::MaxRetriesExceeded(executor_id.clone())
        } else {
            let mut m = String::new();
            append(&mut m, "Executor ");
            append(&mut m, executor_id.as_str());
            append(&mut m, " failed: ");
            let shown = error.to_string();
            append(&mut m, shown.as_str());
            assert(m@ =~= executor_failed_text(executor_id@, *error));
            GraphError::ExecutorFailed(m)
        }
    }
}

/// Enqueue a message for each of the targets it was routed to, in order.
pub fn deliver(state: &mut SuperstepState, targets: Vec<ExecutorId>, message: &serde_json::Value)
    requires
        old(state).wf(),
    ensures
        final(state).wf(),
        final(state).pending() == queued_for_all(old(state).pending(), targets@.map_values(|t: ExecutorId| t@), *message),
        final(state).completed() == old(state).completed(),
        final(state).failed() == old(state).failed(),
{
    let ghost p0 = state.pending();
    let ghost views = targets@.map_values(|t: ExecutorId| t@);
    let mut rest = targets;
    let ghost mut j: int = 0;
    while rest.len() > 0
        invariant
            state.wf(),
            0 <= j <= views.len(),
            rest@.map_values(|t: ExecutorId| t@) == views.skip(j),
            state.pending() == queued_for_all(p0, views.take(j), *message),
            state.completed() == old(state).completed(),
            state.failed() == old(state).failed(),
        decreases rest@.len(),
    {
        proof {
            assert(rest@.map_values(|t: ExecutorId| t@).len() == rest@.len());
            assert(j < views.len());
        }
        let ghost before = rest@;
        let target = rest.remove(0);
        proof {
            assert(views.skip(j)[0] == target@);
            assert(views.take(j + 1).drop_last() =~= views.take(j));
            assert(views.take(j + 1).last() == target@);
        }
        state.enqueue_message(target, message.clone());
        proof {
            assert forall|i: int| 0 <= i < rest@.len() implies rest@[i]@ == views[j + 1 + i] by {
                assert(rest@[i] == before[i + 1]);
                assert(before.map_values(|t: ExecutorId| t@)[i + 1] == views.skip(j)[i + 1]);
            }
            j = j + 1;
            assert(rest@.map_values(|t: ExecutorId| t@) =~= views.skip(j));
        }
    }
    assert(views.take(j) =~= views);
}

/// Delivering a message to `n` targets adds `n` pending messages, one per
/// target, whether or not targets repeat.
pub proof fn lemma_deliver_adds_one_per_target(
    queues: Seq<(Seq<char>, Seq<serde_json::Value>)>,
    targets: Seq<Seq<char>>,
    message: serde_json::Value,
)
    ensures
        message_total(queued_for_all(queues, targets, message)) == message_total(queues) + targets.len(),
    decreases targets.len(),
{
    if targets.len() > 0 {
        lemma_deliver_adds_one_per_target(queues, targets.drop_last(), message);
        lemma_enqueue_adds_one(queued_for_all(queues, targets.drop_last(), message), targets.last(), message);
    }
}

/// The superstep a run resumes at: the one after the checkpoint's.
pub fn resume_superstep(checkpoint: &Checkpoint) -> (r: u32)
    requires
        checkpoint.superstep < u32::MAX,
    ensures
        r == checkpoint.superstep + 1,
{
    checkpoint.superstep + 1
}


// ============================================================================
// STREAM EVENTS
// ============================================================================

/// Events emitted during workflow execution.
#[derive(Debug)]
pub enum WorkflowStreamEvent {
    /// Workflow started.
    Started { workflow_id: WorkflowId, task_id: TaskId, timestamp: Timestamp },
    /// Superstep started.
    SuperstepStarted { superstep: u32, active_executor_count: usize },
    /// Executor started processing.
    ExecutorStarted { executor_id: ExecutorId, superstep: u32 },
    /// Executor completed successfully.
    ExecutorCompleted { executor_id: ExecutorId, superstep: u32, duration_ms: u64, message_count: usize },
    /// Executor failed.
    ExecutorFailed { executor_id: ExecutorId, superstep: u32, error: String, will_retry: bool },
    /// Superstep completed.
    SuperstepCompleted { superstep: u32, duration_ms: u64, messages_routed: usize },
    /// Checkpoint created.
    CheckpointCreated { superstep: u32, checkpoint_id: String },
    /// Output yielded by an executor.
    Output { executor_id: ExecutorId, data: serde_json::Value },
    /// Custom event from an executor.
    CustomEvent { executor_id: ExecutorId, event_type: String, data: serde_json::Value },
    /// Workflow completed successfully.
    Completed { duration_ms: u64, superstep_count: u32, output_count: usize },
    /// Workflow failed.
    Failed { error: String, last_superstep: u32 },
}

} // verus!
