//! Supersteps: workflows execute in discrete steps (BSP/Pregel). In each,
//! all active executors process their messages, and the messages they
//! produce are routed through edges for the next step.
use vstd::prelude::*;
use crate::clock::{now, Timestamp};
use crate::keyed::{assoc_has, assoc_index, assoc_put, keys_unique, set_added};
use crate::graph::types::{ExecutorId, TaskId, WorkflowId};
use crate::text::{append, chars_of, decimal, has_prefix, push_char, push_decimal, starts_with, to_owned};

verus! {

// ============================================================================
// KEYED ENTRIES
// ============================================================================

/// The messages queued under each key, in order.
pub open spec fn queued_after(
    s: Seq<(Seq<char>, Seq<serde_json::Value>)>,
    k: Seq<char>,
    m: serde_json::Value,
) -> Seq<(Seq<char>, Seq<serde_json::Value>)> {
    assoc_put(s, k, if assoc_has(s, k) { s[assoc_index(s, k)].1.push(m) } else { seq![m] })
}

/// The number of messages over all keys.
pub open spec fn message_total(s: Seq<(Seq<char>, Seq<serde_json::Value>)>) -> nat
    decreases s.len(),
{
    if s.len() == 0 {
        0
    } else {
        message_total(s.drop_last()) + s.last().1.len()
    }
}

proof fn lemma_message_total_update(s: Seq<(Seq<char>, Seq<serde_json::Value>)>, i: int, e: (Seq<char>, Seq<serde_json::Value>))
    requires
        0 <= i < s.len(),
    ensures
        message_total(s.update(i, e)) == message_total(s) - s[i].1.len() + e.1.len(),
    decreases s.len(),
{
    if i < s.len() - 1 {
        assert(s.update(i, e).drop_last() =~= s.drop_last().update(i, e));
        lemma_message_total_update(s.drop_last(), i, e);
    } else {
        assert(s.update(i, e).drop_last() =~= s.drop_last());
    }
}

proof fn lemma_message_total_take(s: Seq<(Seq<char>, Seq<serde_json::Value>)>, j: int)
    requires
        0 <= j < s.len(),
    ensures
        message_total(s.take(j + 1)) == message_total(s.take(j)) + s[j].1.len(),
{
    assert(s.take(j + 1).drop_last() =~= s.take(j));
}

/// Views of keyed message queues.
pub open spec fn queue_views(v: Seq<(ExecutorId, Vec<serde_json::Value>)>) -> Seq<(Seq<char>, Seq<serde_json::Value>)> {
    v.map_values(|e: (ExecutorId, Vec<serde_json::Value>)| (e.0@, e.1@))
}

/// Views of keyed texts.
pub open spec fn failure_views(v: Seq<(ExecutorId, String)>) -> Seq<(Seq<char>, Seq<char>)> {
    v.map_values(|e: (ExecutorId, String)| (e.0@, e.1@))
}

/// Views of identifiers.
pub open spec fn id_views(v: Seq<ExecutorId>) -> Seq<Seq<char>> {
    v.map_values(|e: ExecutorId| e@)
}

// ============================================================================
// SUPERSTEP STATE
// ============================================================================

/// State for a single superstep execution.
#[derive(Debug)]
pub struct SuperstepState {
    /// Messages pending for each executor, one entry per executor, in the
    /// order the executors first received one.
    pub pending_messages: Vec<(ExecutorId, Vec<serde_json::Value>)>,
    /// Executors that have completed in the current superstep.
    pub completed_executors: Vec<ExecutorId>,
    /// Executors that failed in the current superstep, with their errors,
    /// one entry per executor.
    pub failed_executors: Vec<(ExecutorId, String)>,
}

impl SuperstepState {
    /// The pending queues, by executor.
    pub open spec fn pending(&self) -> Seq<(Seq<char>, Seq<serde_json::Value>)> {
        queue_views(self.pending_messages@)
    }

    /// The completed executors.
    pub open spec fn completed(&self) -> Seq<Seq<char>> {
        id_views(self.completed_executors@)
    }

    /// The failed executors with their errors.
    pub open spec fn failed(&self) -> Seq<(Seq<char>, Seq<char>)> {
        failure_views(self.failed_executors@)
    }

    /// Each executor appears at most once in each collection.
    pub open spec fn wf(&self) -> bool {
        &&& keys_unique(self.pending())
        &&& self.completed().no_duplicates()
        &&& keys_unique(self.failed())
    }

    /// Create a new empty superstep state.
    pub fn new() -> (r: Self)
        ensures
            r.wf(),
            r.pending().len() == 0,
            r.completed().len() == 0,
            r.failed().len() == 0,
    {
        SuperstepState { pending_messages: Vec::new(), completed_executors: Vec::new(), failed_executors: Vec::new() }
    }

    /// Enqueue a message for an executor.
    pub fn enqueue_message(&mut self, executor_id: ExecutorId, message: serde_json::Value)
        requires
            old(self).wf(),
        ensures
            final(self).wf(),
            final(self).pending() == queued_after(old(self).pending(), executor_id@, message),
            message_total(final(self).pending()) == message_total(old(self).pending()) + 1,
            final(self).completed() == old(self).completed(),
            final(self).failed() == old(self).failed(),
    {
        let ghost old_pending = self.pending();
        let n = self.pending_messages.len();
        let mut j: usize = 0;
        while j < n
            invariant
                n == self.pending_messages.len(),
                old_pending == self.pending(),
                self.wf(),
                self.completed() == old(self).completed(),
                self.failed() == old(self).failed(),
                old_pending == old(self).pending(),
                0 <= j <= n,
                forall|i: int| 0 <= i < j ==> old_pending[i].0 != executor_id@,
            decreases n - j,
        {
            if self.pending_messages[j].0 == executor_id {
                proof {
                    assert(assoc_has(old_pending, executor_id@));
                    let k = assoc_index(old_pending, executor_id@);
                    assert(old_pending[j as int].0 == executor_id@);
                    assert(k == j) by {
                        if k != j {
                            assert(old_pending[k].0 == old_pending[j as int].0);
                        }
                    }
                }
                let mut entry = self.pending_messages.remove(j);
                entry.1.push(message);
                self.pending_messages.insert(j, entry);
                proof {
                    let e = (executor_id@, old_pending[j as int].1.push(message));
                    assert(self.pending() =~= old_pending.update(j as int, e));
                    lemma_message_total_update(old_pending, j as int, e);
                }
                return;
            }
            j = j + 1;
        }
        let mut queue: Vec<serde_json::Value> = Vec::new();
        queue.push(message);
        assert(queue@ =~= seq![message]);
        self.pending_messages.push((executor_id, queue));
        proof {
            assert(!assoc_has(old_pending, executor_id@));
            assert(self.pending() =~= old_pending.push((executor_id@, seq![message])));
            assert(self.pending().drop_last() =~= old_pending);
        }
    }

    /// Mark an executor as completed.
    pub fn mark_completed(&mut self, executor_id: ExecutorId)
        requires
            old(self).wf(),
        ensures
            final(self).wf(),
            final(self).completed() == set_added(old(self).completed(), executor_id@),
            final(self).pending() == old(self).pending(),
            final(self).failed() == old(self).failed(),
    {
        let ghost old_completed = self.completed();
        let n = self.completed_executors.len();
        let mut j: usize = 0;
        while j < n
            invariant
                n == self.completed_executors.len(),
                old_completed == self.completed(),
                self.wf(),
                self.pending() == old(self).pending(),
                self.failed() == old(self).failed(),
                old_completed == old(self).completed(),
                0 <= j <= n,
                forall|i: int| 0 <= i < j ==> old_completed[i] != executor_id@,
            decreases n - j,
        {
            if self.completed_executors[j] == executor_id {
                assert(old_completed[j as int] == executor_id@);
                return;
            }
            j = j + 1;
        }
        self.completed_executors.push(executor_id);
        proof {
            assert(!old_completed.contains(executor_id@));
            assert(self.completed() =~= old_completed.push(executor_id@));
        }
    }

    /// Mark an executor as failed, replacing an earlier error for it.
    pub fn mark_failed(&mut self, executor_id: ExecutorId, error: String)
        requires
            old(self).wf(),
        ensures
            final(self).wf(),
            final(self).failed() == assoc_put(old(self).failed(), executor_id@, error@),
            final(self).pending() == old(self).pending(),
            final(self).completed() == old(self).completed(),
    {
        let ghost old_failed = self.failed();
        let n = self.failed_executors.len();
        let mut j: usize = 0;
        while j < n
            invariant
                n == self.failed_executors.len(),
                old_failed == self.failed(),
                self.wf(),
                self.pending() == old(self).pending(),
                self.completed() == old(self).completed(),
                old_failed == old(self).failed(),
                0 <= j <= n,
                forall|i: int| 0 <= i < j ==> old_failed[i].0 != executor_id@,
            decreases n - j,
        {
            if self.failed_executors[j].0 == executor_id {
                proof {
                    let k = assoc_index(old_failed, executor_id@);
                    assert(old_failed[j as int].0 == executor_id@);
                    assert(k == j) by {
                        if k != j {
                            assert(old_failed[k].0 == old_failed[j as int].0);
                        }
                    }
                }
                self.failed_executors.set(j, (executor_id, error));
                proof {
                    assert(self.failed() =~= old_failed.update(j as int, (executor_id@, error@)));
                }
                return;
            }
            j = j + 1;
        }
        self.failed_executors.push((executor_id, error));
        proof {
            assert(!assoc_has(old_failed, executor_id@));
            assert(self.failed() =~= old_failed.push((executor_id@, error@)));
        }
    }

    /// Check if there are pending messages.
    pub fn has_pending_messages(&self) -> (r: bool)
        ensures
            r == (self.pending().len() > 0),
    {
        self.pending_messages.len() > 0
    }

    /// Get the count of pending messages.
    pub fn pending_message_count(&self) -> (r: usize)
        requires
            message_total(self.pending()) <= usize::MAX,
        ensures
            r == message_total(self.pending()),
    {
        let ghost p = self.pending();
        let mut total: usize = 0;
        let mut j: usize = 0;
        while j < self.pending_messages.len()
            invariant
                p == self.pending(),
                message_total(p) <= usize::MAX,
                0 <= j <= p.len(),
                total == message_total(p.take(j as int)),
            decreases p.len() - j,
        {
            proof {
                lemma_message_total_take(p, j as int);
                lemma_message_total_prefix(p, j as int + 1);
            }
            total = total + self.pending_messages[j].1.len();
            j = j + 1;
        }
        assert(p.take(p.len() as int) =~= p);
        total
    }

    /// Get all executor IDs with pending messages.
    pub fn active_executors(&self) -> (r: Vec<&ExecutorId>)
        ensures
            r@.len() == self.pending().len(),
            forall|i: int| 0 <= i < r@.len() ==> (*r@[i])@ == self.pending()[i].0,
    {
        let mut r: Vec<&ExecutorId> = Vec::new();
        let mut j: usize = 0;
        while j < self.pending_messages.len()
            invariant
                0 <= j <= self.pending_messages.len(),
                r@.len() == j,
                forall|i: int| 0 <= i < j ==> (*r@[i])@ == self.pending()[i].0,
            decreases self.pending_messages.len() - j,
        {
            r.push(&self.pending_messages[j].0);
            j = j + 1;
        }
        r
    }

    /// Clear state for the next superstep. Pending messages stay: they are
    /// consumed during execution.
    pub fn clear_for_next_superstep(&mut self)
        requires
            old(self).wf(),
        ensures
            final(self).wf(),
            final(self).completed().len() == 0,
            final(self).failed().len() == 0,
            final(self).pending() == old(self).pending(),
    {
        self.completed_executors.clear();
        self.failed_executors.clear();
        assert(self.completed() =~= Seq::<Seq<char>>::empty());
        assert(self.failed() =~= Seq::<(Seq<char>, Seq<char>)>::empty());
    }

    /// Check if any executors failed.
    pub fn has_failures(&self) -> (r: bool)
        ensures
            r == (self.failed().len() > 0),
    {
        self.failed_executors.len() > 0
    }
}

/// Enqueueing a message adds exactly one pending message.
pub proof fn lemma_enqueue_adds_one(queues: Seq<(Seq<char>, Seq<serde_json::Value>)>, id: Seq<char>, message: serde_json::Value)
    ensures
        message_total(queued_after(queues, id, message)) == message_total(queues) + 1,
{
    if assoc_has(queues, id) {
        let i = assoc_index(queues, id);
        lemma_message_total_update(queues, i, (id, queues[i].1.push(message)));
    } else {
        assert(queues.push((id, seq![message])).drop_last() =~= queues);
    }
}

/// Marking an executor completed a second time changes nothing.
pub proof fn lemma_mark_completed_idempotent(completed: Seq<Seq<char>>, id: Seq<char>)
    ensures
        set_added(set_added(completed, id), id) == set_added(completed, id),
{
    if !completed.contains(id) {
        assert(completed.push(id)[completed.len() as int] == id);
    }
}

/// Marking an executor failed twice leaves one entry for it, with the later
/// error, where the first entry was.
pub proof fn lemma_mark_failed_replaces(failed: Seq<(Seq<char>, Seq<char>)>, id: Seq<char>, first: Seq<char>, second: Seq<char>)
    requires
        keys_unique(failed),
    ensures
        keys_unique(assoc_put(failed, id, first)),
        assoc_put(assoc_put(failed, id, first), id, second) == assoc_put(failed, id, second),
{
    let once = assoc_put(failed, id, first);
    if assoc_has(failed, id) {
        let i = assoc_index(failed, id);
        assert(once[i].0 == id);
        assert(assoc_has(once, id));
        let k = assoc_index(once, id);
        assert(k == i) by {
            if k != i {
                assert(failed[k].0 == once[k].0);
            }
        }
        assert(once.update(i, (id, second)) =~= failed.update(i, (id, second)));
    } else {
        let n = failed.len() as int;
        assert(once[n].0 == id);
        assert(assoc_has(once, id));
        let k = assoc_index(once, id);
        assert(k == n) by {
            if k != n {
                assert(failed[k].0 == once[k].0);
            }
        }
        assert(once.update(n, (id, second)) =~= failed.push((id, second)));
    }
}

proof fn lemma_message_total_prefix(s: Seq<(Seq<char>, Seq<serde_json::Value>)>, j: int)
    requires
        0 <= j <= s.len(),
    ensures
        message_total(s.take(j)) <= message_total(s),
    decreases s.len() - j,
{
    if j < s.len() {
        lemma_message_total_take(s, j);
        lemma_message_total_prefix(s, j + 1);
    } else {
        assert(s.take(j) =~= s);
    }
}

/// Metrics for a single superstep execution.
#[derive(Debug, Clone, Copy)]
pub struct SuperstepMetrics {
    /// Superstep number.
    pub superstep: u32,
    /// Number of executors that ran.
    pub executor_count: usize,
    /// Number of messages processed.
    pub messages_processed: usize,
    /// Number of messages produced.
    pub messages_produced: usize,
    /// Number of outputs yielded.
    pub outputs_yielded: usize,
    /// Duration in milliseconds.
    pub duration_ms: u64,
    /// Number of failures.
    pub failure_count: usize,
}

impl Default for SuperstepMetrics {
    fn default() -> (r: Self)
        ensures
            r.superstep == 0 && r.executor_count == 0 && r.messages_processed == 0 && r.messages_produced == 0
                && r.outputs_yielded == 0 && r.duration_ms == 0 && r.failure_count == 0,
    {
        Self::new(0)
    }
}

impl SuperstepMetrics {
    /// Metrics for the given superstep, all counts zero.
    pub fn new(superstep: u32) -> (r: Self)
        ensures
            r.superstep == superstep,
            r.executor_count == 0,
            r.messages_processed == 0,
            r.messages_produced == 0,
            r.outputs_yielded == 0,
            r.duration_ms == 0,
            r.failure_count == 0,
    {
        SuperstepMetrics {
            superstep,
            executor_count: 0,
            messages_processed: 0,
            messages_produced: 0,
            outputs_yielded: 0,
            duration_ms: 0,
            failure_count: 0,
        }
    }

    /// Counts one more executor run and adds what it processed and
    /// produced.
    pub fn record_execution(&mut self, messages_processed: usize, messages_produced: usize, outputs_yielded: usize)
        requires
            old(self).executor_count + 1 <= usize::MAX,
            old(self).messages_processed + messages_processed <= usize::MAX,
            old(self).messages_produced + messages_produced <= usize::MAX,
            old(self).outputs_yielded + outputs_yielded <= usize::MAX,
        ensures
            final(self).executor_count == old(self).executor_count + 1,
            final(self).messages_processed == old(self).messages_processed + messages_processed,
            final(self).messages_produced == old(self).messages_produced + messages_produced,
            final(self).outputs_yielded == old(self).outputs_yielded + outputs_yielded,
            final(self).superstep == old(self).superstep,
            final(self).duration_ms == old(self).duration_ms,
            final(self).failure_count == old(self).failure_count,
    {
        self.executor_count = self.executor_count + 1;
        self.messages_processed = self.messages_processed + messages_processed;
        self.messages_produced = self.messages_produced + messages_produced;
        self.outputs_yielded = self.outputs_yielded + outputs_yielded;
    }

    /// Counts one more failure.
    pub fn record_failure(&mut self)
        requires
            old(self).failure_count + 1 <= usize::MAX,
        ensures
            final(self).failure_count == old(self).failure_count + 1,
            final(self).superstep == old(self).superstep,
            final(self).executor_count == old(self).executor_count,
            final(self).messages_processed == old(self).messages_processed,
            final(self).messages_produced == old(self).messages_produced,
            final(self).outputs_yielded == old(self).outputs_yielded,
            final(self).duration_ms == old(self).duration_ms,
    {
        self.failure_count = self.failure_count + 1;
    }

    /// Sets the duration.
    pub fn set_duration(&mut self, duration_ms: u64)
        ensures
            final(self).duration_ms == duration_ms,
            final(self).superstep == old(self).superstep,
            final(self).executor_count == old(self).executor_count,
            final(self).messages_processed == old(self).messages_processed,
            final(self).messages_produced == old(self).messages_produced,
            final(self).outputs_yielded == old(self).outputs_yielded,
            final(self).failure_count == old(self).failure_count,
    {
        self.duration_ms = duration_ms;
    }
}


// ============================================================================
// CHECKPOINT
// ============================================================================

/// The identifier of the checkpoint of a workflow's task at a superstep:
/// `"{workflow}-{task}-{superstep}"`.
pub open spec fn checkpoint_id_text(workflow: Seq<char>, task: Seq<char>, superstep: u32) -> Seq<char> {
    workflow_task_prefix(workflow, task) + seq!['-'] + decimal(superstep as nat)
}

/// What the identifiers of a workflow's task's checkpoints begin with:
/// `"{workflow}-{task}"`.
pub open spec fn workflow_task_prefix(workflow: Seq<char>, task: Seq<char>) -> Seq<char> {
    workflow + seq!['-'] + task
}

/// A checkpoint capturing workflow state at a superstep boundary.
#[derive(Debug)]
pub struct Checkpoint {
    /// Unique checkpoint ID.
    pub id: String,
    /// Workflow ID.
    pub workflow_id: WorkflowId,
    /// Task ID.
    pub task_id: TaskId,
    /// Superstep number at checkpoint.
    pub superstep: u32,
    /// State at checkpoint.
    pub state: SuperstepState,
    /// Accumulated outputs (serialized).
    pub outputs: Vec<serde_json::Value>,
    /// When the checkpoint was created.
    pub created_at: Timestamp,
    /// Retry counts per executor, one entry per executor.
    pub retry_counts: Vec<(ExecutorId, u32)>,
}

pub(crate) fn workflow_task_prefix_text(workflow_id: &WorkflowId, task_id: &TaskId) -> (r: String)
    ensures
        r@ == workflow_task_prefix(workflow_id@, task_id@),
{
    let mut id = to_owned(workflow_id.as_str());
    push_char(&mut id, '-');
    append(&mut id, task_id.as_str());
    id
}

impl Checkpoint {
    /// Create a new checkpoint, stamped with the current time, with no
    /// outputs and no retry counts.
    pub fn new(workflow_id: WorkflowId, task_id: TaskId, superstep: u32, state: SuperstepState) -> (r: Self)
        ensures
            r.id@ == checkpoint_id_text(workflow_id@, task_id@, superstep),
            r.workflow_id == workflow_id,
            r.task_id == task_id,
            r.superstep == superstep,
            r.state == state,
            r.outputs@.len() == 0,
            r.retry_counts@.len() == 0,
    {
        let mut id = workflow_task_prefix_text(&workflow_id, &task_id);
        push_char(&mut id, '-');
        push_decimal(&mut id, superstep as u64);
        Checkpoint {
            id,
            workflow_id,
            task_id,
            superstep,
            state,
            outputs: Vec::new(),
            created_at: now(),
            retry_counts: Vec::new(),
        }
    }

    /// Replace the outputs.
    pub fn with_outputs(self, outputs: Vec<serde_json::Value>) -> (r: Self)
        ensures
            r.outputs == outputs,
            r.id == self.id,
            r.workflow_id == self.workflow_id,
            r.task_id == self.task_id,
            r.superstep == self.superstep,
            r.state == self.state,
            r.created_at == self.created_at,
            r.retry_counts == self.retry_counts,
    {
        Checkpoint { outputs, ..self }
    }

    /// Replace the retry counts.
    pub fn with_retry_counts(self, counts: Vec<(ExecutorId, u32)>) -> (r: Self)
        ensures
            r.retry_counts == counts,
            r.id == self.id,
            r.workflow_id == self.workflow_id,
            r.task_id == self.task_id,
            r.superstep == self.superstep,
            r.state == self.state,
            r.created_at == self.created_at,
            r.outputs == self.outputs,
    {
        Checkpoint { retry_counts: counts, ..self }
    }

    /// Get the checkpoint ID.
    pub fn checkpoint_id(&self) -> (r: &str)
        ensures
            r@ == self.id@,
    {
        self.id.as_str()
    }
}

// ============================================================================
// IN-MEMORY CHECKPOINT STORE
// ============================================================================

/// The identifiers of `s`, in order.
pub open spec fn checkpoint_ids(s: Seq<Checkpoint>) -> Seq<Seq<char>> {
    s.map_values(|c: Checkpoint| c.id@)
}

/// The checkpoints of `s` that a cleanup keeps: those whose identifier does
/// not begin with `prefix`, and those at superstep `keep` or later.
pub open spec fn kept_after_cleanup(s: Seq<Checkpoint>, prefix: Seq<char>, keep: u32) -> Seq<Checkpoint>
    decreases s.len(),
{
    if s.len() == 0 {
        s
    } else {
        let rest = kept_after_cleanup(s.drop_last(), prefix, keep);
        if has_prefix(s.last().id@, prefix) && s.last().superstep < keep {
            rest
        } else {
            rest.push(s.last())
        }
    }
}

/// The identifiers in `s` that begin with `prefix`, in order.
pub open spec fn ids_with_prefix(s: Seq<Checkpoint>, prefix: Seq<char>) -> Seq<Seq<char>>
    decreases s.len(),
{
    if s.len() == 0 {
        seq![]
    } else {
        let rest = ids_with_prefix(s.drop_last(), prefix);
        if has_prefix(s.last().id@, prefix) {
            rest.push(s.last().id@)
        } else {
            rest
        }
    }
}

proof fn lemma_kept_len(s: Seq<Checkpoint>, prefix: Seq<char>, keep: u32)
    ensures
        kept_after_cleanup(s, prefix, keep).len() <= s.len(),
    decreases s.len(),
{
    if s.len() > 0 {
        lemma_kept_len(s.drop_last(), prefix, keep);
    }
}

/// Checkpoints held in memory, one per identifier.
#[derive(Debug)]
pub struct InMemoryCheckpointBackend {
    checkpoints: Vec<Checkpoint>,
}

impl InMemoryCheckpointBackend {
    /// The stored checkpoints.
    pub closed spec fn stored(&self) -> Seq<Checkpoint> {
        self.checkpoints@
    }

    /// No two stored checkpoints share an identifier.
    pub closed spec fn wf(&self) -> bool {
        checkpoint_ids(self.checkpoints@).no_duplicates()
    }

    /// An empty store.
    pub fn new() -> (r: Self)
        ensures
            r.wf(),
            r.stored().len() == 0,
    {
        InMemoryCheckpointBackend { checkpoints: Vec::new() }
    }

    /// Save a checkpoint, replacing one with the same identifier where it
    /// stood.
    pub fn save(&mut self, checkpoint: Checkpoint)
        requires
            old(self).wf(),
        ensures
            final(self).wf(),
            checkpoint_ids(old(self).stored()).contains(checkpoint.id@) ==> final(self).stored()
                == old(self).stored().update(checkpoint_ids(old(self).stored()).index_of(checkpoint.id@), checkpoint),
            !checkpoint_ids(old(self).stored()).contains(checkpoint.id@) ==> final(self).stored()
                == old(self).stored().push(checkpoint),
    {
        let ghost s0 = self.checkpoints@;
        let n = self.checkpoints.len();
        let mut j: usize = 0;
        while j < n
            invariant
                n == self.checkpoints.len(),
                s0 == self.checkpoints@,
                s0 == old(self).checkpoints@,
                checkpoint_ids(s0).no_duplicates(),
                0 <= j <= n,
                forall|i: int| 0 <= i < j ==> s0[i].id@ != checkpoint.id@,
            decreases n - j,
        {
            if self.checkpoints[j].id == checkpoint.id {
                proof {
                    let ids = checkpoint_ids(s0);
                    assert(ids[j as int] == checkpoint.id@);
                    assert(ids.contains(checkpoint.id@));
                    let k = ids.index_of(checkpoint.id@);
                    assert(k == j);
                }
                self.checkpoints.set(j, checkpoint);
                proof {
                    let ids1 = checkpoint_ids(self.checkpoints@);
                    assert(ids1 =~= checkpoint_ids(s0));
                }
                return;
            }
            j = j + 1;
        }
        proof {
            let ids = checkpoint_ids(s0);
            assert(!ids.contains(checkpoint.id@)) by {
                if ids.contains(checkpoint.id@) {
                    let k = ids.index_of(checkpoint.id@);
                    assert(s0[k].id@ == checkpoint.id@);
                }
            }
        }
        self.checkpoints.push(checkpoint);
        proof {
            assert(checkpoint_ids(self.checkpoints@) =~= checkpoint_ids(s0).push(checkpoint.id@));
        }
    }

    /// The latest checkpoint of a workflow's task: of the stored checkpoints
    /// whose identifier begins with `"{workflow}-{task}"`, one with the highest
    /// superstep. `None` when there is no such checkpoint.
    pub fn load(&self, workflow_id: &WorkflowId, task_id: &TaskId) -> (r: Option<&Checkpoint>)
        ensures
            r is None <==> forall|i: int| 0 <= i < self.stored().len()
                ==> !has_prefix(#[trigger] self.stored()[i].id@, workflow_task_prefix(workflow_id@, task_id@)),
            r matches Some(c) ==> {
                &&& self.stored().contains(*c)
                &&& has_prefix(c.id@, workflow_task_prefix(workflow_id@, task_id@))
                &&& forall|i: int| 0 <= i < self.stored().len()
                    && has_prefix(#[trigger] self.stored()[i].id@, workflow_task_prefix(workflow_id@, task_id@))
                    ==> self.stored()[i].superstep <= c.superstep
            },
    {
        let prefix_text = workflow_task_prefix_text(workflow_id, task_id);
        let prefix = chars_of(prefix_text.as_str());
        let ghost p = workflow_task_prefix(workflow_id@, task_id@);
        let mut best: Option<usize> = None;
        let mut j: usize = 0;
        while j < self.checkpoints.len()
            invariant
                prefix@ == p,
                0 <= j <= self.checkpoints@.len(),
                best matches Some(b) ==> {
                    &&& b < j
                    &&& has_prefix(self.checkpoints@[b as int].id@, p)
                    &&& forall|i: int| 0 <= i < j && has_prefix(#[trigger] self.checkpoints@[i].id@, p)
                        ==> self.checkpoints@[i].superstep <= self.checkpoints@[b as int].superstep
                },
                best is None ==> forall|i: int| 0 <= i < j ==> !has_prefix(#[trigger] self.checkpoints@[i].id@, p),
            decreases self.checkpoints@.len() - j,
        {
            let id = chars_of(self.checkpoints[j].id.as_str());
            if starts_with(&id, &prefix) {
                match best {
                    Some(b) => {
                        if self.checkpoints[j].superstep >= self.checkpoints[b].superstep {
                            best = Some(j);
                        }
                    },
                    None => {
                        best = Some(j);
                    },
                }
            }
            j = j + 1;
        }
        match best {
            Some(b) => {
                assert(self.stored()[b as int] == self.checkpoints@[b as int]);
                Some(&self.checkpoints[b])
            },
            None => None,
        }
    }

    /// The stored checkpoint with the given identifier, if any.
    pub fn load_by_id(&self, checkpoint_id: &str) -> (r: Option<&Checkpoint>)
        ensures
            r is None <==> !checkpoint_ids(self.stored()).contains(checkpoint_id@),
            r matches Some(c) ==> self.stored().contains(*c) && c.id@ == checkpoint_id@,
    {
        let target = to_owned(checkpoint_id);
        let mut j: usize = 0;
        while j < self.checkpoints.len()
            invariant
                target@ == checkpoint_id@,
                0 <= j <= self.checkpoints@.len(),
                forall|i: int| 0 <= i < j ==> self.checkpoints@[i].id@ != checkpoint_id@,
            decreases self.checkpoints@.len() - j,
        {
            if self.checkpoints[j].id == target {
                proof {
                    assert(checkpoint_ids(self.stored())[j as int] == checkpoint_id@);
                    assert(self.stored()[j as int] == self.checkpoints@[j as int]);
                }
                return Some(&self.checkpoints[j]);
            }
            j = j + 1;
        }
        proof {
            let ids = checkpoint_ids(self.stored());
            if ids.contains(checkpoint_id@) {
                let k = ids.index_of(checkpoint_id@);
                assert(self.checkpoints@[k].id@ == checkpoint_id@);
            }
        }
        None
    }

    /// Delete a workflow's task's checkpoints from before superstep
    /// `keep_after_superstep`, keeping the rest in order; returns how many
    /// were deleted.
    pub fn cleanup(&mut self, workflow_id: &WorkflowId, task_id: &TaskId, keep_after_superstep: u32) -> (removed: usize)
        requires
            old(self).wf(),
        ensures
            final(self).wf(),
            final(self).stored() == kept_after_cleanup(
                old(self).stored(),
                workflow_task_prefix(workflow_id@, task_id@),
                keep_after_superstep,
            ),
            removed == old(self).stored().len() - final(self).stored().len(),
    {
        let prefix_text = workflow_task_prefix_text(workflow_id, task_id);
        let prefix = chars_of(prefix_text.as_str());
        let ghost p = workflow_task_prefix(workflow_id@, task_id@);
        let ghost s0 = self.checkpoints@;
        assert(s0.len() == self.checkpoints.len());
        let mut rest: Vec<Checkpoint> = Vec::new();
        std::mem::swap(&mut rest, &mut self.checkpoints);
        let mut kept: Vec<Checkpoint> = Vec::new();
        let mut removed: usize = 0;
        let ghost mut j: int = 0;
        while rest.len() > 0
            invariant
                prefix@ == p,
                0 <= j <= s0.len(),
                rest@ == s0.skip(j),
                kept@ == kept_after_cleanup(s0.take(j), p, keep_after_superstep),
                removed == j - kept@.len(),
                kept@.len() <= j,
                s0.len() <= usize::MAX,
            decreases rest@.len(),
        {
            let c = rest.remove(0);
            proof {
                assert(s0.take(j + 1).drop_last() =~= s0.take(j));
                assert(s0.take(j + 1).last() == c);
                lemma_kept_len(s0.take(j), p, keep_after_superstep);
            }
            let id = chars_of(c.id.as_str());
            if starts_with(&id, &prefix) && c.superstep < keep_after_superstep {
                removed = removed + 1;
            } else {
                kept.push(c);
            }
            proof {
                j = j + 1;
                assert(rest@ =~= s0.skip(j));
            }
        }
        proof {
            assert(s0.take(j) =~= s0);
            lemma_kept_subsequence(s0, p, keep_after_superstep);
        }
        self.checkpoints = kept;
        removed
    }

    /// The identifiers of a workflow's task's checkpoints, in the order they
    /// are stored.
    pub fn list(&self, workflow_id: &WorkflowId, task_id: &TaskId) -> (r: Vec<String>)
        ensures
            r@.map_values(|s: String| s@) == ids_with_prefix(self.stored(), workflow_task_prefix(workflow_id@, task_id@)),
    {
        let prefix_text = workflow_task_prefix_text(workflow_id, task_id);
        let prefix = chars_of(prefix_text.as_str());
        let ghost p = workflow_task_prefix(workflow_id@, task_id@);
        let mut r: Vec<String> = Vec::new();
        let mut j: usize = 0;
        while j < self.checkpoints.len()
            invariant
                prefix@ == p,
                0 <= j <= self.checkpoints@.len(),
                r@.map_values(|s: String| s@) == ids_with_prefix(self.checkpoints@.take(j as int), p),
            decreases self.checkpoints@.len() - j,
        {
            proof {
                assert(self.checkpoints@.take(j + 1).drop_last() =~= self.checkpoints@.take(j as int));
            }
            let id = chars_of(self.checkpoints[j].id.as_str());
            if starts_with(&id, &prefix) {
                let copy = to_owned(self.checkpoints[j].id.as_str());
                r.push(copy);
                proof {
                    assert(r@.map_values(|s: String| s@) =~= ids_with_prefix(self.checkpoints@.take(j as int), p).push(copy@));
                }
            }
            j = j + 1;
        }
        assert(self.checkpoints@.take(self.checkpoints@.len() as int) =~= self.checkpoints@);
        r
    }
}

/// What a cleanup keeps is drawn from what was stored, in order: distinct
/// identifiers stay distinct.
proof fn lemma_kept_subsequence(s: Seq<Checkpoint>, prefix: Seq<char>, keep: u32)
    requires
        checkpoint_ids(s).no_duplicates(),
    ensures
        checkpoint_ids(kept_after_cleanup(s, prefix, keep)).no_duplicates(),
        forall|c: Checkpoint| kept_after_cleanup(s, prefix, keep).contains(c) ==> s.contains(c),
    decreases s.len(),
{
    if s.len() > 0 {
        let init = s.drop_last();
        assert(checkpoint_ids(init) =~= checkpoint_ids(s).drop_last());
        lemma_kept_subsequence(init, prefix, keep);
        let rest = kept_after_cleanup(init, prefix, keep);
        assert forall|c: Checkpoint| rest.contains(c) implies s.contains(c) by {
            assert(init.contains(c));
            let k = choose|k: int| 0 <= k < init.len() && init[k] == c;
            assert(s[k] == c);
        }
        if !(has_prefix(s.last().id@, prefix) && s.last().superstep < keep) {
            let ids = checkpoint_ids(rest.push(s.last()));
            assert(ids =~= checkpoint_ids(rest).push(s.last().id@));
            assert forall|a: int, b: int| 0 <= a < b < ids.len() implies ids[a] != ids[b] by {
                if b == ids.len() - 1 {
                    let c = rest[a];
                    assert(rest.contains(c));
                    assert(init.contains(c));
                    let k = choose|k: int| 0 <= k < init.len() && init[k] == c;
                    assert(s[k] == c);
                    assert(ids[a] == c.id@);
                    if ids[a] == ids[b] {
                        assert(checkpoint_ids(s)[k] == checkpoint_ids(s)[s.len() - 1]);
                    }
                }
            }
            assert forall|c: Checkpoint| rest.push(s.last()).contains(c) implies s.contains(c) by {
                if c != s.last() {
                    let k = choose|k: int| 0 <= k < rest.push(s.last()).len() && rest.push(s.last())[k] == c;
                    assert(rest[k] == c);
                    assert(rest.contains(c));
                } else {
                    assert(s[s.len() - 1] == c);
                }
            }
        }
    }
}

// ============================================================================
// RESULT OF ONE EXECUTOR IN A SUPERSTEP
// ============================================================================

/// Result of executing a single executor in a superstep.
#[derive(Debug)]
pub struct ExecutorSuperstepResult {
    /// Executor that was run.
    pub executor_id: ExecutorId,
    /// Whether execution succeeded.
    pub success: bool,
    /// Error message if failed.
    pub error: Option<String>,
    /// Messages produced.
    pub messages: Vec<serde_json::Value>,
    /// Outputs yielded.
    pub outputs: Vec<serde_json::Value>,
    /// Duration in milliseconds.
    pub duration_ms: u64,
}

impl ExecutorSuperstepResult {
    /// A successful run with what it produced.
    pub fn success(
        executor_id: ExecutorId,
        messages: Vec<serde_json::Value>,
        outputs: Vec<serde_json::Value>,
        duration_ms: u64,
    ) -> (r: Self)
        ensures
            r.executor_id == executor_id,
            r.success,
            r.error is None,
            r.messages == messages,
            r.outputs == outputs,
            r.duration_ms == duration_ms,
    {
        ExecutorSuperstepResult { executor_id, success: true, error: None, messages, outputs, duration_ms }
    }

    /// A failed run: it produced nothing.
    pub fn failure(executor_id: ExecutorId, error: String, duration_ms: u64) -> (r: Self)
        ensures
            r.executor_id == executor_id,
            !r.success,
            r.error == Some(error),
            r.messages@.len() == 0,
            r.outputs@.len() == 0,
            r.duration_ms == duration_ms,
    {
        ExecutorSuperstepResult {
            executor_id,
            success: false,
            error: Some(error),
            messages: Vec::new(),
            outputs: Vec::new(),
            duration_ms,
        }
    }
}

} // verus!
