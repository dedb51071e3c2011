//! Persistent checkpoints: a checkpoint together with the workflow's shared
//! state, kept so that a long run can resume after a crash, and the
//! in-memory store of them.
use vstd::prelude::*;
use crate::clock::Timestamp;
use crate::graph::superstep::{message_total, workflow_task_prefix, workflow_task_prefix_text, Checkpoint};
use crate::graph::types::{TaskId, WorkflowId};
use crate::ranking::{as_ints, lemma_ranked_distinct, lemma_ranked_prefix_members, rank_by_key, ranked};
use crate::text::{chars_of, has_prefix, starts_with, to_owned};

verus! {

// ============================================================================
// PERSISTENT CHECKPOINT
// ============================================================================

/// A checkpoint with the shared state at the time it was taken.
#[derive(Debug)]
pub struct PersistentCheckpoint {
    /// The checkpoint.
    pub checkpoint: Checkpoint,
    /// Shared state, by key, one entry per key.
    pub shared_state: Vec<(String, serde_json::Value)>,
    /// Version of the stored layout.
    pub schema_version: u32,
    /// Hash of the workflow definition, to detect changes.
    pub workflow_hash: Option<String>,
}

impl PersistentCheckpoint {
    /// A persistent checkpoint with no shared state, layout version 1 and no
    /// workflow hash.
    pub fn from_checkpoint(checkpoint: Checkpoint) -> (r: Self)
        ensures
            r.checkpoint == checkpoint,
            r.shared_state@.len() == 0,
            r.schema_version == 1,
            r.workflow_hash is None,
    {
        PersistentCheckpoint { checkpoint, shared_state: Vec::new(), schema_version: 1, workflow_hash: None }
    }

    /// The same checkpoint with the given shared state.
    pub fn with_shared_state(self, state: Vec<(String, serde_json::Value)>) -> (r: Self)
        ensures
            r == (PersistentCheckpoint { shared_state: state, ..self }),
    {
        PersistentCheckpoint { shared_state: state, ..self }
    }

    /// The same checkpoint with a workflow hash.
    pub fn with_workflow_hash(self, hash: String) -> (r: Self)
        ensures
            r == (PersistentCheckpoint { workflow_hash: Some(hash), ..self }),
    {
        PersistentCheckpoint { workflow_hash: Some(hash), ..self }
    }

    /// The checkpoint's identifier.
    pub fn id(&self) -> (r: &str)
        ensures
            r@ == self.checkpoint.id@,
    {
        self.checkpoint.id.as_str()
    }

    /// The checkpoint's superstep.
    pub fn superstep(&self) -> (r: u32)
        ensures
            r == self.checkpoint.superstep,
    {
        self.checkpoint.superstep
    }
}

// ============================================================================
// CHECKPOINT METADATA
// ============================================================================

/// Names the RFC 3339 text that `chrono` writes for an instant.
pub uninterp spec fn rfc3339_text(t: Timestamp) -> Seq<char>;

/// Calls `chrono::DateTime::<Utc>::to_rfc3339` on the instant; the text is
/// named by the instant (one `chrono` cannot represent gives the empty
/// text).
#[verifier::external_body]
fn rfc3339(t: Timestamp) -> (r: String)
    ensures
        r@ == rfc3339_text(t),
{
    match chrono::DateTime::<chrono::Utc>::from_timestamp(t.secs, t.nanos) {
        Some(d) => d.to_rfc3339(),
        None => String::new(),
    }
}

/// Metadata about a checkpoint, for listing.
#[derive(Debug, Clone)]
pub struct CheckpointMetadata {
    pub id: String,
    pub workflow_id: String,
    pub task_id: String,
    pub superstep: u32,
    /// Creation time, RFC 3339.
    pub created_at: String,
    /// Stored size; computed by the store, zero here.
    pub size_bytes: usize,
    pub pending_message_count: usize,
    pub output_count: usize,
}

/// Metadata describes a persistent checkpoint.
pub open spec fn describes(m: CheckpointMetadata, pc: PersistentCheckpoint) -> bool {
    &&& m.id@ == pc.checkpoint.id@
    &&& m.workflow_id@ == pc.checkpoint.workflow_id@
    &&& m.task_id@ == pc.checkpoint.task_id@
    &&& m.superstep == pc.checkpoint.superstep
    &&& m.created_at@ == rfc3339_text(pc.checkpoint.created_at)
    &&& m.size_bytes == 0
    &&& m.pending_message_count == message_total(pc.checkpoint.state.pending())
    &&& m.output_count == pc.checkpoint.outputs@.len()
}

/// The pending messages of each stored checkpoint can be counted.
pub open spec fn countable(s: Seq<PersistentCheckpoint>) -> bool {
    forall|i: int| 0 <= i < s.len() ==> message_total(#[trigger] s[i].checkpoint.state.pending()) <= usize::MAX
}

impl CheckpointMetadata {
    /// The metadata of a persistent checkpoint.
    pub fn of_checkpoint(pc: &PersistentCheckpoint) -> (r: Self)
        requires
            message_total(pc.checkpoint.state.pending()) <= usize::MAX,
        ensures
            describes(r, *pc),
    {
        CheckpointMetadata {
            id: pc.checkpoint.id.clone(),
            workflow_id: to_owned(pc.checkpoint.workflow_id.as_str()),
            task_id: to_owned(pc.checkpoint.task_id.as_str()),
            superstep: pc.checkpoint.superstep,
            created_at: rfc3339(pc.checkpoint.created_at),
            size_bytes: 0,
            pending_message_count: pc.checkpoint.state.pending_message_count(),
            output_count: pc.checkpoint.outputs.len(),
        }
    }
}

// ============================================================================
// IN-MEMORY PERSISTENT BACKEND
// ============================================================================

/// The identifiers of `s`, in order.
pub open spec fn persistent_ids(s: Seq<PersistentCheckpoint>) -> Seq<Seq<char>> {
    s.map_values(|c: PersistentCheckpoint| c.checkpoint.id@)
}

/// The positions of `s` whose identifier begins with `prefix`, in order.
pub open spec fn prefixed_positions(s: Seq<PersistentCheckpoint>, prefix: Seq<char>, n: nat) -> Seq<int>
    decreases n,
{
    if n == 0 {
        seq![]
    } else {
        let rest = prefixed_positions(s, prefix, (n - 1) as nat);
        if has_prefix(s[n - 1].checkpoint.id@, prefix) {
            rest.push(n - 1)
        } else {
            rest
        }
    }
}

/// The supersteps at the given positions of `s`.
pub open spec fn supersteps_at(s: Seq<PersistentCheckpoint>, positions: Seq<int>) -> Seq<u32> {
    positions.map_values(|i: int| s[i].checkpoint.superstep)
}

/// Whether a cleanup that keeps the last `keep` checkpoints of a prefix
/// keeps position `i`: its identifier lacks the prefix, or it is among the
/// `keep` latest with it (by superstep, ties in stored order).
pub open spec fn kept_by_recency(s: Seq<PersistentCheckpoint>, prefix: Seq<char>, keep: nat, i: int) -> bool {
    let positions = prefixed_positions(s, prefix, s.len());
    !has_prefix(s[i].checkpoint.id@, prefix) || exists|k: int|
        0 <= k < keep && k < positions.len() && #[trigger] positions[ranked(supersteps_at(s, positions))[k]] == i
}

/// The checkpoints among the first `n` of `s` that a predicate keeps, in
/// order.
pub open spec fn kept_in_order(s: Seq<PersistentCheckpoint>, prefix: Seq<char>, keep: nat, n: nat) -> Seq<PersistentCheckpoint>
    decreases n,
{
    if n == 0 {
        seq![]
    } else {
        let rest = kept_in_order(s, prefix, keep, (n - 1) as nat);
        if kept_by_recency(s, prefix, keep, n - 1) {
            rest.push(s[n - 1])
        } else {
            rest
        }
    }
}

/// The checkpoints of `s` whose identifier does not begin with `prefix`,
/// in order.
pub open spec fn without_prefix(s: Seq<PersistentCheckpoint>, prefix: Seq<char>) -> Seq<PersistentCheckpoint>
    decreases s.len(),
{
    if s.len() == 0 {
        s
    } else if has_prefix(s.last().checkpoint.id@, prefix) {
        without_prefix(s.drop_last(), prefix)
    } else {
        without_prefix(s.drop_last(), prefix).push(s.last())
    }
}

/// Whether a checkpoint belongs to the workflow, and to the task when one
/// is given.
pub open spec fn listed_for(c: PersistentCheckpoint, workflow: Seq<char>, task: Option<Seq<char>>) -> bool {
    c.checkpoint.workflow_id@ == workflow && match task {
        Some(t) => c.checkpoint.task_id@ == t,
        None => true,
    }
}

/// The checkpoints of `s` listed for a workflow (and task), in order.
pub open spec fn listed(s: Seq<PersistentCheckpoint>, workflow: Seq<char>, task: Option<Seq<char>>) -> Seq<PersistentCheckpoint>
    decreases s.len(),
{
    if s.len() == 0 {
        s
    } else if listed_for(s.last(), workflow, task) {
        listed(s.drop_last(), workflow, task).push(s.last())
    } else {
        listed(s.drop_last(), workflow, task)
    }
}

proof fn lemma_prefixed_positions(s: Seq<PersistentCheckpoint>, prefix: Seq<char>, n: nat)
    requires
        n <= s.len(),
    ensures
        forall|k: int| 0 <= k < prefixed_positions(s, prefix, n).len() ==> 0 <= #[trigger] prefixed_positions(s, prefix, n)[k] < n
            && has_prefix(s[prefixed_positions(s, prefix, n)[k]].checkpoint.id@, prefix),
        prefixed_positions(s, prefix, n).len() <= n,
        forall|a: int, b: int| 0 <= a < b < prefixed_positions(s, prefix, n).len() ==> prefixed_positions(s, prefix, n)[a]
            < prefixed_positions(s, prefix, n)[b],
        forall|i: int| 0 <= i < n && has_prefix(s[i].checkpoint.id@, prefix) ==> prefixed_positions(s, prefix, n).contains(i),
    decreases n,
{
    if n > 0 {
        lemma_prefixed_positions(s, prefix, (n - 1) as nat);
        let rest = prefixed_positions(s, prefix, (n - 1) as nat);
        if has_prefix(s[n - 1].checkpoint.id@, prefix) {
            assert forall|i: int| 0 <= i < n && has_prefix(s[i].checkpoint.id@, prefix) implies rest.push(n - 1).contains(i) by {
                if i < n - 1 {
                    assert(rest.contains(i));
                    let k = choose|k: int| 0 <= k < rest.len() && rest[k] == i;
                    assert(rest.push(n - 1)[k] == i);
                } else {
                    assert(rest.push(n - 1)[rest.len() as int] == i);
                }
            }
        }
    }
}

/// Whether `id` is the identifier of one of the first `q` checkpoints of
/// `s`.
pub open spec fn id_among(id: Seq<char>, s: Seq<PersistentCheckpoint>, q: int) -> bool {
    exists|b: int| 0 <= b < q && s[b].checkpoint.id@ == id
}

/// Persistent checkpoints held in memory, one per identifier.
pub struct InMemoryPersistentBackend {
    checkpoints: Vec<PersistentCheckpoint>,
}

impl InMemoryPersistentBackend {
    /// The stored checkpoints.
    pub closed spec fn stored(&self) -> Seq<PersistentCheckpoint> {
        self.checkpoints@
    }

    /// No two stored checkpoints share an identifier.
    pub closed spec fn wf(&self) -> bool {
        persistent_ids(self.checkpoints@).no_duplicates()
    }

    /// An empty store.
    pub fn new() -> (r: Self)
        ensures
            r.wf(),
            r.stored().len() == 0,
    {
        InMemoryPersistentBackend { checkpoints: Vec::new() }
    }

    /// Save a checkpoint, replacing one with the same identifier where it
    /// stood.
    pub fn save_persistent(&mut self, checkpoint: PersistentCheckpoint)
        requires
            old(self).wf(),
        ensures
            final(self).wf(),
            persistent_ids(old(self).stored()).contains(checkpoint.checkpoint.id@) ==> final(self).stored()
                == old(self).stored().update(persistent_ids(old(self).stored()).index_of(checkpoint.checkpoint.id@), checkpoint),
            !persistent_ids(old(self).stored()).contains(checkpoint.checkpoint.id@) ==> final(self).stored()
                == old(self).stored().push(checkpoint),
    {
        let ghost s0 = self.checkpoints@;
        let n = self.checkpoints.len();
        let mut j: usize = 0;
        while j < n
            invariant
                n == self.checkpoints.len(),
                s0 == self.checkpoints@,
                s0 == old(self).checkpoints@,
                persistent_ids(s0).no_duplicates(),
                0 <= j <= n,
                forall|i: int| 0 <= i < j ==> s0[i].checkpoint.id@ != checkpoint.checkpoint.id@,
            decreases n - j,
        {
            if self.checkpoints[j].checkpoint.id == checkpoint.checkpoint.id {
                proof {
                    let ids = persistent_ids(s0);
                    assert(ids[j as int] == checkpoint.checkpoint.id@);
                    assert(ids.contains(checkpoint.checkpoint.id@));
                    assert(ids.index_of(checkpoint.checkpoint.id@) == j);
                }
                self.checkpoints.set(j, checkpoint);
                assert(persistent_ids(self.checkpoints@) =~= persistent_ids(s0));
                return;
            }
            j = j + 1;
        }
        proof {
            let ids = persistent_ids(s0);
            if ids.contains(checkpoint.checkpoint.id@) {
                let k = choose|k: int| 0 <= k < ids.len() && ids[k] == checkpoint.checkpoint.id@;
                assert(s0[k].checkpoint.id@ == checkpoint.checkpoint.id@);
            }
        }
        self.checkpoints.push(checkpoint);
        assert(persistent_ids(self.checkpoints@) =~= persistent_ids(s0).push(checkpoint.checkpoint.id@));
    }

    /// The latest checkpoint of a workflow's task: of those whose identifier
    /// begins with `"{workflow}-{task}"`, one with the highest superstep.
    pub fn load_persistent(&self, workflow_id: &WorkflowId, task_id: &TaskId) -> (r: Option<&PersistentCheckpoint>)
        ensures
            r is None <==> forall|i: int| 0 <= i < self.stored().len()
                ==> !has_prefix(#[trigger] self.stored()[i].checkpoint.id@, workflow_task_prefix(workflow_id@, task_id@)),
            r matches Some(c) ==> {
                &&& self.stored().contains(*c)
                &&& has_prefix(c.checkpoint.id@, workflow_task_prefix(workflow_id@, task_id@))
                &&& forall|i: int| 0 <= i < self.stored().len() && has_prefix(
                    #[trigger] self.stored()[i].checkpoint.id@,
                    workflow_task_prefix(workflow_id@, task_id@),
                ) ==> self.stored()[i].checkpoint.superstep <= c.checkpoint.superstep
            },
    {
        let prefix_text = workflow_task_prefix_text(workflow_id, task_id);
        let prefix = chars_of(prefix_text.as_str());
        let ghost p = workflow_task_prefix(workflow_id@, task_id@);
        let mut best: Option<usize> = None;
        let mut j: usize = 0;
        while j < self.checkpoints.len()
            invariant
                prefix@ == p,
                0 <= j <= self.checkpoints@.len(),
                best matches Some(b) ==> {
                    &&& b < j
                    &&& has_prefix(self.checkpoints@[b as int].checkpoint.id@, p)
                    &&& forall|i: int| 0 <= i < j && has_prefix(#[trigger] self.checkpoints@[i].checkpoint.id@, p)
                        ==> self.checkpoints@[i].checkpoint.superstep <= self.checkpoints@[b as int].checkpoint.superstep
                },
                best is None ==> forall|i: int| 0 <= i < j ==> !has_prefix(#[trigger] self.checkpoints@[i].checkpoint.id@, p),
            decreases self.checkpoints@.len() - j,
        {
            let id = chars_of(self.checkpoints[j].checkpoint.id.as_str());
            if starts_with(&id, &prefix) {
                match best {
                    Some(b) => {
                        if self.checkpoints[j].checkpoint.superstep >= self.checkpoints[b].checkpoint.superstep {
                            best = Some(j);
                        }
                    },
                    None => {
                        best = Some(j);
                    },
                }
            }
            j = j + 1;
        }
        match best {
            Some(b) => {
                assert(self.stored()[b as int] == self.checkpoints@[b as int]);
                Some(&self.checkpoints[b])
            },
            None => None,
        }
    }

    /// The stored checkpoint with the given identifier.
    pub fn load_persistent_by_id(&self, checkpoint_id: &str) -> (r: Option<&PersistentCheckpoint>)
        ensures
            r is None <==> !persistent_ids(self.stored()).contains(checkpoint_id@),
            r matches Some(c) ==> self.stored().contains(*c) && c.checkpoint.id@ == checkpoint_id@,
    {
        let target = to_owned(checkpoint_id);
        let mut j: usize = 0;
        while j < self.checkpoints.len()
            invariant
                target@ == checkpoint_id@,
                0 <= j <= self.checkpoints@.len(),
                forall|i: int| 0 <= i < j ==> self.checkpoints@[i].checkpoint.id@ != checkpoint_id@,
            decreases self.checkpoints@.len() - j,
        {
            if self.checkpoints[j].checkpoint.id == target {
                assert(persistent_ids(self.stored())[j as int] == checkpoint_id@);
                assert(self.stored()[j as int] == self.checkpoints@[j as int]);
                return Some(&self.checkpoints[j]);
            }
            j = j + 1;
        }
        proof {
            let ids = persistent_ids(self.stored());
            if ids.contains(checkpoint_id@) {
                let k = choose|k: int| 0 <= k < ids.len() && ids[k] == checkpoint_id@;
                assert(self.checkpoints@[k].checkpoint.id@ == checkpoint_id@);
            }
        }
        None
    }

    /// Metadata of the checkpoints of a workflow (and of one of its tasks,
    /// when given), highest superstep first; equal supersteps keep the
    /// order they are stored in.
    pub fn list_metadata(&self, workflow_id: &WorkflowId, task_id: Option<&TaskId>) -> (r: Vec<CheckpointMetadata>)
        requires
            countable(self.stored()),
        ensures
            ({
                let chosen = listed(self.stored(), workflow_id@, match task_id {
                    Some(t) => Some(t@),
                    None => None,
                });
                let order = ranked(chosen.map_values(|c: PersistentCheckpoint| c.checkpoint.superstep));
                &&& r@.len() == chosen.len()
                &&& forall|k: int| 0 <= k < r@.len() ==> describes(#[trigger] r@[k], chosen[order[k]])
            }),
    {
        let ghost task = match task_id {
            Some(t) => Some(t@),
            None => None,
        };
        let ghost chosen = listed(self.checkpoints@, workflow_id@, task);
        let mut picked: Vec<usize> = Vec::new();
        let mut keys: Vec<u32> = Vec::new();
        let mut j: usize = 0;
        while j < self.checkpoints.len()
            invariant
                0 <= j <= self.checkpoints@.len(),
                task == match task_id {
                    Some(t) => Some(t@),
                    None => None,
                },
                picked@.len() == listed(self.checkpoints@.take(j as int), workflow_id@, task).len(),
                keys@.len() == picked@.len(),
                forall|k: int| 0 <= k < picked@.len() ==> #[trigger] picked@[k] < j
                    && self.checkpoints@[picked@[k] as int] == listed(self.checkpoints@.take(j as int), workflow_id@, task)[k]
                    && keys@[k] == self.checkpoints@[picked@[k] as int].checkpoint.superstep,
            decreases self.checkpoints@.len() - j,
        {
            proof {
                assert(self.checkpoints@.take(j + 1).drop_last() =~= self.checkpoints@.take(j as int));
                assert(self.checkpoints@.take(j + 1).last() == self.checkpoints@[j as int]);
            }
            let c = &self.checkpoints[j];
            let same_workflow = c.checkpoint.workflow_id == *workflow_id;
            let same_task = match task_id {
                Some(t) => c.checkpoint.task_id == *t,
                None => true,
            };
            if same_workflow && same_task {
                picked.push(j);
                keys.push(c.checkpoint.superstep);
            }
            j = j + 1;
        }
        proof {
            assert(self.checkpoints@.take(self.checkpoints@.len() as int) =~= self.checkpoints@);
            assert(picked@.len() == chosen.len());
            assert forall|k: int| 0 <= k < picked@.len() implies self.checkpoints@[#[trigger] picked@[k] as int] == chosen[k] by {}
            assert forall|k: int| 0 <= k < keys@.len() implies #[trigger] keys@[k] == chosen[k].checkpoint.superstep by {
                assert(picked@[k] < self.checkpoints@.len());
                assert(self.checkpoints@[picked@[k] as int] == chosen[k]);
            }
            assert(keys@ =~= chosen.map_values(|c: PersistentCheckpoint| c.checkpoint.superstep));
        }
        let order = rank_by_key(&keys);
        proof {
            lemma_ranked_prefix_members(keys@, keys@.len());
        }
        let mut r: Vec<CheckpointMetadata> = Vec::new();
        let mut k: usize = 0;
        while k < order.len()
            invariant
                countable(self.checkpoints@),
                order@.len() == keys@.len(),
                keys@.len() == picked@.len(),
                picked@.len() == chosen.len(),
                as_ints(order@) == ranked(keys@),
                keys@ == chosen.map_values(|c: PersistentCheckpoint| c.checkpoint.superstep),
                forall|t: int| 0 <= t < order@.len() ==> #[trigger] order@[t] < keys@.len(),
                forall|t: int| 0 <= t < picked@.len() ==> #[trigger] picked@[t] < self.checkpoints@.len()
                    && self.checkpoints@[picked@[t] as int] == chosen[t],
                0 <= k <= order@.len(),
                r@.len() == k,
                forall|t: int| 0 <= t < k ==> describes(#[trigger] r@[t], chosen[ranked(keys@)[t]]),
            decreases order@.len() - k,
        {
            let at = picked[order[k]];
            proof {
                assert(as_ints(order@)[k as int] == order@[k as int] as int);
            }
            let m = CheckpointMetadata::of_checkpoint(&self.checkpoints[at]);
            r.push(m);
            k = k + 1;
        }
        r
    }

    /// Delete a workflow's task's checkpoints but the `keep_count` latest
    /// (by superstep, ties in stored order); returns how many were deleted.
    pub fn cleanup_keep_last(&mut self, workflow_id: &WorkflowId, task_id: &TaskId, keep_count: usize) -> (removed: usize)
        requires
            old(self).wf(),
        ensures
            final(self).wf(),
            final(self).stored() == kept_in_order(
                old(self).stored(),
                workflow_task_prefix(workflow_id@, task_id@),
                keep_count as nat,
                old(self).stored().len(),
            ),
            removed == old(self).stored().len() - final(self).stored().len(),
    {
        let prefix_text = workflow_task_prefix_text(workflow_id, task_id);
        let prefix = chars_of(prefix_text.as_str());
        let ghost p = workflow_task_prefix(workflow_id@, task_id@);
        let ghost s0 = self.checkpoints@;
        let n = self.checkpoints.len();
        let mut positions: Vec<usize> = Vec::new();
        let mut keys: Vec<u32> = Vec::new();
        let mut marks: Vec<bool> = Vec::new();
        let mut j: usize = 0;
        while j < n
            invariant
                n == self.checkpoints.len(),
                s0 == self.checkpoints@,
                prefix@ == p,
                0 <= j <= n,
                as_ints(positions@) == prefixed_positions(s0, p, j as nat),
                keys@ == supersteps_at(s0, prefixed_positions(s0, p, j as nat)),
                marks@.len() == j,
                forall|i: int| 0 <= i < j ==> #[trigger] marks@[i] == !has_prefix(s0[i].checkpoint.id@, p),
            decreases n - j,
        {
            let id = chars_of(self.checkpoints[j].checkpoint.id.as_str());
            let prefixed = starts_with(&id, &prefix);
            if prefixed {
                positions.push(j);
                keys.push(self.checkpoints[j].checkpoint.superstep);
                proof {
                    assert(as_ints(positions@) =~= prefixed_positions(s0, p, (j + 1) as nat));
                    assert(keys@ =~= supersteps_at(s0, prefixed_positions(s0, p, (j + 1) as nat)));
                }
            } else {
                proof {
                    assert(prefixed_positions(s0, p, (j + 1) as nat) == prefixed_positions(s0, p, j as nat));
                }
            }
            marks.push(!prefixed);
            j = j + 1;
        }
        let ghost positions_spec = prefixed_positions(s0, p, s0.len());
        proof {
            lemma_prefixed_positions(s0, p, s0.len());
        }
        let order = rank_by_key(&keys);
        proof {
            lemma_ranked_prefix_members(keys@, keys@.len());
            assert forall|q: int| 0 <= q < positions@.len() implies (#[trigger] positions@[q]) < s0.len() by {
                assert(as_ints(positions@)[q] == positions@[q] as int);
            }
        }
        let limit: usize = if keep_count < order.len() { keep_count } else { order.len() };
        let mut t: usize = 0;
        while t < limit
            invariant
                limit <= order@.len(),
                limit <= keep_count,
                order@.len() == keys@.len(),
                keys@.len() == positions@.len(),
                as_ints(order@) == ranked(keys@),
                keys@ == supersteps_at(s0, positions_spec),
                as_ints(positions@) == positions_spec,
                forall|q: int| 0 <= q < order@.len() ==> #[trigger] order@[q] < keys@.len(),
                forall|q: int| 0 <= q < positions@.len() ==> (#[trigger] positions@[q]) < s0.len(),
                marks@.len() == s0.len(),
                0 <= t <= limit,
                forall|i: int| 0 <= i < s0.len() ==> #[trigger] marks@[i] == (!has_prefix(s0[i].checkpoint.id@, p) || exists|k: int|
                    0 <= k < t && #[trigger] positions_spec[ranked(keys@)[k]] == i),
            decreases limit - t,
        {
            let at = positions[order[t]];
            let ghost m0 = marks@;
            marks.set(at, true);
            proof {
                assert(as_ints(order@)[t as int] == order@[t as int] as int);
                assert(as_ints(positions@)[order@[t as int] as int] == at as int);
                assert forall|i: int| 0 <= i < s0.len() implies #[trigger] marks@[i] == (!has_prefix(s0[i].checkpoint.id@, p)
                    || exists|k: int| 0 <= k < t + 1 && #[trigger] positions_spec[ranked(keys@)[k]] == i) by {
                    if i == at {
                        assert(positions_spec[ranked(keys@)[t as int]] == i);
                    } else {
                        assert(marks@[i] == m0[i]);
                        if exists|k: int| 0 <= k < t + 1 && #[trigger] positions_spec[ranked(keys@)[k]] == i {
                            let k = choose|k: int| 0 <= k < t + 1 && #[trigger] positions_spec[ranked(keys@)[k]] == i;
                            assert(k != t);
                        }
                    }
                }
            }
            t = t + 1;
        }
        proof {
            assert forall|i: int| 0 <= i < s0.len() implies #[trigger] marks@[i] == kept_by_recency(s0, p, keep_count as nat, i) by {
                if exists|k: int| 0 <= k < keep_count && k < positions_spec.len() && #[trigger] positions_spec[ranked(keys@)[k]] == i {
                    let k = choose|k: int| 0 <= k < keep_count && k < positions_spec.len() && #[trigger] positions_spec[ranked(keys@)[k]] == i;
                    assert(k < limit);
                }
            }
        }
        let mut rest: Vec<PersistentCheckpoint> = Vec::new();
        std::mem::swap(&mut rest, &mut self.checkpoints);
        let mut kept: Vec<PersistentCheckpoint> = Vec::new();
        let mut removed: usize = 0;
        let mut q: usize = 0;
        while rest.len() > 0
            invariant
                0 <= q <= s0.len(),
                s0.len() == n,
                marks@.len() == s0.len(),
                forall|i: int| 0 <= i < s0.len() ==> #[trigger] marks@[i] == kept_by_recency(s0, p, keep_count as nat, i),
                rest@ == s0.skip(q as int),
                kept@ == kept_in_order(s0, p, keep_count as nat, q as nat),
                removed + kept@.len() == q,
                persistent_ids(s0).no_duplicates(),
                persistent_ids(kept@).no_duplicates(),
                forall|a: int| 0 <= a < kept@.len() ==> id_among(#[trigger] kept@[a].checkpoint.id@, s0, q as int),
            decreases rest@.len(),
        {
            let c = rest.remove(0);
            proof {
                assert(s0.skip(q as int)[0] == c);
            }
            if marks[q] {
                let ghost k0 = kept@;
                kept.push(c);
                proof {
                    lemma_push_new_id(k0, s0, q as int, c);
                }
            } else {
                removed = removed + 1;
            }
            q = q + 1;
            assert(rest@ =~= s0.skip(q as int));
        }
        self.checkpoints = kept;
        removed
    }

    /// Delete every checkpoint of a workflow's task, keeping the rest in
    /// order; returns how many were deleted.
    pub fn delete_all(&mut self, workflow_id: &WorkflowId, task_id: &TaskId) -> (removed: usize)
        requires
            old(self).wf(),
        ensures
            final(self).wf(),
            final(self).stored() == without_prefix(old(self).stored(), workflow_task_prefix(workflow_id@, task_id@)),
            removed == old(self).stored().len() - final(self).stored().len(),
    {
        let prefix_text = workflow_task_prefix_text(workflow_id, task_id);
        let prefix = chars_of(prefix_text.as_str());
        let ghost p = workflow_task_prefix(workflow_id@, task_id@);
        let ghost s0 = self.checkpoints@;
        assert(s0.len() == self.checkpoints.len());
        let mut rest: Vec<PersistentCheckpoint> = Vec::new();
        std::mem::swap(&mut rest, &mut self.checkpoints);
        let mut kept: Vec<PersistentCheckpoint> = Vec::new();
        let mut removed: usize = 0;
        let ghost mut j: int = 0;
        while rest.len() > 0
            invariant
                prefix@ == p,
                0 <= j <= s0.len(),
                s0.len() <= usize::MAX,
                rest@ == s0.skip(j),
                kept@ == without_prefix(s0.take(j), p),
                removed + kept@.len() == j,
                persistent_ids(s0).no_duplicates(),
                persistent_ids(kept@).no_duplicates(),
                forall|a: int| 0 <= a < kept@.len() ==> id_among(#[trigger] kept@[a].checkpoint.id@, s0, j),
            decreases rest@.len(),
        {
            let c = rest.remove(0);
            proof {
                assert(s0.take(j + 1).drop_last() =~= s0.take(j));
                assert(s0.take(j + 1).last() == c);
                assert(s0[j] == c);
            }
            let id = chars_of(c.checkpoint.id.as_str());
            if starts_with(&id, &prefix) {
                removed = removed + 1;
            } else {
                let ghost k0 = kept@;
                kept.push(c);
                proof {
                    lemma_push_new_id(k0, s0, j, c);
                }
            }
            proof {
                j = j + 1;
                assert(rest@ =~= s0.skip(j));
            }
        }
        proof {
            assert(s0.take(j) =~= s0);
        }
        self.checkpoints = kept;
        removed
    }
}

proof fn lemma_push_new_id(kept: Seq<PersistentCheckpoint>, s0: Seq<PersistentCheckpoint>, q: int, c: PersistentCheckpoint)
    requires
        0 <= q < s0.len(),
        s0[q] == c,
        persistent_ids(s0).no_duplicates(),
        persistent_ids(kept).no_duplicates(),
        forall|a: int| 0 <= a < kept.len() ==> id_among(#[trigger] kept[a].checkpoint.id@, s0, q),
    ensures
        persistent_ids(kept.push(c)).no_duplicates(),
        forall|a: int| 0 <= a < kept.push(c).len() ==> id_among(#[trigger] kept.push(c)[a].checkpoint.id@, s0, q + 1),
{
    let k1 = kept.push(c);
    assert(persistent_ids(k1) =~= persistent_ids(kept).push(c.checkpoint.id@));
    assert forall|a: int, b: int| 0 <= a < b < k1.len() implies persistent_ids(k1)[a] != persistent_ids(k1)[b] by {
        if b == kept.len() {
            assert(k1[a] == kept[a]);
            assert(id_among(kept[a].checkpoint.id@, s0, q));
            let x = choose|x: int| 0 <= x < q && s0[x].checkpoint.id@ == kept[a].checkpoint.id@;
            assert(persistent_ids(s0)[x] != persistent_ids(s0)[q]);
        } else {
            assert(persistent_ids(k1)[a] == persistent_ids(kept)[a]);
            assert(persistent_ids(k1)[b] == persistent_ids(kept)[b]);
        }
    }
    assert forall|a: int| 0 <= a < k1.len() implies id_among(#[trigger] k1[a].checkpoint.id@, s0, q + 1) by {
        if a < kept.len() {
            assert(k1[a] == kept[a]);
            assert(id_among(kept[a].checkpoint.id@, s0, q));
            let x = choose|x: int| 0 <= x < q && s0[x].checkpoint.id@ == kept[a].checkpoint.id@;
            assert(s0[x].checkpoint.id@ == k1[a].checkpoint.id@);
        } else {
            assert(s0[q].checkpoint.id@ == k1[a].checkpoint.id@);
        }
    }
}

} // verus!
