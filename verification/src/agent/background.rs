//! Background tasks: long-running work that an agent starts and clients
//! poll, tracked through a status that moves from pending to a terminal
//! state, with continuation tokens to resume or check on it.
use vstd::prelude::*;
use crate::clock::{earlier, is_earlier, moved_later, now, now_minus, now_plus, Timestamp};
use crate::graph::types::{is_uuid_text, random_uuid_text};
use crate::keyed::{assoc_put, keys_unique, put_entry, text_keyed};
use crate::text::{append, has_prefix, lemma_prefix_of_concat, to_owned, TextLike};

verus! {

// ============================================================================
// TASK ID
// ============================================================================

/// Unique identifier for a background task.
#[derive(Debug, Eq, Hash)]
pub struct BackgroundTaskId(String);

impl View for BackgroundTaskId {
    type V = Seq<char>;

    closed spec fn view(&self) -> Seq<char> {
        self.0@
    }
}

impl BackgroundTaskId {
    /// An identifier holding the given text.
    pub fn new(id: impl TextLike) -> (r: Self)
        ensures
            r@ == id.text(),
    {
        BackgroundTaskId(id.into_string())
    }

    /// A fresh identifier: `task-` followed by a random UUID.
    pub fn generate() -> (r: Self)
        ensures
            has_prefix(r@, "task-"@),
            is_uuid_text(r@.skip(5)),
    {
        let mut s = String::new();
        append(&mut s, "task-");
        let u = random_uuid_text();
        append(&mut s, u.as_str());
        proof {
            lemma_prefix_of_concat("task-"@, u@);
            reveal_strlit("task-");
            assert(s@.skip(5) =~= u@);
        }
        BackgroundTaskId(s)
    }

    /// The identifier's text.
    pub fn as_str(&self) -> (r: &str)
        ensures
            r@ == self@,
    {
        self.0.as_str()
    }

    /// The identifier's text, as an owned string.
    pub fn to_string(&self) -> (r: String)
        ensures
            r@ == self@,
    {
        self.0.clone()
    }
}

impl Clone for BackgroundTaskId {
    fn clone(&self) -> (r: Self)
        ensures
            r == *self,
    {
        BackgroundTaskId(self.0.clone())
    }
}

impl PartialEq for BackgroundTaskId {
    fn eq(&self, other: &Self) -> (r: bool) {
        self.0 == other.0
    }
}

impl vstd::std_specs::cmp::PartialEqSpecImpl for BackgroundTaskId {
    open spec fn obeys_eq_spec() -> bool {
        true
    }

    open spec fn eq_spec(&self, other: &Self) -> bool {
        self@ == other@
    }
}

impl<'a> From<&'a str> for BackgroundTaskId {
    fn from(s: &'a str) -> (r: Self)
        ensures
            r@ == s@,
    {
        BackgroundTaskId::new(s)
    }
}

impl<'a> vstd::std_specs::convert::FromSpecImpl<&'a str> for BackgroundTaskId {
    open spec fn obeys_from_spec() -> bool {
        false
    }

    open spec fn from_spec(s: &'a str) -> Self {
        arbitrary()
    }
}

// ============================================================================
// CONTINUATION TOKEN
// ============================================================================

/// A token that can be used to resume or check on a background task.
#[derive(Debug, Clone)]
pub struct ContinuationToken {
    /// Task identifier.
    pub task_id: BackgroundTaskId,
    /// Serialized checkpoint state.
    pub checkpoint: Vec<u8>,
    /// When the token was created.
    pub created_at: Timestamp,
    /// When the token expires (if applicable).
    pub expires_at: Option<Timestamp>,
    /// Metadata, one entry per key.
    pub metadata: Vec<(String, serde_json::Value)>,
}

/// Whether a token with the given expiry has expired at `now`: it has an
/// expiry and `now` is past it.
pub open spec fn expired_at(expires_at: Option<Timestamp>, now: Timestamp) -> bool {
    match expires_at {
        Some(exp) => earlier(exp, now),
        None => false,
    }
}

impl ContinuationToken {
    /// The metadata, by key.
    pub open spec fn meta(&self) -> Seq<(Seq<char>, serde_json::Value)> {
        text_keyed(self.metadata@)
    }

    /// A token for the task, created now, with no checkpoint, no expiry and
    /// no metadata.
    pub fn new(task_id: BackgroundTaskId) -> (r: Self)
        ensures
            r.task_id == task_id,
            r.checkpoint@.len() == 0,
            r.expires_at is None,
            r.meta().len() == 0,
    {
        let r = ContinuationToken {
            task_id,
            checkpoint: Vec::new(),
            created_at: now(),
            expires_at: None,
            metadata: Vec::new(),
        };
        assert(r.meta() =~= Seq::<(Seq<char>, serde_json::Value)>::empty());
        r
    }

    /// The same token with checkpoint data.
    pub fn with_checkpoint(self, data: Vec<u8>) -> (r: Self)
        ensures
            r.checkpoint@ == data@,
            r.task_id == self.task_id,
            r.created_at == self.created_at,
            r.expires_at == self.expires_at,
            r.metadata == self.metadata,
    {
        ContinuationToken { checkpoint: data, ..self }
    }

    /// The same token, expiring at the given time.
    pub fn with_expiry(self, expires_at: Timestamp) -> (r: Self)
        ensures
            r.expires_at == Some(expires_at),
            r.task_id == self.task_id,
            r.checkpoint == self.checkpoint,
            r.created_at == self.created_at,
            r.metadata == self.metadata,
    {
        ContinuationToken { expires_at: Some(expires_at), ..self }
    }

    /// The same token, expiring once `duration` has passed from now. A
    /// duration that takes the expiry past what a timestamp holds leaves the
    /// token without an expiry.
    pub fn expires_in(self, duration: std::time::Duration) -> (r: Self)
        ensures
            exists|t: Timestamp| r.expires_at == #[trigger] moved_later(t, duration),
            r.task_id == self.task_id,
            r.checkpoint == self.checkpoint,
            r.created_at == self.created_at,
            r.metadata == self.metadata,
    {
        ContinuationToken { expires_at: now_plus(&duration), ..self }
    }

    /// The same token with a metadata value set.
    pub fn with_metadata(self, key: impl TextLike, value: serde_json::Value) -> (r: Self)
        requires
            keys_unique(self.meta()),
        ensures
            keys_unique(r.meta()),
            r.meta() == assoc_put(self.meta(), key.text(), value),
            r.task_id == self.task_id,
            r.checkpoint == self.checkpoint,
            r.created_at == self.created_at,
            r.expires_at == self.expires_at,
    {
        let mut t = self;
        put_entry(&mut t.metadata, key.into_string(), value);
        t
    }

    /// Whether the token has expired at the given time.
    pub fn is_expired_at(&self, now: Timestamp) -> (r: bool)
        ensures
            r == expired_at(self.expires_at, now),
    {
        match self.expires_at {
            Some(exp) => is_earlier(exp, now),
            None => false,
        }
    }

    /// Whether the token has expired now.
    pub fn is_expired(&self) -> (r: bool)
        ensures
            self.expires_at is None ==> !r,
            r ==> exists|t: Timestamp| expired_at(self.expires_at, t),
    {
        self.is_expired_at(now())
    }
}

// ============================================================================
// TASK STATUS
// ============================================================================

/// Status of a background task.
#[derive(Debug, Clone)]
pub enum TaskStatus {
    /// Task is waiting to start.
    Pending,
    /// Task is currently running.
    InProgress {
        /// Progress percentage (0-100).
        progress: Option<u8>,
        /// Status message.
        message: Option<String>,
        /// When the task started.
        started_at: Timestamp,
    },
    /// Task completed successfully.
    Complete {
        /// The result data.
        result: serde_json::Value,
        /// When the task completed.
        completed_at: Timestamp,
    },
    /// Task failed.
    Failed {
        /// Error message.
        error: String,
        /// When the task failed.
        failed_at: Timestamp,
        /// Whether the task can be retried.
        retriable: bool,
    },
    /// Task was cancelled.
    Cancelled {
        /// Why it was cancelled.
        reason: Option<String>,
        /// When it was cancelled.
        cancelled_at: Timestamp,
    },
}

/// A status is terminal once the task completed, failed or was cancelled.
pub open spec fn terminal(s: TaskStatus) -> bool {
    s is Complete || s is Failed || s is Cancelled
}

impl TaskStatus {
    /// Whether the task is over (successfully or not).
    pub fn is_terminal(&self) -> (r: bool)
        ensures
            r == terminal(*self),
    {
        match self {
            TaskStatus::Complete { .. } | TaskStatus::Failed { .. } | TaskStatus::Cancelled { .. } => true,
            _ => false,
        }
    }

    /// Whether the task is still pending or running.
    pub fn is_running(&self) -> (r: bool)
        ensures
            r == (*self is Pending || *self is InProgress),
    {
        match self {
            TaskStatus::Pending | TaskStatus::InProgress { .. } => true,
            _ => false,
        }
    }

    /// Whether the task succeeded.
    pub fn is_success(&self) -> (r: bool)
        ensures
            r == (*self is Complete),
    {
        match self {
            TaskStatus::Complete { .. } => true,
            _ => false,
        }
    }
}

/// A task is running exactly when its status is not terminal.
pub proof fn lemma_running_iff_not_terminal(s: TaskStatus)
    ensures
        (s is Pending || s is InProgress) == !terminal(s),
{
}

// ============================================================================
// BACKGROUND TASK
// ============================================================================

/// A background task that can be tracked and resumed.
#[derive(Debug, Clone)]
pub struct BackgroundTask {
    /// Unique task identifier.
    pub id: BackgroundTaskId,
    /// Human-readable description.
    pub description: String,
    /// Current status.
    pub status: TaskStatus,
    /// When the task was created.
    pub created_at: Timestamp,
    /// When the task was last updated.
    pub updated_at: Timestamp,
    /// Agent that owns the task.
    pub agent_id: Option<String>,
    /// User that requested the task.
    pub user_id: Option<String>,
    /// Continuation token for resuming.
    pub continuation_token: Option<ContinuationToken>,
    /// Metadata, one entry per key.
    pub metadata: Vec<(String, serde_json::Value)>,
}

impl BackgroundTask {
    /// The metadata, by key.
    pub open spec fn meta(&self) -> Seq<(Seq<char>, serde_json::Value)> {
        text_keyed(self.metadata@)
    }

    /// A new pending task with a fresh identifier, created and updated now.
    pub fn new(description: impl TextLike) -> (r: Self)
        ensures
            has_prefix(r.id@, "task-"@),
            r.description@ == description.text(),
            r.status is Pending,
            r.created_at == r.updated_at,
            r.agent_id is None,
            r.user_id is None,
            r.continuation_token is None,
            r.meta().len() == 0,
    {
        let t = now();
        let r = BackgroundTask {
            id: BackgroundTaskId::generate(),
            description: description.into_string(),
            status: TaskStatus::Pending,
            created_at: t,
            updated_at: t,
            agent_id: None,
            user_id: None,
            continuation_token: None,
            metadata: Vec::new(),
        };
        assert(r.meta() =~= Seq::<(Seq<char>, serde_json::Value)>::empty());
        r
    }

    /// The same task with another identifier.
    pub fn with_id(self, id: BackgroundTaskId) -> (r: Self)
        ensures
            r == (BackgroundTask { id, ..self }),
    {
        BackgroundTask { id, ..self }
    }

    /// The same task, owned by the given agent.
    pub fn for_agent(self, agent_id: impl TextLike) -> (r: Self)
        ensures
            r.agent_id matches Some(a) && a@ == agent_id.text(),
            r.id == self.id,
            r.status == self.status,
            r.user_id == self.user_id,
            r.metadata == self.metadata,
    {
        BackgroundTask { agent_id: Some(agent_id.into_string()), ..self }
    }

    /// The same task, requested by the given user.
    pub fn for_user(self, user_id: impl TextLike) -> (r: Self)
        ensures
            r.user_id matches Some(u) && u@ == user_id.text(),
            r.id == self.id,
            r.status == self.status,
            r.agent_id == self.agent_id,
            r.metadata == self.metadata,
    {
        BackgroundTask { user_id: Some(user_id.into_string()), ..self }
    }

    /// The same task with a metadata value set.
    pub fn with_metadata(self, key: impl TextLike, value: serde_json::Value) -> (r: Self)
        requires
            keys_unique(self.meta()),
        ensures
            keys_unique(r.meta()),
            r.meta() == assoc_put(self.meta(), key.text(), value),
            r.id == self.id,
            r.status == self.status,
    {
        let mut t = self;
        put_entry(&mut t.metadata, key.into_string(), value);
        t
    }

    /// Mark as in progress, at zero percent, started now.
    pub fn start(&mut self)
        ensures
            final(self).status matches TaskStatus::InProgress { progress, message, .. } && progress == Some(0u8)
                && message is None,
            final(self).id == old(self).id,
            final(self).description == old(self).description,
            final(self).metadata == old(self).metadata,
    {
        let t = now();
        self.status = TaskStatus::InProgress { progress: Some(0), message: None, started_at: t };
        self.updated_at = now();
    }

    /// Record progress, capped at 100, with a message. Only a task in
    /// progress changes; it keeps its start time.
    pub fn update_progress(&mut self, progress: u8, message: Option<String>)
        ensures
            match old(self).status {
                TaskStatus::InProgress { started_at, .. } => final(self).status == (TaskStatus::InProgress {
                    progress: Some(if progress < 100 { progress } else { 100u8 }),
                    message,
                    started_at,
                }),
                _ => *final(self) == *old(self),
            },
            final(self).id == old(self).id,
            final(self).description == old(self).description,
            final(self).metadata == old(self).metadata,
    {
        let started: Option<Timestamp> = match &self.status {
            TaskStatus::InProgress { started_at, .. } => Some(*started_at),
            _ => None,
        };
        match started {
            Some(started_at) => {
                let capped: u8 = if progress < 100 { progress } else { 100 };
                self.status = TaskStatus::InProgress { progress: Some(capped), message, started_at };
                self.updated_at = now();
            },
            None => {},
        }
    }

    /// Mark as complete with a result.
    pub fn complete(&mut self, result: serde_json::Value)
        ensures
            final(self).status matches TaskStatus::Complete { result: r, .. } && r == result,
            final(self).id == old(self).id,
            final(self).description == old(self).description,
            final(self).metadata == old(self).metadata,
    {
        let t = now();
        self.status = TaskStatus::Complete { result, completed_at: t };
        self.updated_at = now();
    }

    /// Mark as failed.
    pub fn fail(&mut self, error: impl TextLike, retriable: bool)
        ensures
            final(self).status matches TaskStatus::Failed { error: e, retriable: r, .. } && e@ == error.text()
                && r == retriable,
            final(self).id == old(self).id,
            final(self).description == old(self).description,
            final(self).metadata == old(self).metadata,
    {
        let t = now();
        self.status = TaskStatus::Failed { error: error.into_string(), failed_at: t, retriable };
        self.updated_at = now();
    }

    /// Mark as cancelled.
    pub fn cancel(&mut self, reason: Option<String>)
        ensures
            final(self).status matches TaskStatus::Cancelled { reason: r, .. } && r == reason,
            final(self).id == old(self).id,
            final(self).description == old(self).description,
            final(self).metadata == old(self).metadata,
    {
        let t = now();
        self.status = TaskStatus::Cancelled { reason, cancelled_at: t };
        self.updated_at = now();
    }

    /// A continuation token for the task.
    pub fn to_token(&self) -> (r: ContinuationToken)
        ensures
            r.task_id == self.id,
            r.checkpoint@.len() == 0,
            r.expires_at is None,
            r.meta().len() == 0,
    {
        ContinuationToken::new(self.id.clone())
    }

    /// A continuation token for the task carrying checkpoint data.
    pub fn to_token_with_checkpoint(&self, checkpoint: Vec<u8>) -> (r: ContinuationToken)
        ensures
            r.task_id == self.id,
            r.checkpoint@ == checkpoint@,
            r.expires_at is None,
            r.meta().len() == 0,
    {
        ContinuationToken::new(self.id.clone()).with_checkpoint(checkpoint)
    }
}

// ============================================================================
// BACKGROUND RESPONSE
// ============================================================================

/// Response that either completed at once or continues in the background.
#[derive(Debug, Clone)]
pub enum BackgroundResponse<T> {
    /// Task completed immediately.
    Complete(T),
    /// Task is in progress, use the token to check status.
    InProgress {
        /// Task ID for status checks.
        task_id: BackgroundTaskId,
        /// Token for resuming or polling.
        continuation_token: ContinuationToken,
        /// Estimated completion time.
        estimated_completion: Option<Timestamp>,
        /// Current progress.
        progress: Option<u8>,
    },
}

impl<T> BackgroundResponse<T> {
    /// A response that completed with a result.
    pub fn complete(result: T) -> (r: Self)
        ensures
            r == BackgroundResponse::Complete(result),
    {
        BackgroundResponse::Complete(result)
    }

    /// A response for a task still under way, carrying its progress when it
    /// is in progress.
    pub fn in_progress(task: &BackgroundTask) -> (r: Self)
        ensures
            r matches BackgroundResponse::InProgress { task_id, continuation_token, estimated_completion, progress }
                && task_id == task.id && continuation_token.task_id == task.id && estimated_completion is None
                && progress == match task.status {
                TaskStatus::InProgress { progress, .. } => progress,
                _ => None,
            },
    {
        let progress = match &task.status {
            TaskStatus::InProgress { progress, .. } => *progress,
            _ => None,
        };
        BackgroundResponse::InProgress {
            task_id: task.id.clone(),
            continuation_token: task.to_token(),
            estimated_completion: None,
            progress,
        }
    }

    /// Whether the response completed.
    pub fn is_complete(&self) -> (r: bool)
        ensures
            r == (*self is Complete),
    {
        match self {
            BackgroundResponse::Complete(_) => true,
            _ => false,
        }
    }

    /// The result, if complete.
    pub fn result(self) -> (r: Option<T>)
        ensures
            match self {
                BackgroundResponse::Complete(v) => r == Some(v),
                _ => r is None,
            },
    {
        match self {
            BackgroundResponse::Complete(v) => Some(v),
            _ => None,
        }
    }

    /// The continuation token, if in progress.
    pub fn token(&self) -> (r: Option<&ContinuationToken>)
        ensures
            match *self {
                BackgroundResponse::InProgress { continuation_token, .. } => r == Some(&continuation_token),
                _ => r is None,
            },
    {
        match self {
            BackgroundResponse::InProgress { continuation_token, .. } => Some(continuation_token),
            _ => None,
        }
    }
}

// ============================================================================
// ERRORS
// ============================================================================

/// Errors that can occur with continuation tokens.
#[derive(Debug)]
pub enum ContinuationError {
    /// Token is invalid or corrupted.
    InvalidToken(String),
    /// Token has expired.
    Expired,
    /// Task not found.
    TaskNotFound(String),
    /// Task already complete.
    AlreadyComplete,
}

/// The text a continuation error is displayed as.
pub open spec fn continuation_error_text(e: ContinuationError) -> Seq<char> {
    match e {
        ContinuationError::InvalidToken(m) => "Invalid continuation token: "@ + m@,
        ContinuationError::Expired => "Continuation token has expired"@,
        ContinuationError::TaskNotFound(m) => "Task not found: "@ + m@,
        ContinuationError::AlreadyComplete => "Task already complete"@,
    }
}

impl ContinuationError {
    /// The text this error is displayed as.
    pub fn to_string(&self) -> (r: String)
        ensures
            r@ == continuation_error_text(*self),
    {
        let mut s = String::new();
        match self {
            ContinuationError::InvalidToken(m) => {
                append(&mut s, "Invalid continuation token: ");
                append(&mut s, m.as_str());
            },
            ContinuationError::Expired => {
                append(&mut s, "Continuation token has expired");
            },
            ContinuationError::TaskNotFound(m) => {
                append(&mut s, "Task not found: ");
                append(&mut s, m.as_str());
            },
            ContinuationError::AlreadyComplete => {
                append(&mut s, "Task already complete");
            },
        }
        assert(s@ =~= continuation_error_text(*self));
        s
    }
}

// ============================================================================
// TASK STORE
// ============================================================================

/// The identifiers of `s`, in order.
pub open spec fn task_ids(s: Seq<BackgroundTask>) -> Seq<Seq<char>> {
    s.map_values(|t: BackgroundTask| t.id@)
}

/// The tasks of `s` that a cleanup at `cutoff` keeps: those not yet over,
/// and those last updated at or after the cutoff.
pub open spec fn kept_tasks(s: Seq<BackgroundTask>, cutoff: Timestamp) -> Seq<BackgroundTask>
    decreases s.len(),
{
    if s.len() == 0 {
        s
    } else {
        let rest = kept_tasks(s.drop_last(), cutoff);
        if terminal(s.last().status) && earlier(s.last().updated_at, cutoff) {
            rest
        } else {
            rest.push(s.last())
        }
    }
}

/// The tasks of `s` that are (or are not) running, in order.
pub open spec fn tasks_running(s: Seq<BackgroundTask>, running: bool) -> Seq<BackgroundTask>
    decreases s.len(),
{
    if s.len() == 0 {
        s
    } else {
        let rest = tasks_running(s.drop_last(), running);
        if (s.last().status is Pending || s.last().status is InProgress) == running {
            rest.push(s.last())
        } else {
            rest
        }
    }
}

proof fn lemma_kept_tasks_len(s: Seq<BackgroundTask>, cutoff: Timestamp)
    ensures
        kept_tasks(s, cutoff).len() <= s.len(),
    decreases s.len(),
{
    if s.len() > 0 {
        lemma_kept_tasks_len(s.drop_last(), cutoff);
    }
}

proof fn lemma_kept_tasks_unique(s: Seq<BackgroundTask>, cutoff: Timestamp)
    requires
        task_ids(s).no_duplicates(),
    ensures
        task_ids(kept_tasks(s, cutoff)).no_duplicates(),
        forall|t: BackgroundTask| kept_tasks(s, cutoff).contains(t) ==> s.contains(t),
    decreases s.len(),
{
    if s.len() > 0 {
        let init = s.drop_last();
        assert(task_ids(init) =~= task_ids(s).drop_last());
        lemma_kept_tasks_unique(init, cutoff);
        let rest = kept_tasks(init, cutoff);
        assert forall|t: BackgroundTask| rest.contains(t) implies s.contains(t) by {
            assert(init.contains(t));
            let k = choose|k: int| 0 <= k < init.len() && init[k] == t;
            assert(s[k] == t);
        }
        if !(terminal(s.last().status) && earlier(s.last().updated_at, cutoff)) {
            let ids = task_ids(rest.push(s.last()));
            assert(ids =~= task_ids(rest).push(s.last().id@));
            assert forall|a: int, b: int| 0 <= a < b < ids.len() implies ids[a] != ids[b] by {
                if b == ids.len() - 1 {
                    let t = rest[a];
                    assert(rest.contains(t));
                    assert(init.contains(t));
                    let k = choose|k: int| 0 <= k < init.len() && init[k] == t;
                    assert(s[k] == t);
                    assert(ids[a] == t.id@);
                    if ids[a] == ids[b] {
                        assert(task_ids(s)[k] == task_ids(s)[s.len() - 1]);
                    }
                }
            }
            assert forall|t: BackgroundTask| rest.push(s.last()).contains(t) implies s.contains(t) by {
                if t != s.last() {
                    let k = choose|k: int| 0 <= k < rest.push(s.last()).len() && rest.push(s.last())[k] == t;
                    assert(rest[k] == t);
                    assert(rest.contains(t));
                } else {
                    assert(s[s.len() - 1] == t);
                }
            }
        }
    }
}

/// Background tasks held in memory, one per identifier.
pub struct InMemoryTaskStore {
    tasks: Vec<BackgroundTask>,
}

impl InMemoryTaskStore {
    /// The stored tasks.
    pub closed spec fn stored(&self) -> Seq<BackgroundTask> {
        self.tasks@
    }

    /// No two stored tasks share an identifier.
    pub closed spec fn wf(&self) -> bool {
        task_ids(self.tasks@).no_duplicates()
    }

    /// An empty store.
    pub fn new() -> (r: Self)
        ensures
            r.wf(),
            r.stored().len() == 0,
    {
        InMemoryTaskStore { tasks: Vec::new() }
    }

    /// Store a task, replacing the one with the same identifier where it
    /// stood.
    pub fn store(&mut self, task: BackgroundTask)
        requires
            old(self).wf(),
        ensures
            final(self).wf(),
            task_ids(old(self).stored()).contains(task.id@) ==> final(self).stored()
                == old(self).stored().update(task_ids(old(self).stored()).index_of(task.id@), task),
            !task_ids(old(self).stored()).contains(task.id@) ==> final(self).stored() == old(self).stored().push(task),
    {
        let ghost s0 = self.tasks@;
        let n = self.tasks.len();
        let mut j: usize = 0;
        while j < n
            invariant
                n == self.tasks.len(),
                s0 == self.tasks@,
                s0 == old(self).tasks@,
                task_ids(s0).no_duplicates(),
                0 <= j <= n,
                forall|i: int| 0 <= i < j ==> s0[i].id@ != task.id@,
            decreases n - j,
        {
            if self.tasks[j].id == task.id {
                proof {
                    let ids = task_ids(s0);
                    assert(ids[j as int] == task.id@);
                    assert(ids.contains(task.id@));
                    let k = ids.index_of(task.id@);
                    assert(k == j);
                }
                self.tasks.set(j, task);
                proof {
                    assert(task_ids(self.tasks@) =~= task_ids(s0));
                }
                return;
            }
            j = j + 1;
        }
        proof {
            let ids = task_ids(s0);
            assert(!ids.contains(task.id@)) by {
                if ids.contains(task.id@) {
                    let k = ids.index_of(task.id@);
                    assert(s0[k].id@ == task.id@);
                }
            }
        }
        self.tasks.push(task);
        proof {
            assert(task_ids(self.tasks@) =~= task_ids(s0).push(task.id@));
        }
    }

    /// Update a task: the same as storing it.
    pub fn update(&mut self, task: BackgroundTask)
        requires
            old(self).wf(),
        ensures
            final(self).wf(),
            task_ids(old(self).stored()).contains(task.id@) ==> final(self).stored()
                == old(self).stored().update(task_ids(old(self).stored()).index_of(task.id@), task),
            !task_ids(old(self).stored()).contains(task.id@) ==> final(self).stored() == old(self).stored().push(task),
    {
        self.store(task)
    }

    fn position(&self, task_id: &BackgroundTaskId) -> (r: Option<usize>)
        ensures
            r is None <==> !task_ids(self.stored()).contains(task_id@),
            r matches Some(i) ==> i < self.stored().len() && self.stored()[i as int].id@ == task_id@,
    {
        let mut j: usize = 0;
        while j < self.tasks.len()
            invariant
                0 <= j <= self.tasks@.len(),
                forall|i: int| 0 <= i < j ==> self.tasks@[i].id@ != task_id@,
            decreases self.tasks@.len() - j,
        {
            if self.tasks[j].id == *task_id {
                proof {
                    assert(task_ids(self.stored())[j as int] == task_id@);
                }
                return Some(j);
            }
            j = j + 1;
        }
        proof {
            let ids = task_ids(self.stored());
            if ids.contains(task_id@) {
                let k = ids.index_of(task_id@);
                assert(self.tasks@[k].id@ == task_id@);
            }
        }
        None
    }

    /// The task with the given identifier.
    pub fn get(&self, task_id: &BackgroundTaskId) -> (r: Option<&BackgroundTask>)
        ensures
            r is None <==> !task_ids(self.stored()).contains(task_id@),
            r matches Some(t) ==> self.stored().contains(*t) && t.id@ == task_id@,
    {
        match self.position(task_id) {
            Some(i) => {
                assert(self.stored()[i as int] == self.tasks@[i as int]);
                Some(&self.tasks[i])
            },
            None => None,
        }
    }

    /// The status of the task with the given identifier.
    pub fn get_status(&self, task_id: &BackgroundTaskId) -> (r: Option<&TaskStatus>)
        ensures
            r is None <==> !task_ids(self.stored()).contains(task_id@),
            r matches Some(st) ==> exists|i: int| 0 <= i < self.stored().len() && self.stored()[i].id@ == task_id@
                && self.stored()[i].status == *st,
    {
        match self.position(task_id) {
            Some(i) => Some(&self.tasks[i].status),
            None => None,
        }
    }

    /// Delete the task with the given identifier, keeping the others in
    /// order.
    pub fn delete(&mut self, task_id: &BackgroundTaskId)
        requires
            old(self).wf(),
        ensures
            final(self).wf(),
            !task_ids(final(self).stored()).contains(task_id@),
            task_ids(old(self).stored()).contains(task_id@) ==> final(self).stored() == old(self).stored().remove(
                task_ids(old(self).stored()).index_of(task_id@),
            ),
            !task_ids(old(self).stored()).contains(task_id@) ==> final(self).stored() == old(self).stored(),
    {
        match self.position(task_id) {
            Some(i) => {
                let ghost s0 = self.tasks@;
                proof {
                    let ids = task_ids(s0);
                    assert(ids[i as int] == task_id@);
                    assert(ids.contains(task_id@));
                    let k = ids.index_of(task_id@);
                    assert(k == i);
                }
                self.tasks.remove(i);
                proof {
                    let ids0 = task_ids(s0);
                    let ids = task_ids(self.tasks@);
                    assert(ids =~= ids0.remove(i as int));
                    assert forall|a: int, b: int| 0 <= a < b < ids.len() implies ids[a] != ids[b] by {
                        let a0 = if a < i { a } else { a + 1 };
                        let b0 = if b < i { b } else { b + 1 };
                        assert(ids[a] == ids0[a0]);
                        assert(ids[b] == ids0[b0]);
                    }
                    if ids.contains(task_id@) {
                        let k = ids.index_of(task_id@);
                        let k0 = if k < i { k } else { k + 1 };
                        assert(ids0[k0] == task_id@);
                    }
                }
            },
            None => {},
        }
    }

    /// All stored tasks, in order.
    pub fn list_all(&self) -> (r: Vec<&BackgroundTask>)
        ensures
            r@.len() == self.stored().len(),
            forall|i: int| 0 <= i < r@.len() ==> *r@[i] == self.stored()[i],
    {
        let mut r: Vec<&BackgroundTask> = Vec::new();
        let mut j: usize = 0;
        while j < self.tasks.len()
            invariant
                0 <= j <= self.tasks@.len(),
                r@.len() == j,
                forall|i: int| 0 <= i < j ==> *r@[i] == self.tasks@[i],
            decreases self.tasks@.len() - j,
        {
            r.push(&self.tasks[j]);
            j = j + 1;
        }
        r
    }

    /// The tasks that are running (pending or in progress), or those that
    /// are not, in order.
    pub fn list_by_status(&self, running: bool) -> (r: Vec<&BackgroundTask>)
        ensures
            r@.len() == tasks_running(self.stored(), running).len(),
            forall|i: int| 0 <= i < r@.len() ==> *r@[i] == tasks_running(self.stored(), running)[i],
    {
        let mut r: Vec<&BackgroundTask> = Vec::new();
        let mut j: usize = 0;
        while j < self.tasks.len()
            invariant
                0 <= j <= self.tasks@.len(),
                r@.len() == tasks_running(self.tasks@.take(j as int), running).len(),
                forall|i: int| 0 <= i < r@.len() ==> *r@[i] == tasks_running(self.tasks@.take(j as int), running)[i],
            decreases self.tasks@.len() - j,
        {
            proof {
                assert(self.tasks@.take(j + 1).drop_last() =~= self.tasks@.take(j as int));
            }
            if self.tasks[j].status.is_running() == running {
                r.push(&self.tasks[j]);
            }
            j = j + 1;
        }
        assert(self.tasks@.take(self.tasks@.len() as int) =~= self.tasks@);
        r
    }

    /// Delete the tasks that are over and were last updated before
    /// `cutoff`, keeping the rest in order; returns how many were deleted.
    pub fn cleanup_before(&mut self, cutoff: Timestamp) -> (removed: usize)
        requires
            old(self).wf(),
        ensures
            final(self).wf(),
            final(self).stored() == kept_tasks(old(self).stored(), cutoff),
            removed == old(self).stored().len() - final(self).stored().len(),
    {
        let ghost s0 = self.tasks@;
        assert(s0.len() == self.tasks.len());
        let mut rest: Vec<BackgroundTask> = Vec::new();
        std::mem::swap(&mut rest, &mut self.tasks);
        let mut kept: Vec<BackgroundTask> = Vec::new();
        let mut removed: usize = 0;
        let ghost mut j: int = 0;
        while rest.len() > 0
            invariant
                0 <= j <= s0.len(),
                s0.len() <= usize::MAX,
                rest@ == s0.skip(j),
                kept@ == kept_tasks(s0.take(j), cutoff),
                removed == j - kept@.len(),
                kept@.len() <= j,
            decreases rest@.len(),
        {
            let t = rest.remove(0);
            proof {
                assert(s0.take(j + 1).drop_last() =~= s0.take(j));
                assert(s0.take(j + 1).last() == t);
                lemma_kept_tasks_len(s0.take(j), cutoff);
            }
            if t.status.is_terminal() && is_earlier(t.updated_at, cutoff) {
                removed = removed + 1;
            } else {
                kept.push(t);
            }
            proof {
                j = j + 1;
                assert(rest@ =~= s0.skip(j));
            }
        }
        proof {
            assert(s0.take(j) =~= s0);
            lemma_kept_tasks_unique(s0, cutoff);
        }
        self.tasks = kept;
        removed
    }

    /// Delete the tasks that are over and were last updated more than
    /// `older_than` ago; returns how many were deleted. A duration reaching
    /// back before what a timestamp holds deletes nothing.
    pub fn cleanup_old(&mut self, older_than: std::time::Duration) -> (removed: usize)
        requires
            old(self).wf(),
        ensures
            final(self).wf(),
            removed == old(self).stored().len() - final(self).stored().len(),
            final(self).stored() == old(self).stored() || exists|cutoff: Timestamp|
                final(self).stored() == #[trigger] kept_tasks(old(self).stored(), cutoff),
    {
        match now_minus(&older_than) {
            Some(cutoff) => self.cleanup_before(cutoff),
            None => 0,
        }
    }
}

} // verus!
