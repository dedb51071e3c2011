//! Thread persistence: where conversation threads are kept between runs,
//! and the per-agent index of a key-value store's thread identifiers.
use vstd::prelude::*;
use crate::agent::thread::{first_chars, last_with_role, AgentThread, ThreadSummary};
use crate::agent::types::{AgentId, ChatRole, ThreadId};
use crate::clock::{earlier, is_earlier};
use crate::text::{append, to_owned, views, TextLike};

verus! {

/// Name of the key-value bucket that holds threads.
pub const BUCKET_THREADS: &'static str = "AGENTIC_THREADS";

/// Name of the key-value bucket that holds the per-agent thread index.
pub const BUCKET_THREAD_INDEX: &'static str = "AGENTIC_THREAD_INDEX";

// ============================================================================
// THREAD STORE ERROR
// ============================================================================

/// Errors that can occur in thread storage.
#[derive(Debug)]
pub enum ThreadStoreError {
    /// Storage backend error.
    StorageError(String),
    /// Thread not found.
    NotFound(String),
    /// Serialization error.
    SerializationError(String),
    /// Connection error.
    ConnectionError(String),
}

/// The text a thread store error is displayed as.
pub open spec fn thread_store_error_text(e: ThreadStoreError) -> Seq<char> {
    match e {
        ThreadStoreError::StorageError(m) => "Storage error: "@ + m@,
        ThreadStoreError::NotFound(m) => "Thread not found: "@ + m@,
        ThreadStoreError::SerializationError(m) => "Serialization error: "@ + m@,
        ThreadStoreError::ConnectionError(m) => "Connection error: "@ + m@,
    }
}

impl ThreadStoreError {
    /// The text this error is displayed as.
    pub fn to_string(&self) -> (r: String)
        ensures
            r@ == thread_store_error_text(*self),
    {
        let mut s = String::new();
        match self {
            ThreadStoreError::StorageError(m) => {
                append(&mut s, "Storage error: ");
                append(&mut s, m.as_str());
            },
            ThreadStoreError::NotFound(m) => {
                append(&mut s, "Thread not found: ");
                append(&mut s, m.as_str());
            },
            ThreadStoreError::SerializationError(m) => {
                append(&mut s, "Serialization error: ");
                append(&mut s, m.as_str());
            },
            ThreadStoreError::ConnectionError(m) => {
                append(&mut s, "Connection error: ");
                append(&mut s, m.as_str());
            },
        }
        assert(s@ =~= thread_store_error_text(*self));
        s
    }
}

// ============================================================================
// AGENT INDEX
// ============================================================================

/// The index with a thread identifier added at the end, unless it is
/// already there.
pub open spec fn index_added(ids: Seq<Seq<char>>, id: Seq<char>) -> Seq<Seq<char>> {
    if ids.contains(id) {
        ids
    } else {
        ids.push(id)
    }
}

/// The index without any occurrence of a thread identifier, in order.
pub open spec fn index_removed(ids: Seq<Seq<char>>, id: Seq<char>) -> Seq<Seq<char>>
    decreases ids.len(),
{
    if ids.len() == 0 {
        ids
    } else if ids.last() == id {
        index_removed(ids.drop_last(), id)
    } else {
        index_removed(ids.drop_last(), id).push(ids.last())
    }
}

/// The index to write back after a thread of the agent is saved: `None`
/// when the thread is already listed and nothing needs writing.
pub fn index_with_thread(ids: &Vec<String>, thread_id: &ThreadId) -> (r: Option<Vec<String>>)
    ensures
        views(ids@).contains(thread_id@) ==> r is None,
        !views(ids@).contains(thread_id@) ==> (r matches Some(v) && views(v@) == index_added(views(ids@), thread_id@)),
{
    let target = thread_id.to_string();
    let mut j: usize = 0;
    while j < ids.len()
        invariant
            target@ == thread_id@,
            0 <= j <= ids@.len(),
            forall|i: int| 0 <= i < j ==> ids@[i]@ != thread_id@,
        decreases ids@.len() - j,
    {
        if ids[j] == target {
            assert(views(ids@)[j as int] == thread_id@);
            return None;
        }
        j = j + 1;
    }
    proof {
        if views(ids@).contains(thread_id@) {
            let k = choose|k: int| 0 <= k < views(ids@).len() && views(ids@)[k] == thread_id@;
            assert(ids@[k]@ == thread_id@);
        }
    }
    let mut r: Vec<String> = Vec::new();
    let mut k: usize = 0;
    while k < ids.len()
        invariant
            0 <= k <= ids@.len(),
            r@.len() == k,
            views(r@) == views(ids@).take(k as int),
        decreases ids@.len() - k,
    {
        let s = ids[k].clone();
        r.push(s);
        assert(views(r@) =~= views(ids@).take(k + 1));
        k = k + 1;
    }
    assert(views(ids@).take(ids@.len() as int) =~= views(ids@));
    let ghost r0 = r@;
    let id = thread_id.to_string();
    r.push(id);
    assert(views(r@) =~= views(r0).push(thread_id@));
    assert(views(r@) =~= views(ids@).push(thread_id@));
    Some(r)
}

/// The index to keep after a thread of the agent is deleted: every entry
/// but that thread's, in order. An empty result means the index entry goes.
pub fn index_without_thread(ids: &Vec<String>, thread_id: &ThreadId) -> (r: Vec<String>)
    ensures
        views(r@) == index_removed(views(ids@), thread_id@),
{
    let target = thread_id.to_string();
    let mut r: Vec<String> = Vec::new();
    let mut k: usize = 0;
    while k < ids.len()
        invariant
            target@ == thread_id@,
            0 <= k <= ids@.len(),
            views(r@) == index_removed(views(ids@).take(k as int), thread_id@),
        decreases ids@.len() - k,
    {
        proof {
            assert(views(ids@).take(k + 1).drop_last() =~= views(ids@).take(k as int));
            assert(views(ids@).take(k + 1).last() == ids@[k as int]@);
        }
        if ids[k] != target {
            let s = ids[k].clone();
            r.push(s);
            assert(views(r@) =~= index_removed(views(ids@).take(k as int), thread_id@).push(ids@[k as int]@));
        }
        k = k + 1;
    }
    assert(views(ids@).take(ids@.len() as int) =~= views(ids@));
    r
}

// ============================================================================
// IN-MEMORY THREAD STORE
// ============================================================================

/// A summary describes a thread: its identifiers, times and counts, and a
/// preview of its last user message.
pub open spec fn summarizes(s: ThreadSummary, t: AgentThread) -> bool {
    &&& s.id == t.id
    &&& s.created_by == t.created_by
    &&& s.created_at == t.created_at
    &&& s.updated_at == t.updated_at
    &&& s.message_count == t.messages@.len()
    &&& s.turn_count == t.turn_count
    &&& match last_with_role(t.messages@, ChatRole::User) {
        Some(i) => s.preview matches Some(p) && p@ == first_chars(t.messages@[i].content@, 100),
        None => s.preview is None,
    }
}

/// Whether a thread was created by the agent.
pub open spec fn created_by_agent(t: AgentThread, agent: Seq<char>) -> bool {
    t.created_by matches Some(a) && a@ == agent
}

/// The threads of `ts` created by the agent, in order.
pub open spec fn threads_of(ts: Seq<AgentThread>, agent: Seq<char>) -> Seq<AgentThread>
    decreases ts.len(),
{
    if ts.len() == 0 {
        ts
    } else if created_by_agent(ts.last(), agent) {
        threads_of(ts.drop_last(), agent).push(ts.last())
    } else {
        threads_of(ts.drop_last(), agent)
    }
}

/// `sorted` with `x` placed after every summary updated no earlier than it,
/// counting from the back: a stable insertion, most recent first.
pub open spec fn insert_newest(sorted: Seq<ThreadSummary>, x: ThreadSummary) -> Seq<ThreadSummary>
    decreases sorted.len(),
{
    if sorted.len() == 0 {
        seq![x]
    } else if !earlier(sorted.last().updated_at, x.updated_at) {
        sorted.push(x)
    } else {
        insert_newest(sorted.drop_last(), x).push(sorted.last())
    }
}

/// `s` ordered most recently updated first, ties in their order: what a
/// stable sort by descending update time gives.
pub open spec fn newest_first(s: Seq<ThreadSummary>) -> Seq<ThreadSummary>
    decreases s.len(),
{
    if s.len() == 0 {
        s
    } else {
        insert_newest(newest_first(s.drop_last()), s.last())
    }
}

fn insert_newest_exec(sorted: &mut Vec<ThreadSummary>, x: ThreadSummary)
    ensures
        final(sorted)@ == insert_newest(old(sorted)@, x),
{
    let ghost s0 = sorted@;
    let mut tail: Vec<ThreadSummary> = Vec::new();
    while sorted.len() > 0 && is_earlier(sorted[sorted.len() - 1].updated_at, x.updated_at)
        invariant
            insert_newest(s0, x) == insert_newest(sorted@, x) + tail@.reverse(),
        decreases sorted@.len(),
    {
        let ghost before = sorted@;
        let last = sorted.pop().unwrap();
        proof {
            assert(before.drop_last() =~= sorted@);
            assert(tail@.push(last).reverse() =~= seq![last] + tail@.reverse());
            assert(insert_newest(sorted@, x).push(last) + tail@.reverse() =~= insert_newest(sorted@, x)
                + tail@.push(last).reverse());
        }
        tail.push(last);
    }
    let ghost head = sorted@.push(x);
    sorted.push(x);
    while tail.len() > 0
        invariant
            insert_newest(s0, x) == sorted@ + tail@.reverse(),
        decreases tail@.len(),
    {
        let ghost t0 = tail@;
        let ghost sorted0 = sorted@;
        let y = tail.pop().unwrap();
        sorted.push(y);
        proof {
            assert(t0.reverse() =~= seq![y] + tail@.reverse());
            assert(sorted0 + t0.reverse() =~= sorted@ + tail@.reverse());
        }
    }
    assert(sorted@ + tail@.reverse() =~= sorted@);
}

/// Threads held in memory, one per identifier.
pub struct InMemoryThreadStore {
    threads: Vec<AgentThread>,
}

/// The identifiers of `ts`, in order.
pub open spec fn thread_ids(ts: Seq<AgentThread>) -> Seq<Seq<char>> {
    ts.map_values(|t: AgentThread| t.id@)
}

impl InMemoryThreadStore {
    /// The stored threads.
    pub closed spec fn stored(&self) -> Seq<AgentThread> {
        self.threads@
    }

    /// No two stored threads share an identifier.
    pub closed spec fn wf(&self) -> bool {
        thread_ids(self.threads@).no_duplicates()
    }

    /// An empty store.
    pub fn new() -> (r: Self)
        ensures
            r.wf(),
            r.stored().len() == 0,
    {
        InMemoryThreadStore { threads: Vec::new() }
    }

    fn position(&self, thread_id: &ThreadId) -> (r: Option<usize>)
        ensures
            r is None <==> !thread_ids(self.stored()).contains(thread_id@),
            r matches Some(i) ==> i < self.stored().len() && self.stored()[i as int].id@ == thread_id@,
    {
        let mut j: usize = 0;
        while j < self.threads.len()
            invariant
                0 <= j <= self.threads@.len(),
                forall|i: int| 0 <= i < j ==> self.threads@[i].id@ != thread_id@,
            decreases self.threads@.len() - j,
        {
            if self.threads[j].id == *thread_id {
                assert(thread_ids(self.stored())[j as int] == thread_id@);
                return Some(j);
            }
            j = j + 1;
        }
        proof {
            let ids = thread_ids(self.stored());
            if ids.contains(thread_id@) {
                let k = choose|k: int| 0 <= k < ids.len() && ids[k] == thread_id@;
                assert(self.threads@[k].id@ == thread_id@);
            }
        }
        None
    }

    /// Save a thread, replacing the one with the same identifier where it
    /// stood.
    pub fn save(&mut self, thread: AgentThread)
        requires
            old(self).wf(),
        ensures
            final(self).wf(),
            thread_ids(old(self).stored()).contains(thread.id@) ==> final(self).stored() == old(self).stored().update(
                thread_ids(old(self).stored()).index_of(thread.id@),
                thread,
            ),
            !thread_ids(old(self).stored()).contains(thread.id@) ==> final(self).stored() == old(self).stored().push(
                thread,
            ),
    {
        let ghost s0 = self.threads@;
        match self.position(&thread.id) {
            Some(i) => {
                proof {
                    let ids = thread_ids(s0);
                    assert(ids[i as int] == thread.id@);
                    assert(ids.contains(thread.id@));
                    assert(ids.index_of(thread.id@) == i);
                }
                self.threads.set(i, thread);
                assert(thread_ids(self.threads@) =~= thread_ids(s0));
            },
            None => {
                self.threads.push(thread);
                assert(thread_ids(self.threads@) =~= thread_ids(s0).push(thread.id@));
            },
        }
    }

    /// The thread with the given identifier.
    pub fn load(&self, thread_id: &ThreadId) -> (r: Option<&AgentThread>)
        ensures
            r is None <==> !thread_ids(self.stored()).contains(thread_id@),
            r matches Some(t) ==> self.stored().contains(*t) && t.id@ == thread_id@,
    {
        match self.position(thread_id) {
            Some(i) => {
                assert(self.stored()[i as int] == self.threads@[i as int]);
                Some(&self.threads[i])
            },
            None => None,
        }
    }

    /// Delete the thread with the given identifier, keeping the others in
    /// order.
    pub fn delete(&mut self, thread_id: &ThreadId)
        requires
            old(self).wf(),
        ensures
            final(self).wf(),
            !thread_ids(final(self).stored()).contains(thread_id@),
            thread_ids(old(self).stored()).contains(thread_id@) ==> final(self).stored() == old(self).stored().remove(
                thread_ids(old(self).stored()).index_of(thread_id@),
            ),
            !thread_ids(old(self).stored()).contains(thread_id@) ==> final(self).stored() == old(self).stored(),
    {
        let ghost s0 = self.threads@;
        match self.position(thread_id) {
            Some(i) => {
                proof {
                    let ids = thread_ids(s0);
                    assert(ids[i as int] == thread_id@);
                    assert(ids.contains(thread_id@));
                    assert(ids.index_of(thread_id@) == i);
                }
                self.threads.remove(i);
                proof {
                    let ids0 = thread_ids(s0);
                    let ids = thread_ids(self.threads@);
                    assert(ids =~= ids0.remove(i as int));
                    assert forall|a: int, b: int| 0 <= a < b < ids.len() implies ids[a] != ids[b] by {
                        let a0 = if a < i { a } else { a + 1 };
                        let b0 = if b < i { b } else { b + 1 };
                        assert(ids[a] == ids0[a0]);
                        assert(ids[b] == ids0[b0]);
                    }
                    if ids.contains(thread_id@) {
                        let k = choose|k: int| 0 <= k < ids.len() && ids[k] == thread_id@;
                        let k0 = if k < i { k } else { k + 1 };
                        assert(ids0[k0] == thread_id@);
                    }
                }
            },
            None => {},
        }
    }

    /// Whether a thread with the given identifier is stored.
    pub fn thread_exists(&self, thread_id: &ThreadId) -> (r: bool)
        ensures
            r == thread_ids(self.stored()).contains(thread_id@),
    {
        self.position(thread_id).is_some()
    }

    fn summaries_where(&self, agent_id: Option<&AgentId>) -> (r: Vec<ThreadSummary>)
        ensures
            exists|built: Seq<ThreadSummary>| {
                &&& built.len() == match agent_id {
                    Some(a) => threads_of(self.stored(), a@).len(),
                    None => self.stored().len(),
                }
                &&& forall|i: int| 0 <= i < built.len() ==> summarizes(#[trigger] built[i], match agent_id {
                    Some(a) => threads_of(self.stored(), a@)[i],
                    None => self.stored()[i],
                })
                &&& r@ == newest_first(built)
            },
    {
        let ghost chosen = match agent_id {
            Some(a) => threads_of(self.threads@, a@),
            None => self.threads@,
        };
        let ghost mut built: Seq<ThreadSummary> = Seq::empty();
        let mut r: Vec<ThreadSummary> = Vec::new();
        let mut j: usize = 0;
        while j < self.threads.len()
            invariant
                0 <= j <= self.threads@.len(),
                chosen == match agent_id {
                    Some(a) => threads_of(self.threads@, a@),
                    None => self.threads@,
                },
                built.len() == match agent_id {
                    Some(a) => threads_of(self.threads@.take(j as int), a@).len(),
                    None => j as nat,
                },
                forall|i: int| 0 <= i < built.len() ==> summarizes(#[trigger] built[i], match agent_id {
                    Some(a) => threads_of(self.threads@.take(j as int), a@)[i],
                    None => self.threads@[i],
                }),
                r@ == newest_first(built),
            decreases self.threads@.len() - j,
        {
            let ghost pre = self.threads@.take(j as int);
            proof {
                assert(self.threads@.take(j + 1).drop_last() =~= pre);
                assert(self.threads@.take(j + 1).last() == self.threads@[j as int]);
            }
            let t = &self.threads[j];
            let wanted = match agent_id {
                Some(a) => match &t.created_by {
                    Some(c) => *c == *a,
                    None => false,
                },
                None => true,
            };
            if wanted {
                let s = ThreadSummary::of_thread(t);
                let ghost b0 = built;
                proof {
                    built = built.push(s);
                    assert(built.drop_last() =~= b0);
                }
                insert_newest_exec(&mut r, s);
                proof {
                    assert forall|i: int| 0 <= i < built.len() implies summarizes(#[trigger] built[i], match agent_id {
                        Some(a) => threads_of(self.threads@.take(j + 1), a@)[i],
                        None => self.threads@[i],
                    }) by {
                        if i < b0.len() {
                            assert(built[i] == b0[i]);
                        }
                    }
                }
            } else {
                proof {
                    assert(agent_id is Some);
                }
            }
            j = j + 1;
        }
        proof {
            assert(self.threads@.take(self.threads@.len() as int) =~= self.threads@);
        }
        r
    }

    /// Summaries of the agent's threads, most recently updated first; ties
    /// keep the order the threads were first stored in.
    pub fn list_by_agent(&self, agent_id: &AgentId) -> (r: Vec<ThreadSummary>)
        ensures
            exists|built: Seq<ThreadSummary>| {
                &&& built.len() == threads_of(self.stored(), agent_id@).len()
                &&& forall|i: int| 0 <= i < built.len() ==> summarizes(#[trigger] built[i], threads_of(self.stored(), agent_id@)[i])
                &&& r@ == newest_first(built)
            },
    {
        self.summaries_where(Some(agent_id))
    }

    /// Summaries of all threads, most recently updated first; ties keep the
    /// order the threads were first stored in.
    pub fn list_all(&self) -> (r: Vec<ThreadSummary>)
        ensures
            exists|built: Seq<ThreadSummary>| {
                &&& built.len() == self.stored().len()
                &&& forall|i: int| 0 <= i < built.len() ==> summarizes(#[trigger] built[i], self.stored()[i])
                &&& r@ == newest_first(built)
            },
    {
        self.summaries_where(None)
    }

    /// Delete every thread created by the agent, keeping the others in
    /// order; returns how many were deleted.
    pub fn delete_by_agent(&mut self, agent_id: &AgentId) -> (removed: usize)
        requires
            old(self).wf(),
        ensures
            final(self).wf(),
            removed == threads_of(old(self).stored(), agent_id@).len(),
            forall|t: AgentThread| final(self).stored().contains(t) <==> (old(self).stored().contains(t)
                && !created_by_agent(t, agent_id@)),
    {
        let ghost s0 = self.threads@;
        assert(s0.len() == self.threads.len());
        let mut rest: Vec<AgentThread> = Vec::new();
        std::mem::swap(&mut rest, &mut self.threads);
        let mut kept: Vec<AgentThread> = Vec::new();
        let mut removed: usize = 0;
        let ghost mut j: int = 0;
        while rest.len() > 0
            invariant
                0 <= j <= s0.len(),
                s0.len() <= usize::MAX,
                rest@ == s0.skip(j),
                removed == threads_of(s0.take(j), agent_id@).len(),
                removed + kept@.len() == j,
                thread_ids(s0).no_duplicates(),
                thread_ids(kept@).no_duplicates(),
                forall|t: AgentThread| kept@.contains(t) <==> (s0.take(j).contains(t) && !created_by_agent(t, agent_id@)),
            decreases rest@.len(),
        {
            let t = rest.remove(0);
            let ghost pre = s0.take(j);
            proof {
                assert(s0.take(j + 1).drop_last() =~= pre);
                assert(s0.take(j + 1).last() == t);
                assert(s0[j] == t);
            }
            let owned = match &t.created_by {
                Some(c) => *c == *agent_id,
                None => false,
            };
            let ghost k_before = kept@;
            if owned {
                removed = removed + 1;
            } else {
                let ghost k0 = kept@;
                kept.push(t);
                assert(kept@.drop_last() =~= k0);
                proof {
                    assert(thread_ids(kept@) =~= thread_ids(k0).push(t.id@));
                    assert forall|a: int, b: int| 0 <= a < b < thread_ids(kept@).len() implies thread_ids(kept@)[a]
                        != thread_ids(kept@)[b] by {
                        if b == k0.len() {
                            let x = k0[a];
                            assert(k0.contains(x));
                            assert(pre.contains(x));
                            let m = choose|m: int| 0 <= m < pre.len() && pre[m] == x;
                            assert(s0[m] == x);
                            assert(thread_ids(s0)[m] != thread_ids(s0)[j]);
                        }
                    }
                }
            }
            proof {
                let post = s0.take(j + 1);
                assert(post =~= pre.push(t));
                assert(owned == created_by_agent(t, agent_id@));
                assert forall|x: AgentThread| kept@.contains(x) <==> (post.contains(x) && !created_by_agent(x, agent_id@)) by {
                    lemma_push_contains(pre, t, x);
                    if owned {
                        assert(kept@ == k_before);
                    } else {
                        lemma_push_contains(kept@.drop_last(), t, x);
                        assert(kept@.drop_last().push(t) =~= kept@);
                    }
                }
                j = j + 1;
                assert(rest@ =~= s0.skip(j));
            }
        }
        proof {
            assert(s0.take(j) =~= s0);
        }
        self.threads = kept;
        removed
    }
}

proof fn lemma_push_contains<A>(s: Seq<A>, v: A, x: A)
    ensures
        s.push(v).contains(x) <==> (s.contains(x) || x == v),
{
    if s.contains(x) {
        let k = choose|k: int| 0 <= k < s.len() && s[k] == x;
        assert(s.push(v)[k] == x);
    }
    if x == v {
        assert(s.push(v)[s.len() as int] == x);
    }
    if s.push(v).contains(x) {
        let k = choose|k: int| 0 <= k < s.push(v).len() && s.push(v)[k] == x;
        if k < s.len() {
            assert(s[k] == x);
        }
    }
}

} // verus!
