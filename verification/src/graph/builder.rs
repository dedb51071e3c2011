//! WorkflowBuilder: a fluent API for constructing workflow graphs, and the
//! checks run on the graphs it builds.
//!
//! A built workflow names each executor once, starts at one of them, only
//! connects executors it names, and reaches every executor from its start.
use vstd::prelude::*;
use crate::graph::edge::{
    derefs, edges_from, edges_to, id_views, ids_contain, ref_id_views, refs_of, Edge, EdgeCollection, EdgeKind,
};
use crate::graph::paths::{
    all_sources, all_targets, closed_under_successors, is_path, is_successor, lemma_all_targets_contains,
    lemma_closed_holds_reached, lemma_path_push, lemma_predecessors_of, lemma_reaches_self, lemma_reaches_step,
    lemma_successors_of, reaches, steps_at,
};
use crate::graph::types::{ExecutorId, GraphError, GraphResult, WorkflowId};
use crate::text::{append, join, join_strings, to_owned, views, TextLike};

verus! {

// ============================================================================
// EXECUTOR SETS
// ============================================================================

/// `s` with `x` added at the end, unless it already holds `x`.
pub open spec fn set_insert(s: Seq<Seq<char>>, x: Seq<char>) -> Seq<Seq<char>> {
    if s.contains(x) {
        s
    } else {
        s.push(x)
    }
}

/// `s` with each of `xs` inserted in turn.
pub open spec fn set_insert_all(s: Seq<Seq<char>>, xs: Seq<Seq<char>>) -> Seq<Seq<char>>
    decreases xs.len(),
{
    if xs.len() == 0 {
        s
    } else {
        set_insert(set_insert_all(s, xs.drop_last()), xs.last())
    }
}

/// Inserting one element keeps a sequence free of duplicates, and it then
/// holds exactly what it held and the element.
pub proof fn lemma_set_insert(s: Seq<Seq<char>>, x: Seq<char>)
    requires
        s.no_duplicates(),
    ensures
        set_insert(s, x).no_duplicates(),
        forall|y: Seq<char>| #[trigger] set_insert(s, x).contains(y) <==> (s.contains(y) || y == x),
{
    if !s.contains(x) {
        assert(s.push(x)[s.len() as int] == x);
        assert forall|y: Seq<char>| #[trigger] set_insert(s, x).contains(y) <==> (s.contains(y) || y == x) by {
            if s.push(x).contains(y) {
                let k = choose|k: int| 0 <= k < s.len() + 1 && s.push(x)[k] == y;
                if k < s.len() {
                    assert(s[k] == y);
                }
            }
            if s.contains(y) {
                let k = choose|k: int| 0 <= k < s.len() && s[k] == y;
                assert(s.push(x)[k] == y);
            }
        }
    }
}

/// Inserting keeps a sequence free of duplicates, and it then holds exactly
/// what it held and the inserted elements.
pub proof fn lemma_set_insert_all(s: Seq<Seq<char>>, xs: Seq<Seq<char>>)
    requires
        s.no_duplicates(),
    ensures
        set_insert_all(s, xs).no_duplicates(),
        forall|y: Seq<char>| #[trigger] set_insert_all(s, xs).contains(y) <==> (s.contains(y) || xs.contains(y)),
        s.is_prefix_of(set_insert_all(s, xs)),
    decreases xs.len(),
{
    if xs.len() > 0 {
        lemma_set_insert_all(s, xs.drop_last());
        let r = set_insert_all(s, xs.drop_last());
        assert forall|y: Seq<char>| #[trigger] set_insert_all(s, xs).contains(y) <==> (s.contains(y) || xs.contains(y)) by {
            if xs.contains(y) && !xs.drop_last().contains(y) {
                let k = choose|k: int| 0 <= k < xs.len() && xs[k] == y;
                if k < xs.len() - 1 {
                    assert(xs.drop_last()[k] == y);
                }
            }
            if xs.drop_last().contains(y) {
                let k = choose|k: int| 0 <= k < xs.drop_last().len() && xs.drop_last()[k] == y;
                assert(xs[k] == y);
            }
            if !r.contains(xs.last()) {
                assert(r.push(xs.last())[r.len() as int] == xs.last());
                if r.push(xs.last()).contains(y) {
                    let k = choose|k: int| 0 <= k < r.len() + 1 && r.push(xs.last())[k] == y;
                    if k < r.len() {
                        assert(r[k] == y);
                    }
                }
                if r.contains(y) {
                    let k = choose|k: int| 0 <= k < r.len() && r[k] == y;
                    assert(r.push(xs.last())[k] == y);
                }
            }
        }
    }
}

/// Adds `id` to `ids` unless an equal identifier is there already.
fn insert_id(ids: &mut Vec<ExecutorId>, id: ExecutorId)
    ensures
        id_views(final(ids)@) == set_insert(id_views(old(ids)@), id@),
{
    if !ids_contain(ids, &id) {
        let ghost before = ids@;
        let ghost v = id@;
        ids.push(id);
        assert(id_views(ids@) =~= id_views(before).push(v));
    }
}

/// Adds each of `new_ids` to `ids`, in order, skipping those already there.
fn insert_ids(ids: &mut Vec<ExecutorId>, new_ids: Vec<&ExecutorId>)
    ensures
        id_views(final(ids)@) == set_insert_all(id_views(old(ids)@), ref_id_views(new_ids@)),
{
    let ghost start = id_views(ids@);
    let mut i: usize = 0;
    while i < new_ids.len()
        invariant
            i <= new_ids@.len(),
            id_views(ids@) == set_insert_all(start, ref_id_views(new_ids@).take(i as int)),
        decreases new_ids.len() - i,
    {
        insert_id(ids, new_ids[i].clone());
        assert(ref_id_views(new_ids@).take(i + 1).drop_last() =~= ref_id_views(new_ids@).take(i as int));
        i = i + 1;
    }
    assert(ref_id_views(new_ids@).take(new_ids@.len() as int) =~= ref_id_views(new_ids@));
}

// ============================================================================
// EXECUTOR METADATA
// ============================================================================

/// Metadata for an executor in the workflow.
#[derive(Debug, Clone, Default)]
pub struct ExecutorMetadata {
    /// Human-readable name.
    pub name: Option<String>,
    /// Description of what this executor does.
    pub description: Option<String>,
}

/// The map that a list of entries stands for: a later entry for a key
/// replaces an earlier one.
pub open spec fn entries_map(entries: Seq<(ExecutorId, ExecutorMetadata)>) -> Map<Seq<char>, ExecutorMetadata>
    decreases entries.len(),
{
    if entries.len() == 0 {
        Map::empty()
    } else {
        entries_map(entries.drop_last()).insert(entries.last().0@, entries.last().1)
    }
}

/// No two entries have the same key.
pub open spec fn keys_unique(entries: Seq<(ExecutorId, ExecutorMetadata)>) -> bool {
    forall|i: int, j: int| 0 <= i < j < entries.len() ==> (#[trigger] entries[i]).0@ != (#[trigger] entries[j]).0@
}

/// The entry at `i` gives the map's value for its key.
proof fn lemma_entries_map_at(entries: Seq<(ExecutorId, ExecutorMetadata)>, i: int)
    requires
        keys_unique(entries),
        0 <= i < entries.len(),
    ensures
        entries_map(entries).contains_key(entries[i].0@),
        entries_map(entries)[entries[i].0@] == entries[i].1,
    decreases entries.len(),
{
    if i < entries.len() - 1 {
        let d = entries.drop_last();
        assert(d[i] == entries[i]);
        assert forall|a: int, b: int| 0 <= a < b < d.len() implies (#[trigger] d[a]).0@ != (#[trigger] d[b]).0@ by {
            assert(d[a] == entries[a] && d[b] == entries[b]);
        }
        lemma_entries_map_at(d, i);
    }
}

/// A key that no entry has is not in the map.
proof fn lemma_entries_map_absent(entries: Seq<(ExecutorId, ExecutorMetadata)>, k: Seq<char>)
    requires
        forall|i: int| 0 <= i < entries.len() ==> (#[trigger] entries[i]).0@ != k,
    ensures
        !entries_map(entries).contains_key(k),
    decreases entries.len(),
{
    if entries.len() > 0 {
        let d = entries.drop_last();
        assert forall|i: int| 0 <= i < d.len() implies (#[trigger] d[i]).0@ != k by {
            assert(d[i] == entries[i]);
        }
        lemma_entries_map_absent(d, k);
    }
}

/// Replacing the entry for a key changes the map at that key only.
proof fn lemma_entries_map_update(entries: Seq<(ExecutorId, ExecutorMetadata)>, i: int, e: (ExecutorId, ExecutorMetadata))
    requires
        keys_unique(entries),
        0 <= i < entries.len(),
        entries[i].0@ == e.0@,
    ensures
        entries_map(entries.update(i, e)) == entries_map(entries).insert(e.0@, e.1),
    decreases entries.len(),
{
    let u = entries.update(i, e);
    let d = entries.drop_last();
    if i == entries.len() - 1 {
        assert(u.drop_last() =~= d);
        assert(entries_map(u) =~= entries_map(entries).insert(e.0@, e.1));
    } else {
        assert forall|a: int, b: int| 0 <= a < b < d.len() implies (#[trigger] d[a]).0@ != (#[trigger] d[b]).0@ by {
            assert(d[a] == entries[a] && d[b] == entries[b]);
        }
        lemma_entries_map_update(d, i, e);
        assert(u.drop_last() =~= d.update(i, e));
        assert(u.last() == entries.last());
        assert(entries[i].0@ != entries.last().0@);
        assert(entries_map(u) =~= entries_map(entries).insert(e.0@, e.1));
    }
}

/// Metadata of executors, keyed by executor identifier.
pub struct MetadataMap {
    entries: Vec<(ExecutorId, ExecutorMetadata)>,
}

impl View for MetadataMap {
    type V = Map<Seq<char>, ExecutorMetadata>;

    closed spec fn view(&self) -> Map<Seq<char>, ExecutorMetadata> {
        entries_map(self.entries@)
    }
}

impl MetadataMap {
    #[verifier::type_invariant]
    spec fn inv(self) -> bool {
        keys_unique(self.entries@)
    }

    /// An empty map.
    pub fn new() -> (r: Self)
        ensures
            r@ == Map::<Seq<char>, ExecutorMetadata>::empty(),
    {
        MetadataMap { entries: Vec::new() }
    }

    /// Sets the metadata of `id`, replacing any earlier metadata for it.
    pub fn insert(&mut self, id: ExecutorId, meta: ExecutorMetadata)
        ensures
            final(self)@ == old(self)@.insert(id@, meta),
    {
        proof { use_type_invariant(&*self); }
        let mut i: usize = 0;
        while i < self.entries.len()
            invariant
                i <= self.entries@.len(),
                keys_unique(self.entries@),
                *self == *old(self),
                forall|j: int| 0 <= j < i ==> (#[trigger] self.entries@[j]).0@ != id@,
            decreases self.entries.len() - i,
        {
            if self.entries[i].0 == id {
                let ghost before = self.entries@;
                let ghost e = (id, meta);
                proof { lemma_entries_map_update(before, i as int, e); }
                let mut entries = Vec::new();
                std::mem::swap(&mut entries, &mut self.entries);
                entries.set(i, (id, meta));
                assert(entries@ == before.update(i as int, e));
                assert forall|a: int, b: int| 0 <= a < b < entries@.len()
                    implies (#[trigger] entries@[a]).0@ != (#[trigger] entries@[b]).0@ by {
                    assert(before[a].0@ != before[b].0@);
                }
                self.entries = entries;
                return;
            }
            i = i + 1;
        }
        let ghost before = self.entries@;
        let ghost e = (id, meta);
        let mut entries = Vec::new();
        std::mem::swap(&mut entries, &mut self.entries);
        entries.push((id, meta));
        assert(entries@ == before.push(e));
        assert(entries@.drop_last() =~= before);
        assert forall|a: int, b: int| 0 <= a < b < entries@.len()
            implies (#[trigger] entries@[a]).0@ != (#[trigger] entries@[b]).0@ by {
            if b < before.len() {
                assert(before[a].0@ != before[b].0@);
            }
        }
        self.entries = entries;
        proof { lemma_entries_map_absent(before, id@); }
        assert(entries_map(before.push(e)) == entries_map(before).insert(id@, meta));
    }

    /// The metadata of `id`, if any.
    pub fn get(&self, id: &ExecutorId) -> (r: Option<&ExecutorMetadata>)
        ensures
            match r {
                Some(m) => self@.contains_key(id@) && self@[id@] == *m,
                None => !self@.contains_key(id@),
            },
    {
        proof { use_type_invariant(self); }
        let mut i: usize = 0;
        while i < self.entries.len()
            invariant
                i <= self.entries@.len(),
                keys_unique(self.entries@),
                forall|j: int| 0 <= j < i ==> (#[trigger] self.entries@[j]).0@ != id@,
            decreases self.entries.len() - i,
        {
            if self.entries[i].0 == *id {
                proof { lemma_entries_map_at(self.entries@, i as int); }
                return Some(&self.entries[i].1);
            }
            i = i + 1;
        }
        proof { lemma_entries_map_absent(self.entries@, id@); }
        None
    }

    /// Whether `id` has metadata.
    pub fn contains_key(&self, id: &ExecutorId) -> (b: bool)
        ensures
            b == self@.contains_key(id@),
    {
        self.get(id).is_some()
    }
}


// ============================================================================
// WORKFLOW DEFINITION
// ============================================================================

/// A workflow definition containing executors and edges.
///
/// This is the output of `WorkflowBuilder` and can be used to run the workflow.
#[verifier::reject_recursive_types(T)]
pub struct WorkflowDefinition<T: Send + Sync + 'static> {
    /// Unique workflow identifier.
    pub id: WorkflowId,
    /// Human-readable name.
    pub name: Option<String>,
    /// Starting executor ID.
    pub start: ExecutorId,
    /// All executor IDs in the workflow, each once, in the order they were added.
    pub executors: Vec<ExecutorId>,
    /// All edges connecting executors.
    pub edges: EdgeCollection<T>,
    /// Executor metadata (optional descriptions).
    pub executor_metadata: MetadataMap,
}

/// The executors among `ids` that no edge leaves, in order, each once.
pub open spec fn terminals_among<T: Send + Sync + 'static>(edges: Seq<Edge<T>>, ids: Seq<Seq<char>>) -> Seq<Seq<char>>
    decreases ids.len(),
{
    if ids.len() == 0 {
        Seq::empty()
    } else {
        let prev = terminals_among(edges, ids.drop_last());
        let x = ids.last();
        if edges_from(edges, x).len() == 0 && !prev.contains(x) {
            prev.push(x)
        } else {
            prev
        }
    }
}

/// The terminal executors are listed each once; they are exactly the
/// listed executors that no edge leaves; and when the list has no repeats
/// they are its terminal executors in order.
pub proof fn lemma_terminals_among<T: Send + Sync + 'static>(edges: Seq<Edge<T>>, ids: Seq<Seq<char>>)
    ensures
        terminals_among(edges, ids).no_duplicates(),
        forall|x: Seq<char>| #[trigger] terminals_among(edges, ids).contains(x) <==> (ids.contains(x) && edges_from(
            edges,
            x,
        ).len() == 0),
        ids.no_duplicates() ==> terminals_among(edges, ids) == ids.filter(
            |x: Seq<char>| edges_from(edges, x).len() == 0,
        ),
    decreases ids.len(),
{
    let pred = |x: Seq<char>| edges_from(edges, x).len() == 0;
    reveal(Seq::filter);
    if ids.len() == 0 {
        assert(ids.filter(pred) =~= Seq::<Seq<char>>::empty());
    } else {
        let d = ids.drop_last();
        let x = ids.last();
        lemma_terminals_among(edges, d);
        let prev = terminals_among(edges, d);
        assert forall|y: Seq<char>| ids.contains(y) <==> (d.contains(y) || y == x) by {
            if ids.contains(y) {
                let k = choose|k: int| 0 <= k < ids.len() && ids[k] == y;
                if k < ids.len() - 1 {
                    assert(d[k] == y);
                }
            }
            if d.contains(y) {
                let k = choose|k: int| 0 <= k < d.len() && d[k] == y;
                assert(ids[k] == y);
            }
            if y == x {
                assert(ids[ids.len() - 1] == y);
            }
        }
        if pred(x) && !prev.contains(x) {
            assert forall|i: int, j: int|
                0 <= i < prev.len() + 1 && 0 <= j < prev.len() + 1 && i != j implies #[trigger] prev.push(x)[i]
                != #[trigger] prev.push(x)[j] by {
                if i < prev.len() && j < prev.len() {
                } else if i == prev.len() {
                    assert(prev.contains(prev[j]));
                } else {
                    assert(prev.contains(prev[i]));
                }
            }
            assert forall|y: Seq<char>| prev.push(x).contains(y) <==> (prev.contains(y) || y == x) by {
                if prev.push(x).contains(y) {
                    let k = choose|k: int| 0 <= k < prev.len() + 1 && prev.push(x)[k] == y;
                    if k < prev.len() {
                        assert(prev[k] == y);
                    }
                }
                if prev.contains(y) {
                    let k = choose|k: int| 0 <= k < prev.len() && prev[k] == y;
                    assert(prev.push(x)[k] == y);
                }
                if y == x {
                    assert(prev.push(x)[prev.len() as int] == y);
                }
            }
        }
        assert forall|y: Seq<char>| #[trigger] terminals_among(edges, ids).contains(y) <==> (ids.contains(y) && edges_from(
            edges,
            y,
        ).len() == 0) by {
            assert(prev.contains(y) <==> (d.contains(y) && pred(y)));
            assert(pred(y) == (edges_from(edges, y).len() == 0));
        }
        if ids.no_duplicates() {
            assert(d.no_duplicates()) by {
                assert forall|i: int, j: int| 0 <= i < d.len() && 0 <= j < d.len() && i != j implies d[i] != d[j] by {
                    assert(d[i] == ids[i] && d[j] == ids[j]);
                }
            }
            assert(!d.contains(x)) by {
                if d.contains(x) {
                    let k = choose|k: int| 0 <= k < d.len() && d[k] == x;
                    assert(ids[k] == ids[ids.len() - 1]);
                }
            }
            assert(!prev.contains(x));
            assert(ids.filter(pred) == if pred(x) { d.filter(pred).push(x) } else { d.filter(pred) });
        }
    }
}

/// The references to targets of the given edges, edge after edge.
fn targets_of<'a, T: Send + Sync + 'static>(es: &Vec<&'a Edge<T>>) -> (r: Vec<&'a ExecutorId>)
    ensures
        ref_id_views(r@) == all_targets(derefs(es@)),
{
    let mut r: Vec<&'a ExecutorId> = Vec::new();
    let mut i: usize = 0;
    while i < es.len()
        invariant
            i <= es@.len(),
            ref_id_views(r@) == all_targets(derefs(es@).take(i as int)),
        decreases es.len() - i,
    {
        let ghost before = r@;
        let e: &'a Edge<T> = es[i];
        let mut t = e.target.targets();
        let ghost tv = t@;
        r.append(&mut t);
        proof {
            let d = derefs(es@);
            assert(d.take(i + 1).drop_last() =~= d.take(i as int));
            assert(d.take(i + 1).last() == d[i as int]);
            assert(ref_id_views(r@) =~= ref_id_views(before) + ref_id_views(tv));
        }
        i = i + 1;
    }
    assert(derefs(es@).take(es@.len() as int) =~= derefs(es@));
    r
}

/// The references to sources of the given edges, edge after edge.
fn sources_of<'a, T: Send + Sync + 'static>(es: &Vec<&'a Edge<T>>) -> (r: Vec<&'a ExecutorId>)
    ensures
        ref_id_views(r@) == all_sources(derefs(es@)),
{
    let mut r: Vec<&'a ExecutorId> = Vec::new();
    let mut i: usize = 0;
    while i < es.len()
        invariant
            i <= es@.len(),
            ref_id_views(r@) == all_sources(derefs(es@).take(i as int)),
        decreases es.len() - i,
    {
        let ghost before = r@;
        let e: &'a Edge<T> = es[i];
        let mut t = e.source.sources();
        let ghost tv = t@;
        r.append(&mut t);
        proof {
            let d = derefs(es@);
            assert(d.take(i + 1).drop_last() =~= d.take(i as int));
            assert(d.take(i + 1).last() == d[i as int]);
            assert(ref_id_views(r@) =~= ref_id_views(before) + ref_id_views(tv));
        }
        i = i + 1;
    }
    assert(derefs(es@).take(es@.len() as int) =~= derefs(es@));
    r
}

impl<T: Send + Sync + 'static> WorkflowDefinition<T> {
    /// Get the starting executor ID.
    pub fn start_executor(&self) -> (r: &ExecutorId)
        ensures
            *r == self.start,
    {
        &self.start
    }

    /// Get all executor IDs.
    pub fn executor_ids(&self) -> (r: Vec<&ExecutorId>)
        ensures
            ref_id_views(r@) == id_views(self.executors@),
    {
        refs_of(&self.executors)
    }

    /// Check if an executor exists in the workflow.
    pub fn has_executor(&self, id: &ExecutorId) -> (b: bool)
        ensures
            b == id_views(self.executors@).contains(id@),
    {
        ids_contain(&self.executors, id)
    }

    /// Get edges from an executor.
    pub fn edges_from(&self, executor_id: &ExecutorId) -> (r: Vec<&Edge<T>>)
        ensures
            derefs(r@) == edges_from(self.edges@, executor_id@),
    {
        self.edges.from_executor(executor_id)
    }

    /// Get edges to an executor.
    pub fn edges_to(&self, executor_id: &ExecutorId) -> (r: Vec<&Edge<T>>)
        ensures
            derefs(r@) == edges_to(self.edges@, executor_id@),
    {
        self.edges.to_executor(executor_id)
    }

    /// Get successors of an executor: the targets of the edges leaving it,
    /// edge after edge.
    pub fn successors(&self, executor_id: &ExecutorId) -> (r: Vec<&ExecutorId>)
        ensures
            ref_id_views(r@) == all_targets(edges_from(self.edges@, executor_id@)),
    {
        let es = self.edges_from(executor_id);
        targets_of(&es)
    }

    /// Get predecessors of an executor: the sources of the edges entering
    /// it, edge after edge.
    pub fn predecessors(&self, executor_id: &ExecutorId) -> (r: Vec<&ExecutorId>)
        ensures
            ref_id_views(r@) == all_sources(edges_to(self.edges@, executor_id@)),
    {
        let es = self.edges_to(executor_id);
        sources_of(&es)
    }

    /// Check if this is a terminal executor (no outgoing edges).
    pub fn is_terminal(&self, executor_id: &ExecutorId) -> (b: bool)
        ensures
            b == (edges_from(self.edges@, executor_id@).len() == 0),
    {
        self.edges_from(executor_id).len() == 0
    }

    /// Get all terminal executors, in the order of the executor list, each
    /// once.
    pub fn terminal_executors(&self) -> (r: Vec<&ExecutorId>)
        ensures
            ref_id_views(r@) == terminals_among(self.edges@, id_views(self.executors@)),
            ref_id_views(r@).no_duplicates(),
            forall|x: Seq<char>| #[trigger] ref_id_views(r@).contains(x) <==> (id_views(self.executors@).contains(x)
                && edges_from(self.edges@, x).len() == 0),
    {
        let ghost ids = id_views(self.executors@);
        let mut r: Vec<&ExecutorId> = Vec::new();
        let mut i: usize = 0;
        while i < self.executors.len()
            invariant
                i <= self.executors@.len(),
                ids == id_views(self.executors@),
                ref_id_views(r@) == terminals_among(self.edges@, ids.take(i as int)),
            decreases self.executors.len() - i,
        {
            let ghost before = ref_id_views(r@);
            let id = &self.executors[i];
            proof {
                let t = ids.take(i + 1);
                assert(t.drop_last() =~= ids.take(i as int));
                assert(t.last() == id@);
            }
            if self.is_terminal(id) && !holds_id(&r, id) {
                r.push(id);
                assert(ref_id_views(r@) =~= before.push(id@));
            }
            i = i + 1;
        }
        assert(ids.take(ids.len() as int) =~= ids);
        proof {
            lemma_terminals_among(self.edges@, ids);
        }
        r
    }
}

/// Whether a list of identifiers holds one with the same text.
fn holds_id(v: &Vec<&ExecutorId>, x: &ExecutorId) -> (b: bool)
    ensures
        b == ref_id_views(v@).contains(x@),
{
    let mut i: usize = 0;
    while i < v.len()
        invariant
            i <= v@.len(),
            forall|j: int| 0 <= j < i ==> ref_id_views(v@)[j] != x@,
        decreases v.len() - i,
    {
        if crate::text::str_eq(v[i].as_str(), x.as_str()) {
            assert(ref_id_views(v@)[i as int] == x@);
            return true;
        }
        i = i + 1;
    }
    false
}

// ============================================================================
// WORKFLOW BUILDER
// ============================================================================

/// Every executor that an edge of `edges` leaves or enters is in `ids`.
pub open spec fn endpoints_within<T: Send + Sync + 'static>(edges: Seq<Edge<T>>, ids: Seq<Seq<char>>) -> bool {
    &&& forall|j: int, x: Seq<char>|
        0 <= j < edges.len() && #[trigger] edges[j].source.ids().contains(x) ==> ids.contains(x)
    &&& forall|j: int, x: Seq<char>|
        0 <= j < edges.len() && #[trigger] edges[j].target.ids().contains(x) ==> ids.contains(x)
}

/// The executors added when `edge` is: its sources, then its targets.
pub open spec fn with_endpoints<T: Send + Sync + 'static>(ids: Seq<Seq<char>>, edge: Edge<T>) -> Seq<Seq<char>> {
    set_insert_all(set_insert_all(ids, edge.source.ids()), edge.target.ids())
}

/// Builder for constructing workflow graphs with a fluent API.
///
/// `T` is the message type that flows through edges.
#[verifier::reject_recursive_types(T)]
pub struct WorkflowBuilder<T: Send + Sync + 'static> {
    id: WorkflowId,
    name: Option<String>,
    start: Option<ExecutorId>,
    executors: Vec<ExecutorId>,
    edges: Vec<Edge<T>>,
    executor_metadata: MetadataMap,
}

impl<T: Send + Sync + 'static> WorkflowBuilder<T> {
    #[verifier::type_invariant]
    spec fn inv(self) -> bool {
        &&& id_views(self.executors@).no_duplicates()
        &&& (self.start matches Some(s) ==> id_views(self.executors@).contains(s@))
        &&& endpoints_within(self.edges@, id_views(self.executors@))
    }

    /// The workflow's identifier.
    pub closed spec fn id_text(&self) -> Seq<char> {
        self.id@
    }

    /// The workflow's name.
    pub closed spec fn name_text(&self) -> Option<Seq<char>> {
        match self.name {
            Some(n) => Some(n@),
            None => None,
        }
    }

    /// The start executor, once set.
    pub closed spec fn start_text(&self) -> Option<Seq<char>> {
        match self.start {
            Some(s) => Some(s@),
            None => None,
        }
    }

    /// The executors added so far, each once, in the order they were added.
    pub closed spec fn executor_texts(&self) -> Seq<Seq<char>> {
        id_views(self.executors@)
    }

    /// The edges added so far, in order.
    pub closed spec fn edge_list(&self) -> Seq<Edge<T>> {
        self.edges@
    }

    /// The metadata given so far.
    pub closed spec fn metadata(&self) -> Map<Seq<char>, ExecutorMetadata> {
        self.executor_metadata@
    }

    /// Create a new workflow builder.
    pub fn new(id: impl TextLike) -> (r: Self)
        ensures
            r.id_text() == id.text(),
            r.name_text() is None,
            r.start_text() is None,
            r.executor_texts() == Seq::<Seq<char>>::empty(),
            r.edge_list() == Seq::<Edge<T>>::empty(),
            r.metadata() == Map::<Seq<char>, ExecutorMetadata>::empty(),
    {
        let r = WorkflowBuilder {
            id: WorkflowId::new(id),
            name: None,
            start: None,
            executors: Vec::new(),
            edges: Vec::new(),
            executor_metadata: MetadataMap::new(),
        };
        assert(id_views(r.executors@) =~= Seq::<Seq<char>>::empty());
        r
    }

    /// Set a human-readable name for the workflow.
    pub fn name(self, name: impl TextLike) -> (r: Self)
        ensures
            r.name_text() == Some(name.text()),
            r.id_text() == self.id_text(),
            r.start_text() == self.start_text(),
            r.executor_texts() == self.executor_texts(),
            r.edge_list() == self.edge_list(),
            r.metadata() == self.metadata(),
    {
        proof { use_type_invariant(&self); }
        let WorkflowBuilder { id, name: _, start, executors, edges, executor_metadata } = self;
        WorkflowBuilder { id, name: Some(name.into_string()), start, executors, edges, executor_metadata }
    }

    /// Set the starting executor, adding it to the executors.
    ///
    /// This executor receives the initial input when the workflow runs.
    pub fn set_start(self, executor_id: impl TextLike) -> (r: Self)
        ensures
            r.start_text() == Some(executor_id.text()),
            r.executor_texts() == set_insert(self.executor_texts(), executor_id.text()),
            r.id_text() == self.id_text(),
            r.name_text() == self.name_text(),
            r.edge_list() == self.edge_list(),
            r.metadata() == self.metadata(),
    {
        proof { use_type_invariant(&self); }
        let id = ExecutorId::new(executor_id);
        let WorkflowBuilder { id: wid, name, start: _, mut executors, edges, executor_metadata } = self;
        let ghost before = id_views(executors@);
        insert_id(&mut executors, id.clone());
        proof { lemma_set_insert(before, id@); }
        WorkflowBuilder { id: wid, name, start: Some(id), executors, edges, executor_metadata }
    }

    /// Add an executor by ID.
    ///
    /// The actual executor instance is provided when running the workflow.
    pub fn add_executor_id(self, executor_id: impl TextLike) -> (r: Self)
        ensures
            r.executor_texts() == set_insert(self.executor_texts(), executor_id.text()),
            r.id_text() == self.id_text(),
            r.name_text() == self.name_text(),
            r.start_text() == self.start_text(),
            r.edge_list() == self.edge_list(),
            r.metadata() == self.metadata(),
    {
        proof { use_type_invariant(&self); }
        let id = ExecutorId::new(executor_id);
        let WorkflowBuilder { id: wid, name, start, mut executors, edges, executor_metadata } = self;
        let ghost before = id_views(executors@);
        insert_id(&mut executors, id);
        proof { lemma_set_insert(before, executor_id.text()); }
        WorkflowBuilder { id: wid, name, start, executors, edges, executor_metadata }
    }

    /// Add an executor with metadata.
    pub fn add_executor_with_metadata(
        self,
        executor_id: impl TextLike,
        name: Option<String>,
        description: Option<String>,
    ) -> (r: Self)
        ensures
            r.executor_texts() == set_insert(self.executor_texts(), executor_id.text()),
            r.metadata() == self.metadata().insert(
                executor_id.text(),
                ExecutorMetadata { name: name, description: description },
            ),
            r.id_text() == self.id_text(),
            r.name_text() == self.name_text(),
            r.start_text() == self.start_text(),
            r.edge_list() == self.edge_list(),
    {
        proof { use_type_invariant(&self); }
        let id = ExecutorId::new(executor_id);
        let WorkflowBuilder { id: wid, name: wname, start, mut executors, edges, mut executor_metadata } = self;
        let ghost before = id_views(executors@);
        insert_id(&mut executors, id.clone());
        proof { lemma_set_insert(before, id@); }
        executor_metadata.insert(id, ExecutorMetadata { name, description });
        WorkflowBuilder { id: wid, name: wname, start, executors, edges, executor_metadata }
    }

    /// Add a pre-built edge, adding the executors it connects: first its
    /// sources, then its targets.
    pub fn add_edge(self, edge: Edge<T>) -> (r: Self)
        ensures
            r.edge_list() == self.edge_list().push(edge),
            r.executor_texts() == with_endpoints(self.executor_texts(), edge),
            r.id_text() == self.id_text(),
            r.name_text() == self.name_text(),
            r.start_text() == self.start_text(),
            r.metadata() == self.metadata(),
    {
        proof { use_type_invariant(&self); }
        let WorkflowBuilder { id, name, start, mut executors, mut edges, executor_metadata } = self;
        let ghost e0 = id_views(executors@);
        insert_ids(&mut executors, edge.source.sources());
        let ghost e1 = id_views(executors@);
        insert_ids(&mut executors, edge.target.targets());
        let ghost old_edges = edges@;
        edges.push(edge);
        proof {
            lemma_set_insert_all(e0, edge.source.ids());
            lemma_set_insert_all(e1, edge.target.ids());
            let ids = id_views(executors@);
            assert forall|j: int, x: Seq<char>| 0 <= j < edges@.len() &&
                #[trigger] edges@[j].source.ids().contains(x) implies ids.contains(x) by {
                if j < old_edges.len() {
                    assert(edges@[j] == old_edges[j]);
                    assert(e0.contains(x));
                }
            }
            assert forall|j: int, x: Seq<char>| 0 <= j < edges@.len() &&
                #[trigger] edges@[j].target.ids().contains(x) implies ids.contains(x) by {
                if j < old_edges.len() {
                    assert(edges@[j] == old_edges[j]);
                    assert(e0.contains(x));
                }
            }
        }
        WorkflowBuilder { id, name, start, executors, edges, executor_metadata }
    }

    /// `self` is `before` with one more edge, whose executors were added;
    /// nothing else changed.
    pub open spec fn adds_one_edge(&self, before: &Self) -> bool {
        &&& self.edge_list().len() == before.edge_list().len() + 1
        &&& self.edge_list().drop_last() == before.edge_list()
        &&& self.executor_texts() == with_endpoints(before.executor_texts(), self.edge_list().last())
        &&& self.id_text() == before.id_text()
        &&& self.name_text() == before.name_text()
        &&& self.start_text() == before.start_text()
        &&& self.metadata() == before.metadata()
    }

    /// Add a direct edge between two executors.
    pub fn add_direct_edge(self, source: impl TextLike, target: impl TextLike) -> (r: Self)
        ensures
            r.adds_one_edge(&self),
            r.edge_list().last().kind == EdgeKind::Direct,
            r.edge_list().last().source.ids() == seq![source.text()],
            r.edge_list().last().target.ids() == seq![target.text()],
    {
        let r = self.add_edge(Edge::direct(source, target));
        assert(r.edge_list().drop_last() =~= self.edge_list());
        r
    }

    /// Add a conditional edge with a condition function and a name.
    pub fn add_conditional_edge<F>(self, source: impl TextLike, target: impl TextLike, condition: F, name: impl TextLike) -> (r: Self) where
        F: Fn(&T) -> bool + Send + Sync + 'static,
        ensures
            r.adds_one_edge(&self),
            r.edge_list().last().kind == EdgeKind::Conditional,
            r.edge_list().last().source.ids() == seq![source.text()],
            r.edge_list().last().target.ids() == seq![target.text()],
            r.edge_list().last().name matches Some(n) && n@ == name.text(),
            r.edge_list().last().logic.has_condition(),
            forall|m: &T| #[trigger] r.edge_list().last().admits(m) <==> call_requires(condition, (m,)),
            forall|m: &T, b: bool| #[trigger] r.edge_list().last().logic.condition_gives(m, b)
                <==> call_ensures(condition, (m,), b),
    {
        let ghost cond = condition;
        let e0 = Edge::conditional(source, target, condition);
        let ghost g0 = e0;
        let edge = e0.with_name(name);
        assert forall|m: &T| #[trigger] edge.admits(m) <==> call_requires(cond, (m,)) by {
            assert(g0.admits(m) == edge.admits(m));
        }
        let r = self.add_edge(edge);
        assert(r.edge_list().drop_last() =~= self.edge_list());
        r
    }

    /// Add a switch edge (routes to one of multiple targets).
    pub fn add_switch_edge<S: TextLike, F>(self, source: S, targets: Vec<impl TextLike>, switch_fn: F) -> (r: Self) where
        F: Fn(&T) -> Option<usize> + Send + Sync + 'static,
        ensures
            r.adds_one_edge(&self),
            r.edge_list().last().kind == EdgeKind::Switch,
            r.edge_list().last().source.ids() == seq![source.text()],
            r.edge_list().last().target.ids() == targets@.map_values(|t| TextLike::text(&t)),
            r.edge_list().last().logic.has_switch(),
            r.edge_list().last().logic.default_index() is None,
            forall|m: &T| #[trigger] r.edge_list().last().admits(m) <==> call_requires(switch_fn, (m,)),
            forall|m: &T, p: Option<usize>| #[trigger] r.edge_list().last().logic.switch_gives(m, p)
                <==> call_ensures(switch_fn, (m,), p),
    {
        let r = self.add_edge(Edge::switch(source, targets, switch_fn));
        assert(r.edge_list().drop_last() =~= self.edge_list());
        r
    }

    /// Add a switch edge with a default target.
    pub fn add_switch_edge_with_default<S: TextLike, F>(
        self,
        source: S,
        targets: Vec<impl TextLike>,
        switch_fn: F,
        default_index: usize,
    ) -> (r: Self) where
        F: Fn(&T) -> Option<usize> + Send + Sync + 'static,
        ensures
            r.adds_one_edge(&self),
            r.edge_list().last().kind == EdgeKind::Switch,
            r.edge_list().last().source.ids() == seq![source.text()],
            r.edge_list().last().target.ids() == targets@.map_values(|t| TextLike::text(&t)),
            r.edge_list().last().logic.has_switch(),
            r.edge_list().last().logic.default_index() == Some(default_index),
            forall|m: &T| #[trigger] r.edge_list().last().admits(m) <==> call_requires(switch_fn, (m,)),
            forall|m: &T, p: Option<usize>| #[trigger] r.edge_list().last().logic.switch_gives(m, p)
                <==> call_ensures(switch_fn, (m,), p),
    {
        let ghost f = switch_fn;
        let e0 = Edge::switch(source, targets, switch_fn);
        let ghost g0 = e0;
        let edge = e0.with_default(default_index);
        assert forall|m: &T| #[trigger] edge.admits(m) <==> call_requires(f, (m,)) by {
            assert(g0.admits(m) == edge.admits(m));
        }
        assert forall|m: &T, p: Option<usize>| #[trigger] edge.logic.switch_gives(m, p) <==> call_ensures(f, (m,), p) by {
            assert(g0.logic.switch_gives(m, p) == edge.logic.switch_gives(m, p));
        }
        let r = self.add_edge(edge);
        assert(r.edge_list().drop_last() =~= self.edge_list());
        r
    }

    /// Add a fan-out edge (routes to all targets).
    pub fn add_fan_out_edge<S: TextLike>(self, source: S, targets: Vec<impl TextLike>) -> (r: Self)
        ensures
            r.adds_one_edge(&self),
            r.edge_list().last().kind == EdgeKind::FanOut,
            r.edge_list().last().source.ids() == seq![source.text()],
            r.edge_list().last().target.ids() == targets@.map_values(|t| TextLike::text(&t)),
            !r.edge_list().last().logic.has_selection(),
    {
        let r = self.add_edge(Edge::fan_out(source, targets));
        assert(r.edge_list().drop_last() =~= self.edge_list());
        r
    }

    /// Add a fan-out edge with dynamic selection.
    pub fn add_fan_out_edge_with_selection<S: TextLike, F>(self, source: S, targets: Vec<impl TextLike>, selection_fn: F) -> (r: Self) where
        F: Fn(&T, usize) -> Vec<usize> + Send + Sync + 'static,
        ensures
            r.adds_one_edge(&self),
            r.edge_list().last().kind == EdgeKind::FanOut,
            r.edge_list().last().source.ids() == seq![source.text()],
            r.edge_list().last().target.ids() == targets@.map_values(|t| TextLike::text(&t)),
            r.edge_list().last().logic.has_selection(),
            forall|m: &T| #[trigger] r.edge_list().last().admits(m)
                <==> call_requires(selection_fn, (m, targets@.len() as usize)),
    {
        let r = self.add_edge(Edge::fan_out_with_selection(source, targets, selection_fn));
        assert(r.edge_list().drop_last() =~= self.edge_list());
        r
    }

    /// Add a fan-in edge (aggregates from multiple sources).
    pub fn add_fan_in_edge<S: TextLike>(self, sources: Vec<S>, target: impl TextLike) -> (r: Self)
        ensures
            r.adds_one_edge(&self),
            r.edge_list().last().kind == EdgeKind::FanIn,
            r.edge_list().last().source.ids() == sources@.map_values(|s: S| s.text()),
            r.edge_list().last().target.ids() == seq![target.text()],
    {
        let r = self.add_edge(Edge::fan_in(sources, target));
        assert(r.edge_list().drop_last() =~= self.edge_list());
        r
    }
}


// ============================================================================
// REACHABILITY
// ============================================================================

/// A sequence without duplicates whose elements all lie in `u` is no longer
/// than the number of distinct elements of `u`.
pub proof fn lemma_distinct_within(s: Seq<Seq<char>>, u: Seq<Seq<char>>)
    requires
        s.no_duplicates(),
        forall|x: Seq<char>| s.contains(x) ==> u.contains(x),
    ensures
        s.len() <= u.to_set().len(),
{
    s.unique_seq_to_set();
    assert(s.to_set().subset_of(u.to_set()));
    vstd::set_lib::lemma_len_subset(s.to_set(), u.to_set());
}

/// The executors that `start` may lead to: itself and every target of an
/// edge.
pub open spec fn reach_universe<T: Send + Sync + 'static>(edges: Seq<Edge<T>>, start: Seq<char>) -> Seq<Seq<char>> {
    seq![start] + all_targets(edges)
}

/// Every executor an edge enters lies in the universe of any start.
proof fn lemma_successor_in_universe<T: Send + Sync + 'static>(edges: Seq<Edge<T>>, start: Seq<char>, a: Seq<char>, b: Seq<char>)
    requires
        is_successor(edges, a, b),
    ensures
        reach_universe(edges, start).contains(b),
{
    lemma_all_targets_contains(edges, b);
    let t = all_targets(edges);
    let k = choose|k: int| 0 <= k < t.len() && t[k] == b;
    assert(reach_universe(edges, start)[k + 1] == b);
}

/// Compute all executors reachable from a given start point: each once.
fn compute_reachable<T: Send + Sync + 'static>(start: &ExecutorId, edges: &EdgeCollection<T>) -> (r: Vec<ExecutorId>)
    ensures
        id_views(r@).no_duplicates(),
        forall|x: Seq<char>| #[trigger] id_views(r@).contains(x) <==> reaches(edges@, start@, x),
{
    let ghost es = edges@;
    let ghost u = reach_universe(es, start@);
    let mut reachable: Vec<ExecutorId> = Vec::new();
    let mut queue: Vec<ExecutorId> = Vec::new();
    queue.push(start.clone());
    proof {
        lemma_reaches_self(es, start@);
        assert(id_views(queue@)[0] == start@);
        assert(u[0] == start@);
        assert(id_views(reachable@) =~= Seq::<Seq<char>>::empty());
    }
    while queue.len() > 0
        invariant
            es == edges@,
            u == reach_universe(es, start@),
            id_views(reachable@).no_duplicates(),
            forall|x: Seq<char>| #[trigger] id_views(reachable@).contains(x) ==> reaches(es, start@, x) && u.contains(x),
            forall|x: Seq<char>| #[trigger] id_views(queue@).contains(x) ==> reaches(es, start@, x) && u.contains(x),
            id_views(reachable@).contains(start@) || id_views(queue@).contains(start@),
            forall|x: Seq<char>, y: Seq<char>|
                id_views(reachable@).contains(x) && #[trigger] is_successor(es, x, y)
                    ==> id_views(reachable@).contains(y) || id_views(queue@).contains(y),
        decreases u.to_set().len() - reachable@.len(), queue.len(),
    {
        proof { lemma_distinct_within(id_views(reachable@), u); }
        let ghost q0 = id_views(queue@);
        let current = queue.pop().unwrap();
        proof {
            assert(q0.last() == current@);
            assert(id_views(queue@) =~= q0.drop_last());
            assert(q0.contains(current@));
            assert forall|y: Seq<char>| q0.contains(y) && y != current@ implies id_views(queue@).contains(y) by {
                let k = choose|k: int| 0 <= k < q0.len() && q0[k] == y;
                assert(k != q0.len() - 1);
                assert(id_views(queue@)[k] == y);
            }
            assert forall|y: Seq<char>| #[trigger] id_views(queue@).contains(y) implies q0.contains(y) by {
                let k = choose|k: int| 0 <= k < id_views(queue@).len() && id_views(queue@)[k] == y;
                assert(q0[k] == y);
            }
        }
        if ids_contain(&reachable, &current) {
            continue;
        }
        let ghost r0 = id_views(reachable@);
        reachable.push(current.clone());
        proof {
            assert(id_views(reachable@) =~= r0.push(current@));
            assert(id_views(reachable@)[r0.len() as int] == current@);
            assert forall|y: Seq<char>| #[trigger] id_views(reachable@).contains(y) <==> (r0.contains(y) || y == current@) by {
                if id_views(reachable@).contains(y) {
                    let k = choose|k: int| 0 <= k < id_views(reachable@).len() && id_views(reachable@)[k] == y;
                    if k < r0.len() {
                        assert(r0[k] == y);
                    }
                }
                if r0.contains(y) {
                    let k = choose|k: int| 0 <= k < r0.len() && r0[k] == y;
                    assert(id_views(reachable@)[k] == y);
                }
            }
        }
        let outs = edges.from_executor(&current);
        let targets = targets_of(&outs);
        let ghost tv = ref_id_views(targets@);
        let ghost qa = id_views(queue@);
        let mut j: usize = 0;
        while j < targets.len()
            invariant
                j <= targets@.len(),
                es == edges@,
                u == reach_universe(es, start@),
                tv == ref_id_views(targets@),
                tv == all_targets(edges_from(es, current@)),
                reaches(es, start@, current@),
                forall|y: Seq<char>| qa.contains(y) ==> #[trigger] id_views(queue@).contains(y),
                forall|x: Seq<char>| #[trigger] id_views(queue@).contains(x) ==> reaches(es, start@, x) && u.contains(x),
                forall|m: int| 0 <= m < j ==> id_views(reachable@).contains(#[trigger] tv[m]) || id_views(queue@).contains(tv[m]),
            decreases targets.len() - j,
        {
            let t = targets[j];
            assert(tv[j as int] == t@);
            let ghost qj = id_views(queue@);
            assert(forall|x: Seq<char>| #[trigger] qj.contains(x) ==> reaches(es, start@, x) && u.contains(x));
            proof {
                assert(all_targets(edges_from(es, current@)).contains(t@));
                lemma_successors_of(es, current@, t@);
                lemma_reaches_step(es, start@, current@, t@);
                lemma_successor_in_universe(es, start@, current@, t@);
            }
            if !ids_contain(&reachable, t) {
                let ghost qb = id_views(queue@);
                queue.push(t.clone());
                proof {
                    assert(id_views(queue@) =~= qb.push(t@));
                    assert(id_views(queue@)[qb.len() as int] == t@);
                    assert forall|y: Seq<char>| qb.contains(y) implies #[trigger] id_views(queue@).contains(y) by {
                        let k = choose|k: int| 0 <= k < qb.len() && qb[k] == y;
                        assert(id_views(queue@)[k] == y);
                    }
                    assert forall|x: Seq<char>| #[trigger] id_views(queue@).contains(x) implies reaches(es, start@, x) && u.contains(x) by {
                        let k = choose|k: int| 0 <= k < id_views(queue@).len() && id_views(queue@)[k] == x;
                        if k < qb.len() {
                            assert(qb[k] == x);
                            assert(qb.contains(x));
                        } else {
                            assert(x == t@);
                        }
                    }
                }
            }
            j = j + 1;
        }
        proof {
            assert forall|x: Seq<char>, y: Seq<char>|
                id_views(reachable@).contains(x) && #[trigger] is_successor(es, x, y)
                    implies id_views(reachable@).contains(y) || id_views(queue@).contains(y) by {
                if x == current@ {
                    lemma_successors_of(es, current@, y);
                    let m = choose|m: int| 0 <= m < tv.len() && tv[m] == y;
                } else {
                    assert(r0.contains(x));
                    if !r0.contains(y) && y != current@ {
                        assert(q0.contains(y));
                        assert(qa.contains(y));
                    }
                }
            }
            lemma_distinct_within(id_views(reachable@), u);
        }
    }
    proof {
        assert(id_views(queue@).len() == 0);
        assert forall|x: Seq<char>, y: Seq<char>| id_views(reachable@).contains(x) && #[trigger] is_successor(es, x, y)
            implies id_views(reachable@).contains(y) by {
            if id_views(queue@).contains(y) {
                let k = choose|k: int| 0 <= k < id_views(queue@).len() && id_views(queue@)[k] == y;
            }
        }
        assert(closed_under_successors(es, id_views(reachable@)));
        assert forall|x: Seq<char>| #[trigger] id_views(reachable@).contains(x) <==> reaches(es, start@, x) by {
            if reaches(es, start@, x) {
                if id_views(queue@).contains(start@) {
                    let k = choose|k: int| 0 <= k < id_views(queue@).len() && id_views(queue@)[k] == start@;
                }
                lemma_closed_holds_reached(es, id_views(reachable@), start@, x);
            }
        }
    }
    reachable
}


// ============================================================================
// BUILD
// ============================================================================

/// The texts of a sequence of string slices.
pub open spec fn str_views(v: Seq<&str>) -> Seq<Seq<char>> {
    v.map_values(|s: &str| s@)
}

/// The text of an optional string.
pub open spec fn opt_text(o: Option<String>) -> Option<Seq<char>> {
    match o {
        Some(s) => Some(s@),
        None => None,
    }
}

/// The executors of `ids` that `start` does not reach, in order.
pub open spec fn unreachable_among<T: Send + Sync + 'static>(edges: Seq<Edge<T>>, start: Seq<char>, ids: Seq<Seq<char>>) -> Seq<Seq<char>> {
    ids.filter(|x: Seq<char>| !reaches(edges, start, x))
}

/// How Rust's `Debug` writes a list of strings: in brackets, each quoted and
/// escaped, separated by commas.
pub uninterp spec fn debug_list_text(items: Seq<Seq<char>>) -> Seq<char>;

/// Calls `format!("{:?}", ..)` on a list of string slices, which writes the
/// list as Rust's `Debug` does. The contract names the result; it claims
/// only that equal lists give equal text.
#[verifier::external_body]
fn debug_list(items: &Vec<&str>) -> (r: String)
    ensures
        r@ == debug_list_text(str_views(items@)),
{
    format!("{:?}", items)
}

impl<T: Send + Sync + 'static> WorkflowDefinition<T> {
    /// Each executor is listed once, the start executor is listed, every
    /// executor an edge connects is listed, and the start executor reaches
    /// every listed executor.
    pub open spec fn well_formed(&self) -> bool {
        &&& id_views(self.executors@).no_duplicates()
        &&& id_views(self.executors@).contains(self.start@)
        &&& endpoints_within(self.edges@, id_views(self.executors@))
        &&& forall|x: Seq<char>| #[trigger] id_views(self.executors@).contains(x) ==> reaches(self.edges@, self.start@, x)
    }
}

impl<T: Send + Sync + 'static> WorkflowBuilder<T> {
    /// Build the workflow definition.
    ///
    /// Fails when the start executor is not set, or when some executor
    /// cannot be reached from it; the message names those executors.
    pub fn build(self) -> (r: GraphResult<WorkflowDefinition<T>>)
        ensures
            match self.start_text() {
                None => r matches Err(GraphError::ValidationError(m)) && m@ == "Start executor not set"@,
                Some(s) => {
                    let unreachable = unreachable_among(self.edge_list(), s, self.executor_texts());
                    if unreachable.len() > 0 {
                        r matches Err(GraphError::ValidationError(m))
                            && m@ == "Unreachable executors from start: "@ + debug_list_text(unreachable)
                    } else {
                        r matches Ok(w) && w.id@ == self.id_text() && opt_text(w.name) == self.name_text()
                            && w.start@ == s && id_views(w.executors@) == self.executor_texts()
                            && w.edges@ == self.edge_list() && w.executor_metadata@ == self.metadata()
                            && w.well_formed()
                    }
                },
            },
    {
        proof { use_type_invariant(&self); }
        let WorkflowBuilder { id, name, start, executors, mut edges, executor_metadata } = self;
        let start = match start {
            Some(s) => s,
            None => {
                return Err(GraphError::ValidationError(to_owned("Start executor not set")));
            },
        };
        if !ids_contain(&executors, &start) {
            let mut m = String::new();
            append(&mut m, "Start executor '");
            append(&mut m, start.as_str());
            append(&mut m, "' not found in executor list");
            return Err(GraphError::ValidationError(m));
        }
        let mut i: usize = 0;
        while i < edges.len()
            invariant
                i <= edges@.len(),
                endpoints_within(edges@, id_views(executors@)),
            decreases edges.len() - i,
        {
            let srcs = edges[i].source.sources();
            let mut k: usize = 0;
            while k < srcs.len()
                invariant
                    i < edges@.len(),
                    k <= srcs@.len(),
                    ref_id_views(srcs@) == edges@[i as int].source.ids(),
                    endpoints_within(edges@, id_views(executors@)),
                decreases srcs.len() - k,
            {
                assert(edges@[i as int].source.ids()[k as int] == srcs@[k as int]@);
                assert(edges@[i as int].source.ids().contains(srcs@[k as int]@));
                if !ids_contain(&executors, srcs[k]) {
                    let mut m = String::new();
                    append(&mut m, "Edge '");
                    append(&mut m, edges[i].id.as_str());
                    append(&mut m, "' references unknown source executor '");
                    append(&mut m, srcs[k].as_str());
                    append(&mut m, "'");
                    return Err(GraphError::ValidationError(m));
                }
                k = k + 1;
            }
            let tgts = edges[i].target.targets();
            let mut k: usize = 0;
            while k < tgts.len()
                invariant
                    i < edges@.len(),
                    k <= tgts@.len(),
                    ref_id_views(tgts@) == edges@[i as int].target.ids(),
                    endpoints_within(edges@, id_views(executors@)),
                decreases tgts.len() - k,
            {
                assert(edges@[i as int].target.ids()[k as int] == tgts@[k as int]@);
                assert(edges@[i as int].target.ids().contains(tgts@[k as int]@));
                if !ids_contain(&executors, tgts[k]) {
                    let mut m = String::new();
                    append(&mut m, "Edge '");
                    append(&mut m, edges[i].id.as_str());
                    append(&mut m, "' references unknown target executor '");
                    append(&mut m, tgts[k].as_str());
                    append(&mut m, "'");
                    return Err(GraphError::ValidationError(m));
                }
                k = k + 1;
            }
            i = i + 1;
        }
        let ghost all_edges = edges@;
        let mut edge_collection: EdgeCollection<T> = EdgeCollection::new();
        while edges.len() > 0
            invariant
                edge_collection@ + edges@ == all_edges,
            decreases edges.len(),
        {
            let ghost before = edges@;
            let e = edges.remove(0);
            edge_collection.add(e);
            assert(edge_collection@ + edges@ =~= all_edges) by {
                assert(before =~= seq![e] + edges@);
            }
        }
        assert(edge_collection@ =~= all_edges);
        let reachable = compute_reachable(&start, &edge_collection);
        let ghost pred = |x: Seq<char>| !reaches(all_edges, start@, x);
        let ghost ids = id_views(executors@);
        let mut unreachable: Vec<&str> = Vec::new();
        let mut i: usize = 0;
        while i < executors.len()
            invariant
                i <= executors@.len(),
                ids == id_views(executors@),
                pred == (|x: Seq<char>| !reaches(all_edges, start@, x)),
                edge_collection@ == all_edges,
                forall|x: Seq<char>| #[trigger] id_views(reachable@).contains(x) <==> reaches(all_edges, start@, x),
                str_views(unreachable@) == ids.take(i as int).filter(pred),
            decreases executors.len() - i,
        {
            let ghost before = unreachable@;
            if !ids_contain(&reachable, &executors[i]) {
                unreachable.push(executors[i].as_str());
            }
            proof {
                let t = ids.take(i + 1);
                assert(t.drop_last() =~= ids.take(i as int));
                assert(t.last() == executors@[i as int]@);
                reveal(Seq::filter);
                assert(str_views(unreachable@) =~= t.filter(pred));
            }
            i = i + 1;
        }
        assert(ids.take(ids.len() as int) =~= ids);
        if unreachable.len() > 0 {
            let mut m = String::new();
            append(&mut m, "Unreachable executors from start: ");
            let listed = debug_list(&unreachable);
            append(&mut m, listed.as_str());
            return Err(GraphError::ValidationError(m));
        }
        proof {
            assert forall|x: Seq<char>| #[trigger] ids.contains(x) implies reaches(all_edges, start@, x) by {
                let k = choose|k: int| 0 <= k < ids.len() && ids[k] == x;
                if !reaches(all_edges, start@, x) {
                    ids.lemma_filter_contains(pred, k);
                    assert(ids.filter(pred).contains(x));
                }
            }
        }
        Ok(WorkflowDefinition {
            id,
            name,
            start,
            executors,
            edges: edge_collection,
            executor_metadata,
        })
    }
}


// ============================================================================
// CYCLES
// ============================================================================

/// Every successor of an executor in `order` comes earlier in `order`.
pub open spec fn finish_ordered<T: Send + Sync + 'static>(edges: Seq<Edge<T>>, order: Seq<Seq<char>>) -> bool {
    forall|k: int, y: Seq<char>|
        0 <= k < order.len() && #[trigger] is_successor(edges, order[k], y) ==> order.take(k).contains(y)
}

/// `p` is a walk whose last executor occurs earlier on it: the walk from
/// that earlier occurrence to the end is a cycle.
pub open spec fn is_cycle_witness<T: Send + Sync + 'static>(edges: Seq<Edge<T>>, p: Seq<Seq<char>>) -> bool {
    &&& is_path(edges, p)
    &&& p.len() >= 2
    &&& p.drop_last().contains(p.last())
}

/// No walk that starts at one of `ids` visits an executor twice.
pub open spec fn acyclic_from<T: Send + Sync + 'static>(edges: Seq<Edge<T>>, ids: Seq<Seq<char>>) -> bool {
    forall|p: Seq<Seq<char>>| #[trigger] is_path(edges, p) && ids.contains(p[0]) ==> p.no_duplicates()
}

/// The executors a search of the workflow can meet: the listed ones and
/// every target of an edge.
pub open spec fn node_universe<T: Send + Sync + 'static>(w: &WorkflowDefinition<T>) -> Seq<Seq<char>> {
    id_views(w.executors@) + all_targets(w.edges@)
}

/// Neither sequence repeats an element, and they share none.
pub open spec fn disjoint_distinct(a: Seq<Seq<char>>, b: Seq<Seq<char>>) -> bool {
    &&& a.no_duplicates()
    &&& b.no_duplicates()
    &&& forall|x: Seq<char>| #[trigger] a.contains(x) ==> !b.contains(x)
}

/// Two disjoint sequences without duplicates inside `u` hold together at
/// most as many elements as `u` has distinct ones.
proof fn lemma_disjoint_within(a: Seq<Seq<char>>, b: Seq<Seq<char>>, u: Seq<Seq<char>>)
    requires
        disjoint_distinct(a, b),
        forall|x: Seq<char>| #[trigger] a.contains(x) ==> u.contains(x),
        forall|x: Seq<char>| #[trigger] b.contains(x) ==> u.contains(x),
    ensures
        a.len() + b.len() <= u.to_set().len(),
{
    assert forall|i: int, j: int| 0 <= i < a.len() && 0 <= j < b.len() implies a[i] != b[j] by {
        assert(a.contains(a[i]));
        assert(b.contains(b[j]));
    }
    vstd::seq_lib::lemma_no_dup_in_concat(a, b);
    assert forall|x: Seq<char>| (a + b).contains(x) implies u.contains(x) by {
        let k = choose|k: int| 0 <= k < (a + b).len() && (a + b)[k] == x;
        if k < a.len() {
            assert(a[k] == x);
            assert(a.contains(x));
        } else {
            assert(b[k - a.len()] == x);
            assert(b.contains(x));
        }
    }
    lemma_distinct_within(a + b, u);
}

/// Along a walk from an executor of a finish-ordered list, each executor is
/// in the list, strictly before the ones met earlier on the walk.
proof fn lemma_walk_descends<T: Send + Sync + 'static>(edges: Seq<Edge<T>>, order: Seq<Seq<char>>, p: Seq<Seq<char>>, n: int)
    requires
        finish_ordered(edges, order),
        order.no_duplicates(),
        is_path(edges, p),
        order.contains(p[0]),
        1 <= n <= p.len(),
    ensures
        forall|i: int| 0 <= i < n ==> order.contains(#[trigger] p[i]),
        forall|i: int, j: int| 0 <= j < i < n ==> order.index_of(#[trigger] p[i]) < order.index_of(#[trigger] p[j]),
    decreases n,
{
    if n > 1 {
        lemma_walk_descends(edges, order, p, n - 1);
        let a = order.index_of(p[n - 2]);
        assert(order.contains(p[n - 2]));
        assert(0 <= a < order.len() && order[a] == p[n - 2]);
        assert(steps_at(edges, p, n - 2));
        assert(is_successor(edges, order[a], p[n - 1]));
        assert(order.take(a).contains(p[n - 1]));
        let m = choose|m: int| 0 <= m < order.take(a).len() && order.take(a)[m] == p[n - 1];
        assert(order[m] == p[n - 1]);
        assert(order.contains(p[n - 1]));
        let b = order.index_of(p[n - 1]);
        assert(order[b] == p[n - 1]);
        assert(b == m);
        assert forall|i: int| 0 <= i < n implies order.contains(#[trigger] p[i]) by {
            if i < n - 1 {
                assert(order.contains(p[i]));
            }
        }
        assert forall|i: int, j: int| 0 <= j < i < n implies order.index_of(#[trigger] p[i]) < order.index_of(#[trigger] p[j]) by {
            if i == n - 1 && j < n - 2 {
                assert(order.index_of(p[n - 2]) < order.index_of(p[j]));
            }
        }
    }
}

/// A finish-ordered list: no walk from one of its executors repeats one.
pub proof fn lemma_finish_ordered_acyclic<T: Send + Sync + 'static>(edges: Seq<Edge<T>>, order: Seq<Seq<char>>, p: Seq<Seq<char>>)
    requires
        finish_ordered(edges, order),
        order.no_duplicates(),
        is_path(edges, p),
        order.contains(p[0]),
    ensures
        p.no_duplicates(),
{
    lemma_walk_descends(edges, order, p, p.len() as int);
    assert forall|i: int, j: int| 0 <= i < p.len() && 0 <= j < p.len() && i != j implies p[i] != p[j] by {
        if i < j {
            assert(order.index_of(p[j]) < order.index_of(p[i]));
        } else {
            assert(order.index_of(p[i]) < order.index_of(p[j]));
        }
    }
}

/// Depth-first search from `node`: `rec_stack` and `path` hold the walk
/// being explored, `visited` the executors whose search has finished, in
/// the order it finished. Returns whether a cycle was found, leaving in
/// `path` a walk that closes it.
fn detect_cycle_util<T: Send + Sync + 'static>(
    workflow: &WorkflowDefinition<T>,
    node: &ExecutorId,
    visited: &mut Vec<ExecutorId>,
    rec_stack: &mut Vec<ExecutorId>,
    path: &mut Vec<ExecutorId>,
) -> (found: bool)
    requires
        id_views(old(rec_stack)@) == id_views(old(path)@),
        disjoint_distinct(id_views(old(visited)@), id_views(old(path)@)),
        forall|x: Seq<char>| #[trigger] id_views(old(visited)@).contains(x) ==> node_universe(workflow).contains(x),
        forall|x: Seq<char>| #[trigger] id_views(old(path)@).contains(x) ==> node_universe(workflow).contains(x),
        node_universe(workflow).contains(node@),
        finish_ordered(workflow.edges@, id_views(old(visited)@)),
        old(path)@.len() > 0 ==> is_path(workflow.edges@, id_views(old(path)@))
            && is_successor(workflow.edges@, id_views(old(path)@).last(), node@),
    ensures
        found ==> {
            let p = id_views(final(path)@);
            &&& is_cycle_witness(workflow.edges@, p)
            &&& id_views(old(path)@).is_prefix_of(p)
            &&& p.len() > old(path)@.len()
            &&& p[old(path)@.len() as int] == node@
        },
        !found ==> {
            &&& id_views(final(path)@) == id_views(old(path)@)
            &&& id_views(final(rec_stack)@) == id_views(old(rec_stack)@)
            &&& id_views(old(visited)@).is_prefix_of(id_views(final(visited)@))
            &&& id_views(final(visited)@).contains(node@)
            &&& disjoint_distinct(id_views(final(visited)@), id_views(old(path)@))
            &&& forall|x: Seq<char>| #[trigger] id_views(final(visited)@).contains(x) ==> node_universe(workflow).contains(x)
            &&& finish_ordered(workflow.edges@, id_views(final(visited)@))
        },
    decreases node_universe(workflow).to_set().len() - visited@.len() - path@.len(),
{
    let ghost es = workflow.edges@;
    let ghost u = node_universe(workflow);
    let ghost p0 = id_views(path@);
    let ghost v0 = id_views(visited@);
    proof { lemma_disjoint_within(v0, p0, u); }
    if ids_contain(rec_stack, node) {
        path.push(node.clone());
        proof {
            let p = id_views(path@);
            assert(p =~= p0.push(node@));
            assert(p.drop_last() =~= p0);
            if p0.len() > 0 {
                lemma_path_push(es, p0, node@);
            }
            assert(p0.is_prefix_of(p));
        }
        return true;
    }
    if ids_contain(visited, node) {
        assert(v0.is_prefix_of(v0));
        return false;
    }
    rec_stack.push(node.clone());
    path.push(node.clone());
    let ghost p1 = id_views(path@);
    proof {
        assert(p1 =~= p0.push(node@));
        assert(id_views(rec_stack@) =~= p1);
        if p0.len() > 0 {
            lemma_path_push(es, p0, node@);
        } else {
            assert(is_path(es, p1));
        }
        assert(p1[p0.len() as int] == node@);
        assert forall|x: Seq<char>| #[trigger] p1.contains(x) <==> (p0.contains(x) || x == node@) by {
            if p1.contains(x) {
                let k = choose|k: int| 0 <= k < p1.len() && p1[k] == x;
                if k < p0.len() {
                    assert(p0[k] == x);
                }
            }
            if p0.contains(x) {
                let k = choose|k: int| 0 <= k < p0.len() && p0[k] == x;
                assert(p1[k] == x);
            }
        }
        assert(disjoint_distinct(v0, p1));
    }
    let succs = workflow.successors(node);
    let ghost sv = ref_id_views(succs@);
    let mut i: usize = 0;
    while i < succs.len()
        invariant
            i <= succs@.len(),
            es == workflow.edges@,
            u == node_universe(workflow),
            sv == ref_id_views(succs@),
            sv == all_targets(edges_from(es, node@)),
            id_views(path@) == p1,
            id_views(rec_stack@) == p1,
            p0 == id_views(old(path)@),
            v0 == id_views(old(visited)@),
            p0.len() == old(path)@.len(),
            v0.len() == old(visited)@.len(),
            is_path(es, p1),
            p1 == p0.push(node@),
            v0.is_prefix_of(id_views(visited@)),
            !id_views(visited@).contains(node@),
            disjoint_distinct(id_views(visited@), p1),
            forall|x: Seq<char>| #[trigger] id_views(visited@).contains(x) ==> u.contains(x),
            forall|x: Seq<char>| #[trigger] p1.contains(x) ==> u.contains(x),
            finish_ordered(es, id_views(visited@)),
            forall|m: int| 0 <= m < i ==> id_views(visited@).contains(#[trigger] sv[m]),
            u.to_set().len() - visited@.len() - path@.len() < u.to_set().len() - v0.len() - p0.len(),
        decreases succs.len() - i,
    {
        let s = succs[i];
        proof {
            assert(sv[i as int] == s@);
            assert(sv.contains(s@));
            lemma_successors_of(es, node@, s@);
            lemma_all_targets_contains(es, s@);
            let t = all_targets(es);
            let k = choose|k: int| 0 <= k < t.len() && t[k] == s@;
            assert(u[id_views(workflow.executors@).len() + k] == s@);
            assert(p1.last() == node@);
        }
        let ghost vb = id_views(visited@);
        proof {
            lemma_disjoint_within(vb, p1, u);
            assert(vb.len() == visited@.len());
            assert(p1.len() == path@.len());
        }
        if detect_cycle_util(workflow, s, visited, rec_stack, path) {
            proof {
                let p = id_views(path@);
                assert(p1 =~= p.subrange(0, p1.len() as int));
                assert(p0.is_prefix_of(p)) by {
                    assert forall|k: int| 0 <= k < p0.len() implies p0[k] == p[k] by {
                        assert(p1[k] == p0[k]);
                        assert(p1[k] == p.subrange(0, p1.len() as int)[k]);
                    }
                }
                assert(p[p0.len() as int] == p1[p0.len() as int]) by {
                    assert(p1[p0.len() as int] == p.subrange(0, p1.len() as int)[p0.len() as int]);
                }
            }
            return true;
        }
        proof {
            let v = id_views(visited@);
            assert(v0.is_prefix_of(v)) by {
                assert forall|k: int| 0 <= k < v0.len() implies v0[k] == v[k] by {
                    assert(vb[k] == v0[k]);
                }
            }
            assert forall|m: int| 0 <= m < i + 1 implies v.contains(#[trigger] sv[m]) by {
                if m < i {
                    assert(vb.contains(sv[m]));
                    let k = choose|k: int| 0 <= k < vb.len() && vb[k] == sv[m];
                    assert(v[k] == sv[m]);
                }
            }
            assert(!v.contains(node@)) by {
                assert(p1.contains(node@));
            }
        }
        i = i + 1;
    }
    let ghost vc = id_views(visited@);
    let ghost pp = path@;
    let ghost rp = rec_stack@;
    path.pop();
    rec_stack.pop();
    visited.push(node.clone());
    proof {
        let v = id_views(visited@);
        assert(path@ =~= pp.drop_last());
        assert(rec_stack@ =~= rp.drop_last());
        assert forall|k: int| 0 <= k < p0.len() implies id_views(path@)[k] == p0[k] by {
            assert(id_views(path@)[k] == pp[k]@);
            assert(p1[k] == pp[k]@);
        }
        assert forall|k: int| 0 <= k < p0.len() implies id_views(rec_stack@)[k] == p0[k] by {
            assert(id_views(rec_stack@)[k] == rp[k]@);
            assert(p1[k] == rp[k]@);
        }
        assert(id_views(path@) =~= p0);
        assert(id_views(rec_stack@) =~= p0);
        assert(v =~= vc.push(node@));
        assert(v0.is_prefix_of(v)) by {
            assert forall|k: int| 0 <= k < v0.len() implies v0[k] == v[k] by {
                assert(vc[k] == v0[k]);
            }
        }
        assert(v[vc.len() as int] == node@);
        assert forall|x: Seq<char>| #[trigger] v.contains(x) <==> (vc.contains(x) || x == node@) by {
            if v.contains(x) {
                let k = choose|k: int| 0 <= k < v.len() && v[k] == x;
                if k < vc.len() {
                    assert(vc[k] == x);
                }
            }
            if vc.contains(x) {
                let k = choose|k: int| 0 <= k < vc.len() && vc[k] == x;
                assert(v[k] == x);
            }
        }
        assert forall|x: Seq<char>| #[trigger] v.contains(x) implies !p0.contains(x) by {
            if x == node@ {
                assert(!vc.contains(node@));
                if p0.contains(x) {
                    assert(p1.contains(x));
                    let a = choose|a: int| 0 <= a < p0.len() && p0[a] == x;
                    assert(p1[a] == x && p1[p0.len() as int] == x);
                }
            } else {
                assert(vc.contains(x));
                assert(!p1.contains(x));
            }
        }
        assert(v.no_duplicates()) by {
            assert forall|a: int, b: int| 0 <= a < v.len() && 0 <= b < v.len() && a != b implies v[a] != v[b] by {
                if a < vc.len() && b < vc.len() {
                    assert(vc[a] == v[a] && vc[b] == v[b]);
                } else if a < vc.len() {
                    assert(vc.contains(v[a]));
                } else if b < vc.len() {
                    assert(vc.contains(v[b]));
                }
            }
        }
        assert forall|k: int, y: Seq<char>| 0 <= k < v.len() && #[trigger] is_successor(es, v[k], y)
            implies v.take(k).contains(y) by {
            if k < vc.len() {
                assert(v.take(k) =~= vc.take(k));
                assert(vc[k] == v[k]);
            } else {
                assert(v.take(k) =~= vc);
                lemma_successors_of(es, node@, y);
                let m = choose|m: int| 0 <= m < sv.len() && sv[m] == y;
                assert(vc.contains(sv[m]));
            }
        }
    }
    false
}

/// Detect cycles in the workflow graph, searching from each executor in
/// turn: a walk that closes a cycle, or `None` when no walk from an executor
/// repeats one.
fn detect_cycle<T: Send + Sync + 'static>(workflow: &WorkflowDefinition<T>) -> (r: Option<Vec<ExecutorId>>)
    ensures
        match r {
            Some(c) => is_cycle_witness(workflow.edges@, id_views(c@))
                && id_views(workflow.executors@).contains(id_views(c@)[0]),
            None => acyclic_from(workflow.edges@, id_views(workflow.executors@)),
        },
{
    let ghost es = workflow.edges@;
    let ghost ids = id_views(workflow.executors@);
    let mut visited: Vec<ExecutorId> = Vec::new();
    let mut rec_stack: Vec<ExecutorId> = Vec::new();
    let mut path: Vec<ExecutorId> = Vec::new();
    proof {
        assert(id_views(visited@) =~= Seq::<Seq<char>>::empty());
        assert(id_views(path@) =~= Seq::<Seq<char>>::empty());
        assert(id_views(rec_stack@) =~= Seq::<Seq<char>>::empty());
    }
    let mut i: usize = 0;
    while i < workflow.executors.len()
        invariant
            i <= workflow.executors@.len(),
            es == workflow.edges@,
            ids == id_views(workflow.executors@),
            path@.len() == 0,
            id_views(path@) == Seq::<Seq<char>>::empty(),
            id_views(rec_stack@) == Seq::<Seq<char>>::empty(),
            disjoint_distinct(id_views(visited@), Seq::<Seq<char>>::empty()),
            forall|x: Seq<char>| #[trigger] id_views(visited@).contains(x) ==> node_universe(workflow).contains(x),
            finish_ordered(es, id_views(visited@)),
            forall|m: int| 0 <= m < i ==> id_views(visited@).contains(#[trigger] ids[m]),
        decreases workflow.executors.len() - i,
    {
        assert(node_universe(workflow)[i as int] == ids[i as int]);
        let ghost vb = id_views(visited@);
        if detect_cycle_util(workflow, &workflow.executors[i], &mut visited, &mut rec_stack, &mut path) {
            proof {
                assert(id_views(path@)[0] == ids[i as int]);
            }
            return Some(path);
        }
        proof {
            let v = id_views(visited@);
            assert forall|m: int| 0 <= m < i + 1 implies v.contains(#[trigger] ids[m]) by {
                if m < i {
                    let k = choose|k: int| 0 <= k < vb.len() && vb[k] == ids[m];
                    assert(v[k] == ids[m]);
                }
            }
            assert(id_views(path@) =~= Seq::<Seq<char>>::empty());
        }
        i = i + 1;
    }
    proof {
        let v = id_views(visited@);
        assert forall|p: Seq<Seq<char>>| #[trigger] is_path(es, p) && ids.contains(p[0]) implies p.no_duplicates() by {
            let k = choose|k: int| 0 <= k < ids.len() && ids[k] == p[0];
            assert(v.contains(ids[k]));
            lemma_finish_ordered_acyclic(es, v, p);
        }
    }
    None
}


// ============================================================================
// VALIDATION
// ============================================================================

/// Validation result for workflow graphs.
#[derive(Debug)]
pub struct ValidationReport {
    /// List of errors found.
    pub errors: Vec<String>,
    /// List of warnings (non-fatal issues).
    pub warnings: Vec<String>,
}

impl ValidationReport {
    /// Create a new empty report.
    pub fn new() -> (r: Self)
        ensures
            r.errors@ == Seq::<String>::empty(),
            r.warnings@ == Seq::<String>::empty(),
    {
        ValidationReport { errors: Vec::new(), warnings: Vec::new() }
    }

    /// Check if validation passed (no errors).
    pub fn is_valid(&self) -> (b: bool)
        ensures
            b == (self.errors@.len() == 0),
    {
        self.errors.len() == 0
    }

    /// Add an error.
    pub fn add_error(&mut self, msg: impl TextLike)
        ensures
            views(final(self).errors@) == views(old(self).errors@).push(msg.text()),
            final(self).warnings@ == old(self).warnings@,
    {
        let ghost before = self.errors@;
        let m = msg.into_string();
        let ghost mv = m@;
        self.errors.push(m);
        assert(views(self.errors@) =~= views(before).push(mv));
    }

    /// Add a warning.
    pub fn add_warning(&mut self, msg: impl TextLike)
        ensures
            views(final(self).warnings@) == views(old(self).warnings@).push(msg.text()),
            final(self).errors@ == old(self).errors@,
    {
        let ghost before = self.warnings@;
        let m = msg.into_string();
        let ghost mv = m@;
        self.warnings.push(m);
        assert(views(self.warnings@) =~= views(before).push(mv));
    }
}

impl Default for ValidationReport {
    fn default() -> (r: Self)
        ensures
            r.errors@ == Seq::<String>::empty(),
            r.warnings@ == Seq::<String>::empty(),
    {
        Self::new()
    }
}

/// The warning for an executor that no edge enters.
pub open spec fn orphan_warning(x: Seq<char>) -> Seq<char> {
    "Executor '"@ + x + "' has no incoming edges (unreachable except as start)"@
}

/// The warning for a walk that closes a cycle.
pub open spec fn cycle_warning(c: Seq<Seq<char>>) -> Seq<char> {
    "Potential cycle detected: "@ + join(c, " → "@) + " (may be intentional for retry logic)"@
}

/// The warning for a workflow without terminal executors.
pub open spec fn no_terminal_warning() -> Seq<char> {
    "No terminal executors found (workflow may never complete)"@
}

/// The executors other than the start that no edge enters, in order.
pub open spec fn orphans<T: Send + Sync + 'static>(w: &WorkflowDefinition<T>) -> Seq<Seq<char>> {
    id_views(w.executors@).filter(|x: Seq<char>| x != w.start@ && all_sources(edges_to(w.edges@, x)).len() == 0)
}

/// The warnings of a validation, given the cycle its search found, if any.
pub open spec fn expected_warnings<T: Send + Sync + 'static>(w: &WorkflowDefinition<T>, cycle: Option<Seq<Seq<char>>>) -> Seq<Seq<char>> {
    let cycle_part = match cycle {
        Some(c) => seq![cycle_warning(c)],
        None => Seq::empty(),
    };
    let terminal_part = if terminals_among(w.edges@, id_views(w.executors@)).len() == 0 {
        seq![no_terminal_warning()]
    } else {
        Seq::empty()
    };
    orphans(w).map_values(|x: Seq<char>| orphan_warning(x)) + cycle_part + terminal_part
}

/// What a cycle search may answer: a walk from an executor that closes a
/// cycle, or nothing when no walk from an executor repeats one.
pub open spec fn cycle_answer<T: Send + Sync + 'static>(w: &WorkflowDefinition<T>, cycle: Option<Seq<Seq<char>>>) -> bool {
    match cycle {
        Some(c) => is_cycle_witness(w.edges@, c) && id_views(w.executors@).contains(c[0]),
        None => acyclic_from(w.edges@, id_views(w.executors@)),
    }
}

/// Validate a workflow definition. It reports no errors; it warns of
/// executors other than the start that no edge enters, of a cycle, and of
/// a workflow without terminal executors.
pub fn validate_workflow<T: Send + Sync + 'static>(workflow: &WorkflowDefinition<T>) -> (r: ValidationReport)
    ensures
        r.errors@.len() == 0,
        exists|cycle: Option<Seq<Seq<char>>>|
            #[trigger] expected_warnings(workflow, cycle) == views(r.warnings@) && cycle_answer(workflow, cycle),
{
    let mut report = ValidationReport::new();
    let ghost ids = id_views(workflow.executors@);
    let ghost pred = |x: Seq<char>| x != workflow.start@ && all_sources(edges_to(workflow.edges@, x)).len() == 0;
    assert(views(report.warnings@) =~= Seq::<Seq<char>>::empty());
    let mut i: usize = 0;
    while i < workflow.executors.len()
        invariant
            i <= workflow.executors@.len(),
            ids == id_views(workflow.executors@),
            pred == (|x: Seq<char>| x != workflow.start@ && all_sources(edges_to(workflow.edges@, x)).len() == 0),
            report.errors@.len() == 0,
            views(report.warnings@) == ids.take(i as int).filter(pred).map_values(|x: Seq<char>| orphan_warning(x)),
        decreases workflow.executors.len() - i,
    {
        let ghost before = ids.take(i as int).filter(pred);
        let id = &workflow.executors[i];
        if !(*id == workflow.start) && workflow.predecessors(id).len() == 0 {
            let mut m = String::new();
            append(&mut m, "Executor '");
            append(&mut m, id.as_str());
            append(&mut m, "' has no incoming edges (unreachable except as start)");
            report.add_warning(m);
        }
        proof {
            let t = ids.take(i + 1);
            assert(t.drop_last() =~= ids.take(i as int));
            assert(t.last() == id@);
            reveal(Seq::filter);
            if pred(id@) {
                assert(t.filter(pred) == before.push(id@));
                assert(before.push(id@).map_values(|x: Seq<char>| orphan_warning(x))
                    =~= before.map_values(|x: Seq<char>| orphan_warning(x)).push(orphan_warning(id@)));
            } else {
                assert(t.filter(pred) == before);
            }
        }
        i = i + 1;
    }
    assert(ids.take(ids.len() as int) =~= ids);
    let ghost orphan_part = views(report.warnings@);
    let found = detect_cycle(workflow);
    let ghost cycle: Option<Seq<Seq<char>>> = match &found {
        Some(c) => Some(id_views(c@)),
        None => None,
    };
    match found {
        Some(c) => {
            let mut names: Vec<String> = Vec::new();
            let mut k: usize = 0;
            while k < c.len()
                invariant
                    k <= c@.len(),
                    views(names@) == id_views(c@).take(k as int),
                decreases c.len() - k,
            {
                let ghost before = views(names@);
                let name = c[k].to_string();
                let ghost nv = name@;
                names.push(name);
                proof {
                    assert(views(names@) =~= before.push(nv));
                    assert(id_views(c@).take(k + 1) =~= id_views(c@).take(k as int).push(nv));
                }
                k = k + 1;
            }
            assert(id_views(c@).take(c@.len() as int) =~= id_views(c@));
            let joined = join_strings(names.as_slice(), " → ");
            let mut m = String::new();
            append(&mut m, "Potential cycle detected: ");
            append(&mut m, joined.as_str());
            append(&mut m, " (may be intentional for retry logic)");
            report.add_warning(m);
        },
        None => {},
    }
    let ghost with_cycle = views(report.warnings@);
    let terminals = workflow.terminal_executors();
    if terminals.len() == 0 {
        report.add_warning("No terminal executors found (workflow may never complete)");
    }
    proof {
        reveal_strlit("No terminal executors found (workflow may never complete)");
        assert(views(report.warnings@) =~= expected_warnings(workflow, cycle));
        assert(cycle_answer(workflow, cycle));
    }
    report
}

} // verus!
