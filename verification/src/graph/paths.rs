//! Walks through the workflow graph: which executor follows which, what can
//! be reached from where, and the facts the graph algorithms rely on.
use vstd::prelude::*;
use crate::graph::edge::{edges_from, edges_to, Edge};

verus! {

/// The targets of the edges, edge after edge.
pub open spec fn all_targets<T: Send + Sync + 'static>(es: Seq<Edge<T>>) -> Seq<Seq<char>>
    decreases es.len(),
{
    if es.len() == 0 {
        Seq::empty()
    } else {
        all_targets(es.drop_last()) + es.last().target.ids()
    }
}

/// The sources of the edges, edge after edge.
pub open spec fn all_sources<T: Send + Sync + 'static>(es: Seq<Edge<T>>) -> Seq<Seq<char>>
    decreases es.len(),
{
    if es.len() == 0 {
        Seq::empty()
    } else {
        all_sources(es.drop_last()) + es.last().source.ids()
    }
}

/// Some edge leaves `a` and enters `b`.
pub open spec fn is_successor<T: Send + Sync + 'static>(edges: Seq<Edge<T>>, a: Seq<char>, b: Seq<char>) -> bool {
    exists|j: int|
        0 <= j < edges.len() && (#[trigger] edges[j]).source.ids().contains(a) && edges[j].target.ids().contains(b)
}

/// The walk `p` goes along an edge from its `i`-th to its next executor.
pub open spec fn steps_at<T: Send + Sync + 'static>(edges: Seq<Edge<T>>, p: Seq<Seq<char>>, i: int) -> bool {
    is_successor(edges, p[i], p[i + 1])
}

/// `p` is a non-empty walk along edges.
pub open spec fn is_path<T: Send + Sync + 'static>(edges: Seq<Edge<T>>, p: Seq<Seq<char>>) -> bool {
    p.len() >= 1 && forall|i: int| 0 <= i < p.len() - 1 ==> #[trigger] steps_at(edges, p, i)
}

/// Some walk leads from `a` to `b` (every executor reaches itself).
pub open spec fn reaches<T: Send + Sync + 'static>(edges: Seq<Edge<T>>, a: Seq<char>, b: Seq<char>) -> bool {
    exists|p: Seq<Seq<char>>| #[trigger] is_path(edges, p) && p[0] == a && p.last() == b
}

/// Every successor of a member of `s` is a member of `s`.
pub open spec fn closed_under_successors<T: Send + Sync + 'static>(edges: Seq<Edge<T>>, s: Seq<Seq<char>>) -> bool {
    forall|x: Seq<char>, y: Seq<char>| s.contains(x) && #[trigger] is_successor(edges, x, y) ==> s.contains(y)
}

/// Every element of a filtered sequence comes from the sequence and meets
/// the predicate.
pub proof fn lemma_filter_subset<A>(s: Seq<A>, pred: spec_fn(A) -> bool)
    ensures
        forall|k: int| 0 <= k < s.filter(pred).len() ==> s.contains(#[trigger] s.filter(pred)[k]) && pred(s.filter(pred)[k]),
        forall|j: int| 0 <= j < s.len() && pred(s[j]) ==> #[trigger] s.filter(pred).contains(s[j]),
    decreases s.len(),
{
    reveal(Seq::filter);
    if s.len() > 0 {
        lemma_filter_subset(s.drop_last(), pred);
        let f = s.filter(pred);
        let g = s.drop_last().filter(pred);
        assert forall|k: int| 0 <= k < f.len() implies s.contains(#[trigger] f[k]) && pred(f[k]) by {
            if k < g.len() {
                assert(f[k] == g[k]);
                let j = choose|j: int| 0 <= j < s.drop_last().len() && s.drop_last()[j] == g[k];
                assert(s[j] == f[k]);
            } else {
                assert(f[k] == s.last());
                assert(s[s.len() - 1] == f[k]);
            }
        }
        assert forall|j: int| 0 <= j < s.len() && pred(s[j]) implies #[trigger] f.contains(s[j]) by {
            if j < s.len() - 1 {
                assert(s.drop_last()[j] == s[j]);
                assert(g.contains(s[j]));
                let k = choose|k: int| 0 <= k < g.len() && g[k] == s[j];
                assert(f[k] == s[j]);
            } else {
                assert(f[f.len() - 1] == s[j]);
            }
        }
    }
}

/// An executor is among the targets of some edges exactly when one of them
/// enters it.
pub proof fn lemma_all_targets_contains<T: Send + Sync + 'static>(es: Seq<Edge<T>>, b: Seq<char>)
    ensures
        all_targets(es).contains(b) <==> exists|j: int| 0 <= j < es.len() && (#[trigger] es[j]).target.ids().contains(b),
    decreases es.len(),
{
    if es.len() > 0 {
        lemma_all_targets_contains(es.drop_last(), b);
        let rest = all_targets(es.drop_last());
        let last = es.last().target.ids();
        if all_targets(es).contains(b) {
            let k = choose|k: int| 0 <= k < all_targets(es).len() && all_targets(es)[k] == b;
            if k < rest.len() {
                assert(rest[k] == b);
                let j = choose|j: int| 0 <= j < es.drop_last().len() && (#[trigger] es.drop_last()[j]).target.ids().contains(b);
                assert(es[j] == es.drop_last()[j]);
            } else {
                assert(last[k - rest.len()] == b);
                assert(es[es.len() - 1].target.ids().contains(b));
            }
        }
        if exists|j: int| 0 <= j < es.len() && (#[trigger] es[j]).target.ids().contains(b) {
            let j = choose|j: int| 0 <= j < es.len() && (#[trigger] es[j]).target.ids().contains(b);
            if j < es.len() - 1 {
                assert(es.drop_last()[j] == es[j]);
                assert(rest.contains(b));
                let k = choose|k: int| 0 <= k < rest.len() && rest[k] == b;
                assert(all_targets(es)[k] == b);
            } else {
                let k = choose|k: int| 0 <= k < last.len() && last[k] == b;
                assert(all_targets(es)[rest.len() + k] == b);
            }
        }
    }
}

/// An executor is among the sources of some edges exactly when one of them
/// leaves it.
pub proof fn lemma_all_sources_contains<T: Send + Sync + 'static>(es: Seq<Edge<T>>, a: Seq<char>)
    ensures
        all_sources(es).contains(a) <==> exists|j: int| 0 <= j < es.len() && (#[trigger] es[j]).source.ids().contains(a),
    decreases es.len(),
{
    if es.len() > 0 {
        lemma_all_sources_contains(es.drop_last(), a);
        let rest = all_sources(es.drop_last());
        let last = es.last().source.ids();
        if all_sources(es).contains(a) {
            let k = choose|k: int| 0 <= k < all_sources(es).len() && all_sources(es)[k] == a;
            if k < rest.len() {
                assert(rest[k] == a);
                let j = choose|j: int| 0 <= j < es.drop_last().len() && (#[trigger] es.drop_last()[j]).source.ids().contains(a);
                assert(es[j] == es.drop_last()[j]);
            } else {
                assert(last[k - rest.len()] == a);
                assert(es[es.len() - 1].source.ids().contains(a));
            }
        }
        if exists|j: int| 0 <= j < es.len() && (#[trigger] es[j]).source.ids().contains(a) {
            let j = choose|j: int| 0 <= j < es.len() && (#[trigger] es[j]).source.ids().contains(a);
            if j < es.len() - 1 {
                assert(es.drop_last()[j] == es[j]);
                assert(rest.contains(a));
                let k = choose|k: int| 0 <= k < rest.len() && rest[k] == a;
                assert(all_sources(es)[k] == a);
            } else {
                let k = choose|k: int| 0 <= k < last.len() && last[k] == a;
                assert(all_sources(es)[rest.len() + k] == a);
            }
        }
    }
}

/// The targets of the edges leaving `a` are exactly the successors of `a`.
pub proof fn lemma_successors_of<T: Send + Sync + 'static>(edges: Seq<Edge<T>>, a: Seq<char>, b: Seq<char>)
    ensures
        all_targets(edges_from(edges, a)).contains(b) <==> is_successor(edges, a, b),
{
    let pred = |e: Edge<T>| e.source.ids().contains(a);
    let from = edges_from(edges, a);
    lemma_filter_subset(edges, pred);
    lemma_all_targets_contains(from, b);
    if all_targets(from).contains(b) {
        let k = choose|k: int| 0 <= k < from.len() && (#[trigger] from[k]).target.ids().contains(b);
        assert(edges.contains(from[k]) && pred(from[k]));
        let j = choose|j: int| 0 <= j < edges.len() && edges[j] == from[k];
        assert(edges[j].source.ids().contains(a) && edges[j].target.ids().contains(b));
    }
    if is_successor(edges, a, b) {
        let j = choose|j: int|
            0 <= j < edges.len() && (#[trigger] edges[j]).source.ids().contains(a) && edges[j].target.ids().contains(b);
        assert(pred(edges[j]));
        assert(from.contains(edges[j]));
        let k = choose|k: int| 0 <= k < from.len() && from[k] == edges[j];
        assert(from[k].target.ids().contains(b));
    }
}

/// The sources of the edges entering `b` are exactly the executors that `b`
/// follows.
pub proof fn lemma_predecessors_of<T: Send + Sync + 'static>(edges: Seq<Edge<T>>, a: Seq<char>, b: Seq<char>)
    ensures
        all_sources(edges_to(edges, b)).contains(a) <==> is_successor(edges, a, b),
{
    let pred = |e: Edge<T>| e.target.ids().contains(b);
    let to = edges_to(edges, b);
    lemma_filter_subset(edges, pred);
    lemma_all_sources_contains(to, a);
    if all_sources(to).contains(a) {
        let k = choose|k: int| 0 <= k < to.len() && (#[trigger] to[k]).source.ids().contains(a);
        assert(edges.contains(to[k]) && pred(to[k]));
        let j = choose|j: int| 0 <= j < edges.len() && edges[j] == to[k];
        assert(edges[j].source.ids().contains(a) && edges[j].target.ids().contains(b));
    }
    if is_successor(edges, a, b) {
        let j = choose|j: int|
            0 <= j < edges.len() && (#[trigger] edges[j]).source.ids().contains(a) && edges[j].target.ids().contains(b);
        assert(pred(edges[j]));
        assert(to.contains(edges[j]));
        let k = choose|k: int| 0 <= k < to.len() && to[k] == edges[j];
        assert(to[k].source.ids().contains(a));
    }
}

/// A walk extended by a successor of its last executor is a walk.
pub proof fn lemma_path_push<T: Send + Sync + 'static>(edges: Seq<Edge<T>>, p: Seq<Seq<char>>, b: Seq<char>)
    requires
        is_path(edges, p),
        is_successor(edges, p.last(), b),
    ensures
        is_path(edges, p.push(b)),
{
    let q = p.push(b);
    assert forall|i: int| 0 <= i < q.len() - 1 implies #[trigger] steps_at(edges, q, i) by {
        if i < p.len() - 1 {
            assert(steps_at(edges, p, i));
        }
    }
}

/// If `a` reaches `b` and `b` is followed by `c`, then `a` reaches `c`.
pub proof fn lemma_reaches_step<T: Send + Sync + 'static>(edges: Seq<Edge<T>>, a: Seq<char>, b: Seq<char>, c: Seq<char>)
    requires
        reaches(edges, a, b),
        is_successor(edges, b, c),
    ensures
        reaches(edges, a, c),
{
    let p = choose|p: Seq<Seq<char>>| #[trigger] is_path(edges, p) && p[0] == a && p.last() == b;
    lemma_path_push(edges, p, c);
    assert(is_path(edges, p.push(c)) && p.push(c)[0] == a && p.push(c).last() == c);
}

/// Every executor reaches itself.
pub proof fn lemma_reaches_self<T: Send + Sync + 'static>(edges: Seq<Edge<T>>, a: Seq<char>)
    ensures
        reaches(edges, a, a),
{
    assert(is_path(edges, seq![a]));
}

/// A set of executors that holds `a` and is closed under successors holds
/// every executor that `a` reaches.
pub proof fn lemma_closed_holds_reached<T: Send + Sync + 'static>(edges: Seq<Edge<T>>, s: Seq<Seq<char>>, a: Seq<char>, b: Seq<char>)
    requires
        s.contains(a),
        closed_under_successors(edges, s),
        reaches(edges, a, b),
    ensures
        s.contains(b),
{
    let p = choose|p: Seq<Seq<char>>| #[trigger] is_path(edges, p) && p[0] == a && p.last() == b;
    lemma_walk_stays_in_closed(edges, s, p, p.len() - 1);
}

/// The first `i + 1` executors of a walk that starts in a set closed under
/// successors lie in the set.
proof fn lemma_walk_stays_in_closed<T: Send + Sync + 'static>(edges: Seq<Edge<T>>, s: Seq<Seq<char>>, p: Seq<Seq<char>>, i: int)
    requires
        is_path(edges, p),
        s.contains(p[0]),
        closed_under_successors(edges, s),
        0 <= i < p.len(),
    ensures
        s.contains(p[i]),
    decreases i,
{
    if i > 0 {
        lemma_walk_stays_in_closed(edges, s, p, i - 1);
        assert(steps_at(edges, p, i - 1));
    }
}

} // verus!
