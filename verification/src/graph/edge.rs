//! Edges: connections between executors in the workflow graph.
//!
//! Five kinds: direct, conditional, switch, fan-out and fan-in. The decisions
//! of conditional, switch and fan-out edges are made by functions that the
//! user supplies; routing is stated over what those functions return.
use vstd::prelude::*;
use crate::graph::types::ExecutorId;
use crate::text::{append, TextLike};

verus! {

// ============================================================================
// EDGE ID
// ============================================================================

/// Unique identifier for an edge.
#[derive(Debug, Eq, Hash)]
pub struct EdgeId(String);

impl View for EdgeId {
    type V = Seq<char>;

    closed spec fn view(&self) -> Seq<char> {
        self.0@
    }
}

impl EdgeId {
    /// An edge identifier holding the given text.
    pub fn new(id: impl TextLike) -> (r: Self)
        ensures
            r@ == id.text(),
    {
        EdgeId(id.into_string())
    }

    /// The identifier `source→target`.
    pub fn from_endpoints(source: &ExecutorId, target: &ExecutorId) -> (r: Self)
        ensures
            r@ == source@ + "→"@ + target@,
    {
        let mut s = String::new();
        append(&mut s, source.as_str());
        append(&mut s, "→");
        append(&mut s, target.as_str());
        EdgeId(s)
    }

    /// The identifier's text.
    pub fn as_str(&self) -> (r: &str)
        ensures
            r@ == self@,
    {
        self.0.as_str()
    }

    /// The identifier's text, as an owned string.
    pub fn to_string(&self) -> (r: String)
        ensures
            r@ == self@,
    {
        self.0.clone()
    }
}

impl Clone for EdgeId {
    fn clone(&self) -> (r: Self)
        ensures
            r == *self,
    {
        EdgeId(self.0.clone())
    }
}

impl PartialEq for EdgeId {
    fn eq(&self, other: &Self) -> (r: bool) {
        self.0 == other.0
    }
}

impl vstd::std_specs::cmp::PartialEqSpecImpl for EdgeId {
    open spec fn obeys_eq_spec() -> bool {
        true
    }

    open spec fn eq_spec(&self, other: &Self) -> bool {
        self@ == other@
    }
}

impl TextLike for EdgeId {
    open spec fn text(&self) -> Seq<char> {
        self@
    }

    fn into_string(self) -> (r: String) {
        self.0
    }
}

// ============================================================================
// EDGE KIND
// ============================================================================

/// The type of edge connection.
#[derive(Debug, Clone, Copy, PartialEq, Eq, Structural)]
pub enum EdgeKind {
    /// Always routes to its target.
    Direct,
    /// Routes if its condition holds.
    Conditional,
    /// Routes to one of several targets.
    Switch,
    /// Routes to several targets in parallel.
    FanOut,
    /// Aggregates from several sources.
    FanIn,
}

/// The name an edge kind is displayed as.
pub open spec fn edge_kind_name(k: EdgeKind) -> Seq<char> {
    match k {
        EdgeKind::Direct => "Direct"@,
        EdgeKind::Conditional => "Conditional"@,
        EdgeKind::Switch => "Switch"@,
        EdgeKind::FanOut => "FanOut"@,
        EdgeKind::FanIn => "FanIn"@,
    }
}

impl EdgeKind {
    /// The name this kind is displayed as.
    pub fn to_string(&self) -> (r: String)
        ensures
            r@ == edge_kind_name(*self),
    {
        let mut s = String::new();
        match self {
            EdgeKind::Direct => append(&mut s, "Direct"),
            EdgeKind::Conditional => append(&mut s, "Conditional"),
            EdgeKind::Switch => append(&mut s, "Switch"),
            EdgeKind::FanOut => append(&mut s, "FanOut"),
            EdgeKind::FanIn => append(&mut s, "FanIn"),
        }
        assert(s@ =~= edge_kind_name(*self));
        s
    }
}

// ============================================================================
// USER-SUPPLIED DECISIONS
// ============================================================================

/// Decides whether a conditional edge routes a message.
pub trait EdgeCondition<T>: Send + Sync {
    /// The message is one the function accepts.
    spec fn admits(&self, message: &T) -> bool;

    /// `result` is a possible answer for the message.
    spec fn yields(&self, message: &T, result: bool) -> bool;

    /// Whether to route the message.
    fn check(&self, message: &T) -> (result: bool)
        requires
            self.admits(message),
        ensures
            self.yields(message, result),
    ;
}

impl<T, F: Fn(&T) -> bool + Send + Sync> EdgeCondition<T> for F {
    open spec fn admits(&self, message: &T) -> bool {
        call_requires(*self, (message,))
    }

    open spec fn yields(&self, message: &T, result: bool) -> bool {
        call_ensures(*self, (message,), result)
    }

    fn check(&self, message: &T) -> (result: bool) {
        self(message)
    }
}

/// Picks the target index of a switch edge (`None` means the default).
pub trait EdgeSwitch<T>: Send + Sync {
    /// The message is one the function accepts.
    spec fn admits(&self, message: &T) -> bool;

    /// `result` is a possible answer for the message.
    spec fn yields(&self, message: &T, result: Option<usize>) -> bool;

    /// The index of the target to route to.
    fn pick(&self, message: &T) -> (result: Option<usize>)
        requires
            self.admits(message),
        ensures
            self.yields(message, result),
    ;
}

impl<T, F: Fn(&T) -> Option<usize> + Send + Sync> EdgeSwitch<T> for F {
    open spec fn admits(&self, message: &T) -> bool {
        call_requires(*self, (message,))
    }

    open spec fn yields(&self, message: &T, result: Option<usize>) -> bool {
        call_ensures(*self, (message,), result)
    }

    fn pick(&self, message: &T) -> (result: Option<usize>) {
        self(message)
    }
}

/// Selects the targets of a fan-out edge (empty means all of them).
pub trait EdgeSelection<T>: Send + Sync {
    /// The message and target count are ones the function accepts.
    spec fn admits(&self, message: &T, count: usize) -> bool;

    /// `result` is a possible answer for the message and target count.
    spec fn yields(&self, message: &T, count: usize, result: Seq<usize>) -> bool;

    /// The indices of the targets to route to.
    fn select(&self, message: &T, count: usize) -> (result: Vec<usize>)
        requires
            self.admits(message, count),
        ensures
            self.yields(message, count, result@),
    ;
}

impl<T, F: Fn(&T, usize) -> Vec<usize> + Send + Sync> EdgeSelection<T> for F {
    open spec fn admits(&self, message: &T, count: usize) -> bool {
        call_requires(*self, (message, count))
    }

    open spec fn yields(&self, message: &T, count: usize, result: Seq<usize>) -> bool {
        exists|v: Vec<usize>| call_ensures(*self, (message, count), v) && v@ == result
    }

    fn select(&self, message: &T, count: usize) -> (result: Vec<usize>) {
        self(message, count)
    }
}

/// Combines several inputs of a fan-in edge into one.
pub trait EdgeAggregation<T>: Send + Sync {
    /// The inputs are ones the function accepts.
    spec fn admits(&self, inputs: Seq<T>) -> bool;

    /// Combines the inputs.
    fn aggregate(&self, inputs: Vec<T>) -> (result: T)
        requires
            self.admits(inputs@),
    ;
}

impl<T, F: Fn(Vec<T>) -> T + Send + Sync> EdgeAggregation<T> for F {
    open spec fn admits(&self, inputs: Seq<T>) -> bool {
        forall|v: Vec<T>| v@ == inputs ==> call_requires(*self, (v,))
    }

    fn aggregate(&self, inputs: Vec<T>) -> (result: T) {
        self(inputs)
    }
}

/// A condition function for conditional edges.
pub type ConditionFn<T> = Box<dyn EdgeCondition<T>>;

/// A switch function that returns the index of the target to route to.
pub type SwitchFn<T> = Box<dyn EdgeSwitch<T>>;

/// A selection function for fan-out edges (empty selection = all targets).
pub type SelectionFn<T> = Box<dyn EdgeSelection<T>>;

/// An aggregation function for fan-in edges.
pub type AggregationFn<T> = Box<dyn EdgeAggregation<T>>;

// ============================================================================
// TARGETS AND SOURCES
// ============================================================================

/// The texts of a sequence of executor identifiers.
pub open spec fn id_views(v: Seq<ExecutorId>) -> Seq<Seq<char>> {
    v.map_values(|e: ExecutorId| e@)
}

/// The texts of a sequence of references to executor identifiers.
pub open spec fn ref_id_views(v: Seq<&ExecutorId>) -> Seq<Seq<char>> {
    v.map_values(|e: &ExecutorId| e@)
}

/// Converts texts into executor identifiers, in order.
pub fn ids_from_texts<S: TextLike>(v: Vec<S>) -> (r: Vec<ExecutorId>)
    ensures
        id_views(r@) == v@.map_values(|s: S| s.text()),
{
    let ghost orig = v@;
    let mut rest = v;
    let mut r: Vec<ExecutorId> = Vec::new();
    while rest.len() > 0
        invariant
            r@.len() + rest@.len() == orig.len(),
            rest@ == orig.skip(r@.len() as int),
            forall|j: int| 0 <= j < r@.len() ==> #[trigger] r@[j]@ == orig[j].text(),
        decreases rest.len(),
    {
        let ghost k = r@.len() as int;
        let s = rest.remove(0);
        assert(s == orig[k]);
        r.push(ExecutorId::new(s));
        assert(rest@ =~= orig.skip(k + 1));
    }
    assert(id_views(r@) =~= orig.map_values(|s: S| s.text()));
    r
}

/// Target(s) of an edge.
#[derive(Debug)]
pub enum EdgeTarget {
    /// Single target executor.
    Single(ExecutorId),
    /// Multiple targets (for fan-out/switch).
    Multiple(Vec<ExecutorId>),
}

impl EdgeTarget {
    /// The identifiers of the targets, in order.
    pub open spec fn ids(self) -> Seq<Seq<char>> {
        match self {
            EdgeTarget::Single(id) => seq![id@],
            EdgeTarget::Multiple(ids) => id_views(ids@),
        }
    }

    /// All target IDs.
    pub fn targets(&self) -> (r: Vec<&ExecutorId>)
        ensures
            ref_id_views(r@) == self.ids(),
    {
        match self {
            EdgeTarget::Single(id) => {
                let mut v: Vec<&ExecutorId> = Vec::new();
                v.push(id);
                assert(ref_id_views(v@) =~= self.ids());
                v
            },
            EdgeTarget::Multiple(ids) => refs_of(ids),
        }
    }

    /// Whether this target contains the given executor.
    pub fn contains(&self, id: &ExecutorId) -> (b: bool)
        ensures
            b == self.ids().contains(id@),
    {
        match self {
            EdgeTarget::Single(target) => {
                let b = *target == *id;
                assert(self.ids()[0] == target@);
                b
            },
            EdgeTarget::Multiple(targets) => ids_contain(targets, id),
        }
    }

    /// The number of targets.
    pub fn len(&self) -> (n: usize)
        ensures
            n == self.ids().len(),
    {
        match self {
            EdgeTarget::Single(_) => 1,
            EdgeTarget::Multiple(ids) => ids.len(),
        }
    }

    /// Whether there are no targets.
    pub fn is_empty(&self) -> (b: bool)
        ensures
            b == (self.ids().len() == 0),
    {
        match self {
            EdgeTarget::Single(_) => false,
            EdgeTarget::Multiple(ids) => ids.len() == 0,
        }
    }

    /// A copy of the target identifiers, in order.
    pub fn to_ids(&self) -> (r: Vec<ExecutorId>)
        ensures
            id_views(r@) == self.ids(),
    {
        match self {
            EdgeTarget::Single(id) => {
                let mut v: Vec<ExecutorId> = Vec::new();
                v.push(id.clone());
                assert(id_views(v@) =~= self.ids());
                v
            },
            EdgeTarget::Multiple(ids) => clone_ids(ids),
        }
    }
}

/// Source(s) of an edge.
#[derive(Debug)]
pub enum EdgeSource {
    /// Single source executor.
    Single(ExecutorId),
    /// Multiple sources (for fan-in).
    Multiple(Vec<ExecutorId>),
}

impl EdgeSource {
    /// The identifiers of the sources, in order.
    pub open spec fn ids(self) -> Seq<Seq<char>> {
        match self {
            EdgeSource::Single(id) => seq![id@],
            EdgeSource::Multiple(ids) => id_views(ids@),
        }
    }

    /// All source IDs.
    pub fn sources(&self) -> (r: Vec<&ExecutorId>)
        ensures
            ref_id_views(r@) == self.ids(),
    {
        match self {
            EdgeSource::Single(id) => {
                let mut v: Vec<&ExecutorId> = Vec::new();
                v.push(id);
                assert(ref_id_views(v@) =~= self.ids());
                v
            },
            EdgeSource::Multiple(ids) => refs_of(ids),
        }
    }

    /// Whether this source contains the given executor.
    pub fn contains(&self, id: &ExecutorId) -> (b: bool)
        ensures
            b == self.ids().contains(id@),
    {
        match self {
            EdgeSource::Single(source) => {
                let b = *source == *id;
                assert(self.ids()[0] == source@);
                b
            },
            EdgeSource::Multiple(sources) => ids_contain(sources, id),
        }
    }
}

/// References to the elements of `ids`, in order.
pub fn refs_of(ids: &Vec<ExecutorId>) -> (r: Vec<&ExecutorId>)
    ensures
        ref_id_views(r@) == id_views(ids@),
{
    let mut r: Vec<&ExecutorId> = Vec::new();
    let mut i: usize = 0;
    while i < ids.len()
        invariant
            i <= ids@.len(),
            r@.len() == i,
            forall|j: int| 0 <= j < i ==> #[trigger] r@[j]@ == ids@[j]@,
        decreases ids.len() - i,
    {
        r.push(&ids[i]);
        i = i + 1;
    }
    assert(ref_id_views(r@) =~= id_views(ids@));
    r
}

/// Copies of the elements of `ids`, in order.
pub fn clone_ids(ids: &Vec<ExecutorId>) -> (r: Vec<ExecutorId>)
    ensures
        r@ == ids@,
{
    let mut r: Vec<ExecutorId> = Vec::new();
    let mut i: usize = 0;
    while i < ids.len()
        invariant
            i <= ids@.len(),
            r@ == ids@.take(i as int),
        decreases ids.len() - i,
    {
        r.push(ids[i].clone());
        assert(ids@.take(i + 1) =~= ids@.take(i as int).push(ids@[i as int]));
        i = i + 1;
    }
    assert(ids@.take(ids@.len() as int) =~= ids@);
    r
}

/// Whether some element of `ids` has the text of `id`.
pub fn ids_contain(ids: &Vec<ExecutorId>, id: &ExecutorId) -> (b: bool)
    ensures
        b == id_views(ids@).contains(id@),
{
    let mut i: usize = 0;
    while i < ids.len()
        invariant
            i <= ids@.len(),
            forall|j: int| 0 <= j < i ==> ids@[j]@ != id@,
        decreases ids.len() - i,
    {
        if ids[i] == *id {
            assert(id_views(ids@)[i as int] == id@);
            return true;
        }
        i = i + 1;
    }
    assert forall|j: int| 0 <= j < id_views(ids@).len() implies id_views(ids@)[j] != id@ by {
        assert(id_views(ids@)[j] == ids@[j]@);
    }
    false
}

// ============================================================================
// EDGE
// ============================================================================

/// The decision functions of an edge and its default target.
#[verifier::reject_recursive_types(T)]
pub struct EdgeLogic<T: Send + Sync + 'static> {
    /// Condition function (for conditional edges).
    condition: Option<ConditionFn<T>>,
    /// Switch function (for switch edges).
    switch_fn: Option<SwitchFn<T>>,
    /// Selection function (for fan-out edges).
    selection_fn: Option<SelectionFn<T>>,
    /// Default target index (for switch edges).
    default_target: Option<usize>,
}

impl<T: Send + Sync + 'static> EdgeLogic<T> {
    /// The two carry the same decision functions.
    pub closed spec fn same_functions(self, other: Self) -> bool {
        &&& self.condition == other.condition
        &&& self.switch_fn == other.switch_fn
        &&& self.selection_fn == other.selection_fn
    }

    /// No functions and no default target.
    pub closed spec fn is_plain(self) -> bool {
        self.condition is None && self.switch_fn is None && self.selection_fn is None && self.default_target is None
    }

    /// Whether there is a condition function.
    pub closed spec fn has_condition(self) -> bool {
        self.condition is Some
    }

    /// Whether there is a switch function.
    pub closed spec fn has_switch(self) -> bool {
        self.switch_fn is Some
    }

    /// Whether there is a selection function.
    pub closed spec fn has_selection(self) -> bool {
        self.selection_fn is Some
    }

    /// The default target index.
    pub closed spec fn default_index(self) -> Option<usize> {
        self.default_target
    }

    /// The condition function accepts `message`.
    pub closed spec fn condition_admits(self, message: &T) -> bool {
        self.condition matches Some(c) ==> c.admits(message)
    }

    /// `b` is a possible answer of the condition function for `message`.
    pub closed spec fn condition_gives(self, message: &T, b: bool) -> bool {
        self.condition matches Some(c) && c.yields(message, b)
    }

    /// The switch function accepts `message`.
    pub closed spec fn switch_admits(self, message: &T) -> bool {
        self.switch_fn matches Some(f) ==> f.admits(message)
    }

    /// `p` is a possible answer of the switch function for `message`.
    pub closed spec fn switch_gives(self, message: &T, p: Option<usize>) -> bool {
        self.switch_fn matches Some(f) && f.yields(message, p)
    }

    /// The selection function accepts `message` and `count`.
    pub closed spec fn selection_admits(self, message: &T, count: usize) -> bool {
        self.selection_fn matches Some(f) ==> f.admits(message, count)
    }

    /// `s` is a possible answer of the selection function for `message` and `count`.
    pub closed spec fn selection_gives(self, message: &T, count: usize, s: Seq<usize>) -> bool {
        self.selection_fn matches Some(f) && f.yields(message, count, s)
    }

    fn plain() -> (r: Self)
        ensures
            r.is_plain(),
            !r.has_condition() && !r.has_switch() && !r.has_selection(),
            r.default_index() is None,
    {
        EdgeLogic { condition: None, switch_fn: None, selection_fn: None, default_target: None }
    }
}

/// An edge connecting executors in the workflow graph.
#[verifier::reject_recursive_types(T)]
pub struct Edge<T: Send + Sync + 'static> {
    /// Unique identifier.
    pub id: EdgeId,
    /// Human-readable name.
    pub name: Option<String>,
    /// Source executor(s).
    pub source: EdgeSource,
    /// Target executor(s).
    pub target: EdgeTarget,
    /// Edge type.
    pub kind: EdgeKind,
    /// Decision functions and default target.
    pub logic: EdgeLogic<T>,
}

/// The targets a switch edge routes to, given the index its function picked.
pub open spec fn switch_route(targets: Seq<Seq<char>>, picked: Option<usize>, default: Option<usize>) -> Seq<Seq<char>> {
    let index = match picked {
        Some(i) => Some(i),
        None => default,
    };
    match index {
        Some(i) => if i < targets.len() { seq![targets[i as int]] } else { Seq::empty() },
        None => Seq::empty(),
    }
}

/// The targets selected by `indices`, in the order of `indices`, skipping
/// indices out of range.
pub open spec fn selected(targets: Seq<Seq<char>>, indices: Seq<usize>) -> Seq<Seq<char>>
    decreases indices.len(),
{
    if indices.len() == 0 {
        Seq::empty()
    } else {
        let rest = selected(targets, indices.drop_last());
        let i = indices.last();
        if i < targets.len() {
            rest.push(targets[i as int])
        } else {
            rest
        }
    }
}

impl<T: Send + Sync + 'static> Edge<T> {
    /// The edge's functions accept `message`.
    pub open spec fn admits(self, message: &T) -> bool {
        &&& self.logic.condition_admits(message)
        &&& self.logic.switch_admits(message)
        &&& self.logic.selection_admits(message, self.target.ids().len() as usize)
    }

    /// Whether a conditional edge asks its condition function.
    pub open spec fn asks_condition(self) -> bool {
        self.kind == EdgeKind::Conditional && self.logic.has_condition()
    }

    /// Whether a switch edge asks its switch function.
    pub open spec fn asks_switch(self) -> bool {
        self.kind == EdgeKind::Switch && self.target is Multiple && self.logic.has_switch()
    }

    /// Whether a fan-out edge asks its selection function.
    pub open spec fn asks_selection(self) -> bool {
        self.kind == EdgeKind::FanOut && self.target is Multiple && self.logic.has_selection()
    }

    /// `active` is a possible answer of the condition for `message`; an edge
    /// that does not ask a condition answers `true`.
    pub open spec fn condition_yields(self, message: &T, active: bool) -> bool {
        if self.asks_condition() {
            self.logic.condition_gives(message, active)
        } else {
            active
        }
    }

    /// `picked` is a possible answer of the switch function for `message`; an
    /// edge that does not ask one answers `None`.
    pub open spec fn switch_yields(self, message: &T, picked: Option<usize>) -> bool {
        if self.asks_switch() {
            self.logic.switch_gives(message, picked)
        } else {
            picked is None
        }
    }

    /// `indices` is a possible answer of the selection function for `message`;
    /// an edge that does not ask one answers the empty selection.
    pub open spec fn selection_yields(self, message: &T, indices: Seq<usize>) -> bool {
        if self.asks_selection() {
            self.logic.selection_gives(message, self.target.ids().len() as usize, indices)
        } else {
            indices.len() == 0
        }
    }

    /// The targets the edge routes to, given the answers of its functions.
    pub open spec fn routed(self, active: bool, picked: Option<usize>, indices: Seq<usize>) -> Seq<Seq<char>> {
        match self.kind {
            EdgeKind::Direct => self.target.ids(),
            EdgeKind::FanIn => self.target.ids(),
            EdgeKind::Conditional => if active { self.target.ids() } else { Seq::empty() },
            EdgeKind::Switch => match self.target {
                EdgeTarget::Multiple(ts) => switch_route(id_views(ts@), picked, self.logic.default_index()),
                EdgeTarget::Single(_) => Seq::empty(),
            },
            EdgeKind::FanOut => match self.target {
                EdgeTarget::Multiple(ts) => if indices.len() == 0 {
                    id_views(ts@)
                } else {
                    selected(id_views(ts@), indices)
                },
                EdgeTarget::Single(id) => seq![id@],
            },
        }
    }

    /// `out` is a possible result of routing `message` through the edge.
    pub open spec fn may_route(self, message: &T, out: Seq<Seq<char>>) -> bool {
        exists|active: bool, picked: Option<usize>, indices: Seq<usize>|
            self.condition_yields(message, active) && self.switch_yields(message, picked)
                && self.selection_yields(message, indices) && out == self.routed(active, picked, indices)
    }

    /// `active` is a possible result of `should_activate` for `message`.
    pub open spec fn may_activate(self, message: &T, active: bool) -> bool {
        self.condition_yields(message, active)
    }

    // ========================================================================
    // CONSTRUCTORS
    // ========================================================================

    /// A direct edge, which always routes.
    pub fn direct(source: impl TextLike, target: impl TextLike) -> (r: Self)
        ensures
            r.source.ids() == seq![source.text()],
            r.target.ids() == seq![target.text()],
            r.target is Single,
            r.source is Single,
            r.kind == EdgeKind::Direct,
            r.id@ == source.text() + "→"@ + target.text(),
            r.name is None,
            r.logic.is_plain(),
            !r.logic.has_condition() && !r.logic.has_switch() && !r.logic.has_selection(),
    {
        let source_id = ExecutorId::new(source);
        let target_id = ExecutorId::new(target);
        Edge {
            id: EdgeId::from_endpoints(&source_id, &target_id),
            name: None,
            source: EdgeSource::Single(source_id),
            target: EdgeTarget::Single(target_id),
            kind: EdgeKind::Direct,
            logic: EdgeLogic::plain(),
        }
    }

    /// A conditional edge, which routes when `condition` holds.
    pub fn conditional<F>(source: impl TextLike, target: impl TextLike, condition: F) -> (r: Self) where
        F: Fn(&T) -> bool + Send + Sync + 'static,
        ensures
            r.source.ids() == seq![source.text()],
            r.target.ids() == seq![target.text()],
            r.target is Single,
            r.source is Single,
            r.kind == EdgeKind::Conditional,
            r.id@ == source.text() + "→"@ + target.text(),
            r.name is None,
            r.logic.has_condition() && !r.logic.has_switch() && !r.logic.has_selection(),
            forall|m: &T| #[trigger] r.admits(m) <==> call_requires(condition, (m,)),
            forall|m: &T, b: bool| #[trigger] r.logic.condition_gives(m, b) <==> call_ensures(condition, (m,), b),
            r.logic.default_index() is None,
    {
        let source_id = ExecutorId::new(source);
        let target_id = ExecutorId::new(target);
        let c: ConditionFn<T> = Box::new(condition);
        Edge {
            id: EdgeId::from_endpoints(&source_id, &target_id),
            name: None,
            source: EdgeSource::Single(source_id),
            target: EdgeTarget::Single(target_id),
            kind: EdgeKind::Conditional,
            logic: EdgeLogic { condition: Some(c), switch_fn: None, selection_fn: None, default_target: None },
        }
    }

    /// A switch edge, which routes to the target its function picks.
    pub fn switch<S: TextLike, F>(source: S, targets: Vec<impl TextLike>, switch_fn: F) -> (r: Self) where
        F: Fn(&T) -> Option<usize> + Send + Sync + 'static,
        ensures
            r.source.ids() == seq![source.text()],
            r.target.ids() == targets@.map_values(|t| TextLike::text(&t)),
            r.target is Multiple,
            r.source is Single,
            r.kind == EdgeKind::Switch,
            r.id@ == source.text() + "→[switch]"@,
            r.name is None,
            !r.logic.has_condition() && r.logic.has_switch() && !r.logic.has_selection(),
            forall|m: &T| #[trigger] r.admits(m) <==> call_requires(switch_fn, (m,)),
            forall|m: &T, p: Option<usize>| #[trigger] r.logic.switch_gives(m, p) <==> call_ensures(switch_fn, (m,), p),
            r.logic.default_index() is None,
    {
        let source_id = ExecutorId::new(source);
        let target_ids = ids_from_texts(targets);
        let mut id = String::new();
        append(&mut id, source_id.as_str());
        append(&mut id, "→[switch]");
        let f: SwitchFn<T> = Box::new(switch_fn);
        Edge {
            id: EdgeId(id),
            name: None,
            source: EdgeSource::Single(source_id),
            target: EdgeTarget::Multiple(target_ids),
            kind: EdgeKind::Switch,
            logic: EdgeLogic { condition: None, switch_fn: Some(f), selection_fn: None, default_target: None },
        }
    }

    /// A fan-out edge, which routes to all its targets.
    pub fn fan_out<S: TextLike>(source: S, targets: Vec<impl TextLike>) -> (r: Self)
        ensures
            r.source.ids() == seq![source.text()],
            r.target.ids() == targets@.map_values(|t| TextLike::text(&t)),
            r.target is Multiple,
            r.source is Single,
            r.kind == EdgeKind::FanOut,
            r.id@ == source.text() + "→[fan-out]"@,
            r.name is None,
            r.logic.is_plain(),
            !r.logic.has_condition() && !r.logic.has_switch() && !r.logic.has_selection(),
    {
        let source_id = ExecutorId::new(source);
        let target_ids = ids_from_texts(targets);
        let mut id = String::new();
        append(&mut id, source_id.as_str());
        append(&mut id, "→[fan-out]");
        Edge {
            id: EdgeId(id),
            name: None,
            source: EdgeSource::Single(source_id),
            target: EdgeTarget::Multiple(target_ids),
            kind: EdgeKind::FanOut,
            logic: EdgeLogic::plain(),
        }
    }

    /// A fan-out edge whose targets are chosen by `selection_fn`.
    pub fn fan_out_with_selection<S: TextLike, F>(source: S, targets: Vec<impl TextLike>, selection_fn: F) -> (r: Self) where
        F: Fn(&T, usize) -> Vec<usize> + Send + Sync + 'static,
        ensures
            r.source.ids() == seq![source.text()],
            r.target.ids() == targets@.map_values(|t| TextLike::text(&t)),
            r.target is Multiple,
            r.source is Single,
            r.kind == EdgeKind::FanOut,
            r.id@ == source.text() + "→[fan-out-select]"@,
            r.name is None,
            !r.logic.has_condition() && !r.logic.has_switch() && r.logic.has_selection(),
            forall|m: &T| #[trigger] r.admits(m) <==> call_requires(selection_fn, (m, targets@.len() as usize)),
            forall|m: &T, s: Seq<usize>| #[trigger] r.logic.selection_gives(m, targets@.len() as usize, s) <==>
                exists|v: Vec<usize>| call_ensures(selection_fn, (m, targets@.len() as usize), v) && v@ == s,
            r.logic.default_index() is None,
    {
        let source_id = ExecutorId::new(source);
        let target_ids = ids_from_texts(targets);
        let mut id = String::new();
        append(&mut id, source_id.as_str());
        append(&mut id, "→[fan-out-select]");
        let f: SelectionFn<T> = Box::new(selection_fn);
        Edge {
            id: EdgeId(id),
            name: None,
            source: EdgeSource::Single(source_id),
            target: EdgeTarget::Multiple(target_ids),
            kind: EdgeKind::FanOut,
            logic: EdgeLogic { condition: None, switch_fn: None, selection_fn: Some(f), default_target: None },
        }
    }

    /// A fan-in edge, which aggregates from several sources.
    pub fn fan_in<S: TextLike>(sources: Vec<S>, target: impl TextLike) -> (r: Self)
        ensures
            r.source.ids() == sources@.map_values(|s: S| s.text()),
            r.target.ids() == seq![target.text()],
            r.target is Single,
            r.source is Multiple,
            r.kind == EdgeKind::FanIn,
            r.id@ == "[fan-in]→"@ + target.text(),
            r.name is None,
            r.logic.is_plain(),
            !r.logic.has_condition() && !r.logic.has_switch() && !r.logic.has_selection(),
    {
        let source_ids = ids_from_texts(sources);
        let target_id = ExecutorId::new(target);
        let mut id = String::new();
        append(&mut id, "[fan-in]→");
        append(&mut id, target_id.as_str());
        Edge {
            id: EdgeId(id),
            name: None,
            source: EdgeSource::Multiple(source_ids),
            target: EdgeTarget::Single(target_id),
            kind: EdgeKind::FanIn,
            logic: EdgeLogic::plain(),
        }
    }

    // ========================================================================
    // BUILDER METHODS
    // ========================================================================

    /// The same edge with a human-readable name.
    pub fn with_name(self, name: impl TextLike) -> (r: Self)
        ensures
            r.name matches Some(n) && n@ == name.text(),
            r.id == self.id,
            r.source == self.source,
            r.target == self.target,
            r.kind == self.kind,
            r.logic == self.logic,
    {
        let mut e = self;
        e.name = Some(name.into_string());
        e
    }

    /// The same edge with a custom identifier.
    pub fn with_id(self, id: impl TextLike) -> (r: Self)
        ensures
            r.id@ == id.text(),
            r.name == self.name,
            r.source == self.source,
            r.target == self.target,
            r.kind == self.kind,
            r.logic == self.logic,
    {
        let mut e = self;
        e.id = EdgeId::new(id);
        e
    }

    /// The same edge with a default target index (for switch edges).
    pub fn with_default(self, index: usize) -> (r: Self)
        ensures
            r.logic.default_index() == Some(index),
            r.logic.same_functions(self.logic),
            r.logic.has_condition() == self.logic.has_condition(),
            r.logic.has_switch() == self.logic.has_switch(),
            r.logic.has_selection() == self.logic.has_selection(),
            forall|m: &T| #[trigger] r.admits(m) == self.admits(m),
            forall|m: &T, b: bool| #[trigger] r.logic.condition_gives(m, b) == self.logic.condition_gives(m, b),
            forall|m: &T, p: Option<usize>| #[trigger] r.logic.switch_gives(m, p) == self.logic.switch_gives(m, p),
            forall|m: &T, n: usize, q: Seq<usize>| #[trigger] r.logic.selection_gives(m, n, q)
                == self.logic.selection_gives(m, n, q),
            r.id == self.id,
            r.name == self.name,
            r.source == self.source,
            r.target == self.target,
            r.kind == self.kind,
    {
        let mut e = self;
        e.logic.default_target = Some(index);
        e
    }

    // ========================================================================
    // ROUTING
    // ========================================================================

    /// Whether this edge activates for `message`: only a conditional edge
    /// asks its condition; every other edge activates.
    pub fn should_activate(&self, message: &T) -> (b: bool)
        requires
            self.admits(message),
        ensures
            self.may_activate(message, b),
    {
        match self.kind {
            EdgeKind::Conditional => match &self.logic.condition {
                Some(cond) => cond.check(message),
                None => true,
            },
            _ => true,
        }
    }

    /// The targets the edge routes to, given the answers of its functions.
    pub fn route_with(&self, active: bool, picked: Option<usize>, indices: &Vec<usize>) -> (r: Vec<ExecutorId>)
        ensures
            id_views(r@) == self.routed(active, picked, indices@),
    {
        match self.kind {
            EdgeKind::Direct => self.target.to_ids(),
            EdgeKind::FanIn => self.target.to_ids(),
            EdgeKind::Conditional => {
                if active {
                    self.target.to_ids()
                } else {
                    let v: Vec<ExecutorId> = Vec::new();
                    assert(id_views(v@) =~= Seq::<Seq<char>>::empty());
                    v
                }
            },
            EdgeKind::Switch => {
                let mut v: Vec<ExecutorId> = Vec::new();
                if let EdgeTarget::Multiple(targets) = &self.target {
                    let index = match picked {
                        Some(i) => Some(i),
                        None => self.logic.default_target,
                    };
                    if let Some(i) = index {
                        if i < targets.len() {
                            v.push(targets[i].clone());
                        }
                    }
                }
                assert(id_views(v@) =~= self.routed(active, picked, indices@));
                v
            },
            EdgeKind::FanOut => {
                match &self.target {
                    EdgeTarget::Multiple(targets) => {
                        if indices.len() == 0 {
                            clone_ids(targets)
                        } else {
                            select_targets(targets, indices)
                        }
                    },
                    EdgeTarget::Single(_) => self.target.to_ids(),
                }
            },
        }
    }

    /// The target executor(s) for `message`, asking the edge's functions.
    pub fn route(&self, message: &T) -> (r: Vec<ExecutorId>)
        requires
            self.admits(message),
        ensures
            self.may_route(message, id_views(r@)),
    {
        let active = match self.kind {
            EdgeKind::Conditional => match &self.logic.condition {
                Some(c) => c.check(message),
                None => true,
            },
            _ => true,
        };
        let picked = match self.kind {
            EdgeKind::Switch => match &self.logic.switch_fn {
                Some(f) => match &self.target {
                    EdgeTarget::Multiple(_) => f.pick(message),
                    EdgeTarget::Single(_) => None,
                },
                None => None,
            },
            _ => None,
        };
        let indices = match self.kind {
            EdgeKind::FanOut => match &self.logic.selection_fn {
                Some(f) => match &self.target {
                    EdgeTarget::Multiple(ts) => f.select(message, ts.len()),
                    EdgeTarget::Single(_) => Vec::new(),
                },
                None => Vec::new(),
            },
            _ => Vec::new(),
        };
        let r = self.route_with(active, picked, &indices);
        assert(self.condition_yields(message, active) && self.switch_yields(message, picked)
            && self.selection_yields(message, indices@) && id_views(r@) == self.routed(active, picked, indices@));
        r
    }

    /// Whether this edge originates from the given executor.
    pub fn is_from(&self, executor_id: &ExecutorId) -> (b: bool)
        ensures
            b == self.source.ids().contains(executor_id@),
    {
        self.source.contains(executor_id)
    }

    /// Whether this edge targets the given executor.
    pub fn is_to(&self, executor_id: &ExecutorId) -> (b: bool)
        ensures
            b == self.target.ids().contains(executor_id@),
    {
        self.target.contains(executor_id)
    }
}

/// The targets at `indices`, in the order of `indices`, skipping indices out
/// of range.
fn select_targets(targets: &Vec<ExecutorId>, indices: &Vec<usize>) -> (r: Vec<ExecutorId>)
    ensures
        id_views(r@) == selected(id_views(targets@), indices@),
{
    let mut r: Vec<ExecutorId> = Vec::new();
    let mut k: usize = 0;
    while k < indices.len()
        invariant
            k <= indices@.len(),
            id_views(r@) == selected(id_views(targets@), indices@.take(k as int)),
        decreases indices.len() - k,
    {
        let i = indices[k];
        proof {
            let t = indices@.take(k + 1);
            assert(t.drop_last() =~= indices@.take(k as int));
            assert(t.last() == i);
        }
        if i < targets.len() {
            r.push(targets[i].clone());
        }
        assert(id_views(r@) =~= selected(id_views(targets@), indices@.take(k + 1)));
        k = k + 1;
    }
    assert(indices@.take(indices@.len() as int) =~= indices@);
    r
}


// ============================================================================
// EDGE COLLECTION
// ============================================================================

/// The edges behind a sequence of references.
pub open spec fn derefs<T: Send + Sync + 'static>(s: Seq<&Edge<T>>) -> Seq<Edge<T>> {
    s.map_values(|e: &Edge<T>| *e)
}

/// The edges of `edges` that leave the executor `id`, in order.
pub open spec fn edges_from<T: Send + Sync + 'static>(edges: Seq<Edge<T>>, id: Seq<char>) -> Seq<Edge<T>> {
    edges.filter(|e: Edge<T>| e.source.ids().contains(id))
}

/// The edges of `edges` that enter the executor `id`, in order.
pub open spec fn edges_to<T: Send + Sync + 'static>(edges: Seq<Edge<T>>, id: Seq<char>) -> Seq<Edge<T>> {
    edges.filter(|e: Edge<T>| e.target.ids().contains(id))
}

/// The parts joined end to end.
pub open spec fn concat_all(parts: Seq<Seq<Seq<char>>>) -> Seq<Seq<char>>
    decreases parts.len(),
{
    if parts.len() == 0 {
        Seq::empty()
    } else {
        concat_all(parts.drop_last()) + parts.last()
    }
}

/// `part` is a possible contribution of `edge` when a message is routed
/// through a collection: nothing when the edge does not activate, else a
/// possible result of routing through it.
pub open spec fn contributes<T: Send + Sync + 'static>(edge: Edge<T>, message: &T, part: Seq<Seq<char>>) -> bool {
    ||| edge.may_activate(message, false) && part.len() == 0
    ||| edge.may_activate(message, true) && edge.may_route(message, part)
}

/// `out` is a possible result of routing `message` through `edges` in
/// order, each edge contributing its part.
pub open spec fn may_route_all<T: Send + Sync + 'static>(edges: Seq<Edge<T>>, message: &T, out: Seq<Seq<char>>) -> bool {
    exists|parts: Seq<Seq<Seq<char>>>|
        #![trigger concat_all(parts)]
        parts.len() == edges.len() && out == concat_all(parts)
            && forall|j: int| 0 <= j < edges.len() ==> #[trigger] contributes(edges[j], message, parts[j])
}

/// A collection of edges for a workflow.
#[verifier::reject_recursive_types(T)]
pub struct EdgeCollection<T: Send + Sync + 'static> {
    edges: Vec<Edge<T>>,
}

impl<T: Send + Sync + 'static> View for EdgeCollection<T> {
    type V = Seq<Edge<T>>;

    closed spec fn view(&self) -> Seq<Edge<T>> {
        self.edges@
    }
}

impl<T: Send + Sync + 'static> Default for EdgeCollection<T> {
    fn default() -> (r: Self)
        ensures
            r@ == Seq::<Edge<T>>::empty(),
    {
        Self::new()
    }
}

impl<T: Send + Sync + 'static> EdgeCollection<T> {
    /// An empty collection.
    pub fn new() -> (r: Self)
        ensures
            r@ == Seq::<Edge<T>>::empty(),
    {
        EdgeCollection { edges: Vec::new() }
    }

    /// Add an edge to the collection.
    pub fn add(&mut self, edge: Edge<T>)
        ensures
            final(self)@ == old(self)@.push(edge),
    {
        self.edges.push(edge);
    }

    /// Get all edges originating from an executor.
    pub fn from_executor(&self, executor_id: &ExecutorId) -> (r: Vec<&Edge<T>>)
        ensures
            derefs(r@) == edges_from(self@, executor_id@),
    {
        let mut r: Vec<&Edge<T>> = Vec::new();
        let mut i: usize = 0;
        while i < self.edges.len()
            invariant
                i <= self.edges@.len(),
                derefs(r@) == edges_from(self.edges@.take(i as int), executor_id@),
            decreases self.edges.len() - i,
        {
            let ghost before = r@;
            let e = &self.edges[i];
            if e.is_from(executor_id) {
                r.push(e);
            }
            proof {
                let t = self.edges@.take(i + 1);
                assert(t.drop_last() =~= self.edges@.take(i as int));
                assert(t.last() == self.edges@[i as int]);
                reveal(Seq::filter);
                assert(derefs(r@) =~= edges_from(t, executor_id@));
            }
            i = i + 1;
        }
        assert(self.edges@.take(self.edges@.len() as int) =~= self.edges@);
        r
    }

    /// Get all edges targeting an executor.
    pub fn to_executor(&self, executor_id: &ExecutorId) -> (r: Vec<&Edge<T>>)
        ensures
            derefs(r@) == edges_to(self@, executor_id@),
    {
        let mut r: Vec<&Edge<T>> = Vec::new();
        let mut i: usize = 0;
        while i < self.edges.len()
            invariant
                i <= self.edges@.len(),
                derefs(r@) == edges_to(self.edges@.take(i as int), executor_id@),
            decreases self.edges.len() - i,
        {
            let e = &self.edges[i];
            if e.is_to(executor_id) {
                r.push(e);
            }
            proof {
                let t = self.edges@.take(i + 1);
                assert(t.drop_last() =~= self.edges@.take(i as int));
                assert(t.last() == self.edges@[i as int]);
                reveal(Seq::filter);
                assert(derefs(r@) =~= edges_to(t, executor_id@));
            }
            i = i + 1;
        }
        assert(self.edges@.take(self.edges@.len() as int) =~= self.edges@);
        r
    }

    /// Get the first edge with the given identifier.
    pub fn get(&self, id: &EdgeId) -> (r: Option<&Edge<T>>)
        ensures
            match r {
                Some(e) => exists|i: int|
                    0 <= i < self@.len() && self@[i] == *e && e.id@ == id@
                        && forall|j: int| 0 <= j < i ==> (#[trigger] self@[j]).id@ != id@,
                None => forall|j: int| 0 <= j < self@.len() ==> (#[trigger] self@[j]).id@ != id@,
            },
    {
        let mut i: usize = 0;
        while i < self.edges.len()
            invariant
                i <= self.edges@.len(),
                forall|j: int| 0 <= j < i ==> (#[trigger] self.edges@[j]).id@ != id@,
            decreases self.edges.len() - i,
        {
            if self.edges[i].id == *id {
                return Some(&self.edges[i]);
            }
            i = i + 1;
        }
        None
    }

    /// Get all edges.
    pub fn all(&self) -> (r: &[Edge<T>])
        ensures
            r@ == self@,
    {
        self.edges.as_slice()
    }

    /// Get the number of edges.
    pub fn len(&self) -> (n: usize)
        ensures
            n == self@.len(),
    {
        self.edges.len()
    }

    /// Check if empty.
    pub fn is_empty(&self) -> (b: bool)
        ensures
            b == (self@.len() == 0),
    {
        self.edges.len() == 0
    }

    /// Route a message from an executor through all edges that leave it,
    /// in the order they were added.
    pub fn route_from(&self, executor_id: &ExecutorId, message: &T) -> (r: Vec<ExecutorId>)
        requires
            forall|j: int| 0 <= j < edges_from(self@, executor_id@).len()
                ==> (#[trigger] edges_from(self@, executor_id@)[j]).admits(message),
        ensures
            may_route_all(edges_from(self@, executor_id@), message, id_views(r@)),
    {
        let edges = self.from_executor(executor_id);
        let ghost from = edges_from(self@, executor_id@);
        let mut targets: Vec<ExecutorId> = Vec::new();
        let ghost mut parts: Seq<Seq<Seq<char>>> = Seq::empty();
        let mut i: usize = 0;
        while i < edges.len()
            invariant
                i <= edges@.len(),
                derefs(edges@) == from,
                forall|j: int| 0 <= j < from.len() ==> (#[trigger] from[j]).admits(message),
                parts.len() == i,
                id_views(targets@) == concat_all(parts),
                forall|j: int| 0 <= j < i ==> #[trigger] contributes(from[j], message, parts[j]),
            decreases edges.len() - i,
        {
            let edge = edges[i];
            assert(*edge == from[i as int]);
            let ghost before = targets@;
            let mut part: Vec<ExecutorId> = Vec::new();
            if edge.should_activate(message) {
                part = edge.route(message);
            }
            let ghost part_view = id_views(part@);
            assert(contributes(from[i as int], message, part_view));
            targets.append(&mut part);
            proof {
                let old_parts = parts;
                parts = parts.push(part_view);
                assert(parts.drop_last() =~= old_parts);
                assert(id_views(targets@) =~= id_views(before) + part_view);
                assert forall|j: int| 0 <= j < i + 1 implies #[trigger] contributes(from[j], message, parts[j]) by {
                    if j < i {
                        assert(parts[j] == old_parts[j]);
                    }
                }
            }
            i = i + 1;
        }
        proof {
            assert(may_route_all(from, message, id_views(targets@)));
        }
        targets
    }
}


// ============================================================================
// ROUTING LAWS
// ============================================================================

/// A direct or fan-in edge always activates and always routes to exactly its
/// targets, whatever the message.
pub proof fn lemma_unconditional_edge_routes_to_targets<T: Send + Sync + 'static>(edge: Edge<T>, message: &T, out: Seq<Seq<char>>)
    requires
        edge.kind == EdgeKind::Direct || edge.kind == EdgeKind::FanIn,
    ensures
        edge.may_route(message, out) <==> out == edge.target.ids(),
        edge.may_activate(message, true),
        !edge.may_activate(message, false),
{
    if out == edge.target.ids() {
        assert(edge.condition_yields(message, true) && edge.switch_yields(message, None)
            && edge.selection_yields(message, Seq::empty()) && out == edge.routed(true, None, Seq::empty()));
    }
}

/// A conditional edge routes to its target when its condition can only hold
/// for the message, and to nothing when it can only fail.
pub proof fn lemma_conditional_edge_follows_condition<T: Send + Sync + 'static>(edge: Edge<T>, message: &T, out: Seq<Seq<char>>)
    requires
        edge.kind == EdgeKind::Conditional,
        edge.logic.has_condition(),
        edge.may_route(message, out),
    ensures
        (forall|b: bool| #[trigger] edge.logic.condition_gives(message, b) ==> b) ==> out == edge.target.ids(),
        (forall|b: bool| #[trigger] edge.logic.condition_gives(message, b) ==> !b) ==> out.len() == 0,
{
    let (active, picked, indices) = choose|active: bool, picked: Option<usize>, indices: Seq<usize>|
        edge.condition_yields(message, active) && edge.switch_yields(message, picked)
            && edge.selection_yields(message, indices) && out == edge.routed(active, picked, indices);
    assert(edge.logic.condition_gives(message, active));
}

/// A switch edge routes to the target at the index its function picks, or,
/// when the function picks none, to the target at its default index; an
/// index out of range routes nowhere.
pub proof fn lemma_switch_edge_routes_to_picked<T: Send + Sync + 'static>(edge: Edge<T>, message: &T, picked: Option<usize>, out: Seq<Seq<char>>)
    requires
        edge.kind == EdgeKind::Switch,
        edge.target is Multiple,
        edge.logic.has_switch(),
        edge.may_route(message, out),
        forall|p: Option<usize>| #[trigger] edge.logic.switch_gives(message, p) ==> p == picked,
    ensures
        out == switch_route(edge.target.ids(), picked, edge.logic.default_index()),
{
    let (active, p, indices) = choose|active: bool, p: Option<usize>, indices: Seq<usize>|
        edge.condition_yields(message, active) && edge.switch_yields(message, p)
            && edge.selection_yields(message, indices) && out == edge.routed(active, p, indices);
    assert(edge.logic.switch_gives(message, p));
}

/// A fan-out edge without a selection function routes to all its targets, in
/// order.
pub proof fn lemma_fan_out_routes_to_all<T: Send + Sync + 'static>(edge: Edge<T>, message: &T, out: Seq<Seq<char>>)
    requires
        edge.kind == EdgeKind::FanOut,
        !edge.logic.has_selection(),
    ensures
        edge.may_route(message, out) <==> out == edge.target.ids(),
{
    if out == edge.target.ids() {
        assert(edge.condition_yields(message, true) && edge.switch_yields(message, None)
            && edge.selection_yields(message, Seq::empty()) && out == edge.routed(true, None, Seq::empty()));
    }
}

/// Routing from an executor whose leaving edges are all direct or fan-in
/// edges gives the targets of those edges, in the order the edges were added.
pub proof fn lemma_route_all_unconditional<T: Send + Sync + 'static>(edges: Seq<Edge<T>>, message: &T, out: Seq<Seq<char>>)
    requires
        forall|j: int| 0 <= j < edges.len()
            ==> (#[trigger] edges[j]).kind == EdgeKind::Direct || edges[j].kind == EdgeKind::FanIn,
        may_route_all(edges, message, out),
    ensures
        out == concat_all(Seq::new(edges.len(), |j: int| edges[j].target.ids())),
{
    let parts = choose|parts: Seq<Seq<Seq<char>>>|
        #![trigger concat_all(parts)]
        parts.len() == edges.len() && out == concat_all(parts)
            && forall|j: int| 0 <= j < edges.len() ==> #[trigger] contributes(edges[j], message, parts[j]);
    assert forall|j: int| 0 <= j < edges.len() implies parts[j] == edges[j].target.ids() by {
        lemma_unconditional_edge_routes_to_targets(edges[j], message, parts[j]);
        assert(contributes(edges[j], message, parts[j]));
    }
    assert(parts =~= Seq::new(edges.len(), |j: int| edges[j].target.ids()));
}

} // verus!
