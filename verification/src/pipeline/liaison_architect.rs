//! Liaison architect: coherence between the outputs of executors that
//! worked in parallel on the parts of one module (imports, types, impl,
//! tests).
//!
//! It reads every part, records the types, fields, methods and imports
//! that are defined and used, reports the inconsistencies, and writes the
//! prompts that ask an executor for one coherent module. The sets of names
//! it records keep the order in which names were first seen.
use vstd::prelude::*;
use crate::pattern::{captures_all, group, group_at, opt_views, opt_views_all, regex_captures_all};
use crate::text::{
    append, chars_of, contains_str, decimal, has_infix, push_char, push_decimal, str_eq, to_owned, views, TextLike,
};

verus! {

broadcast use vstd::seq::group_seq_axioms;

// ============================================================================
// NAME SETS AND NAME-SET MAPS
// ============================================================================

/// A set of names as a list in first-insertion order: adding a name that
/// is there changes nothing.
pub open spec fn set_add(s: Seq<Seq<char>>, x: Seq<char>) -> Seq<Seq<char>> {
    if s.contains(x) {
        s
    } else {
        s.push(x)
    }
}

/// A map from names to name sets, as a list of entries in first-insertion
/// order.
pub type NameSetMap = Seq<(Seq<char>, Seq<Seq<char>>)>;

/// The index of the last entry for a key, if any.
pub open spec fn key_index(m: NameSetMap, k: Seq<char>) -> Option<int>
    decreases m.len(),
{
    if m.len() == 0 {
        None
    } else if m.last().0 == k {
        Some(m.len() - 1)
    } else {
        key_index(m.drop_last(), k)
    }
}

/// The set of a key, if it has an entry.
pub open spec fn map_get(m: NameSetMap, k: Seq<char>) -> Option<Seq<Seq<char>>> {
    match key_index(m, k) {
        Some(i) => Some(m[i].1),
        None => None,
    }
}

/// The map with an entry for a key, added with an empty set if missing.
pub open spec fn map_ensure(m: NameSetMap, k: Seq<char>) -> NameSetMap {
    match key_index(m, k) {
        Some(i) => m,
        None => m.push((k, Seq::empty())),
    }
}

/// The map with a name added to a key's set (the entry added if missing).
pub open spec fn map_add(m: NameSetMap, k: Seq<char>, v: Seq<char>) -> NameSetMap {
    match key_index(m, k) {
        Some(i) => m.update(i, (k, set_add(m[i].1, v))),
        None => m.push((k, seq![v])),
    }
}

/// The map with a key's set replaced by the empty set (the entry added if
/// missing).
pub open spec fn map_clear(m: NameSetMap, k: Seq<char>) -> NameSetMap {
    match key_index(m, k) {
        Some(i) => m.update(i, (k, Seq::empty())),
        None => m.push((k, Seq::empty())),
    }
}

/// The last index of a key lies within the map and holds the key.
pub proof fn lemma_key_index(m: NameSetMap, k: Seq<char>)
    ensures
        key_index(m, k) matches Some(i) ==> 0 <= i < m.len() && m[i].0 == k,
    decreases m.len(),
{
    if m.len() > 0 && m.last().0 != k {
        lemma_key_index(m.drop_last(), k);
    }
}

/// A set of names, kept in the order they were first added.
#[derive(Debug, Clone)]
pub struct NameSet {
    items: Vec<String>,
}

impl View for NameSet {
    type V = Seq<Seq<char>>;

    closed spec fn view(&self) -> Seq<Seq<char>> {
        views(self.items@)
    }
}

/// Whether a list of strings holds a text.
pub fn holds_text(items: &Vec<String>, x: &str) -> (b: bool)
    ensures
        b == views(items@).contains(x@),
{
    let mut i: usize = 0;
    while i < items.len()
        invariant
            i <= items@.len(),
            forall|j: int| 0 <= j < i ==> items@[j]@ != x@,
        decreases items.len() - i,
    {
        if str_eq(items[i].as_str(), x) {
            assert(views(items@)[i as int] == x@);
            return true;
        }
        i = i + 1;
    }
    proof {
        if views(items@).contains(x@) {
            let j = choose|j: int| 0 <= j < views(items@).len() && views(items@)[j] == x@;
            assert(items@[j]@ == x@);
        }
    }
    false
}

impl NameSet {
    /// An empty set.
    pub fn new() -> (r: Self)
        ensures
            r@ == Seq::<Seq<char>>::empty(),
    {
        let r = NameSet { items: Vec::new() };
        assert(r@ =~= Seq::<Seq<char>>::empty());
        r
    }

    /// Adds a name, unless it is there.
    pub fn insert(&mut self, x: &str)
        ensures
            final(self)@ == set_add(old(self)@, x@),
    {
        if !holds_text(&self.items, x) {
            self.items.push(to_owned(x));
            assert(self@ =~= old(self)@.push(x@));
        }
    }

    /// Whether a name is in the set.
    pub fn contains(&self, x: &str) -> (b: bool)
        ensures
            b == self@.contains(x@),
    {
        holds_text(&self.items, x)
    }

    /// The number of names.
    pub fn len(&self) -> (n: usize)
        ensures
            n == self@.len(),
    {
        self.items.len()
    }

    /// Whether the set is empty.
    pub fn is_empty(&self) -> (b: bool)
        ensures
            b == (self@.len() == 0),
    {
        self.items.len() == 0
    }

    /// The names, in the order they were first added.
    pub fn items(&self) -> (r: &Vec<String>)
        ensures
            views(r@) == self@,
    {
        &self.items
    }
}

/// A map from names to sets of names, with its keys in the order they were
/// first added.
#[derive(Debug, Clone)]
pub struct NameSetMapping {
    entries: Vec<(String, NameSet)>,
}

/// The model of a list of entries.
pub open spec fn entry_views(v: Seq<(String, NameSet)>) -> NameSetMap {
    v.map_values(|e: (String, NameSet)| (e.0@, e.1@))
}

impl View for NameSetMapping {
    type V = NameSetMap;

    closed spec fn view(&self) -> NameSetMap {
        entry_views(self.entries@)
    }
}

impl NameSetMapping {
    /// An empty map.
    pub fn new() -> (r: Self)
        ensures
            r@ == Seq::<(Seq<char>, Seq<Seq<char>>)>::empty(),
    {
        let r = NameSetMapping { entries: Vec::new() };
        assert(r@ =~= Seq::<(Seq<char>, Seq<Seq<char>>)>::empty());
        r
    }

    /// The index of the last entry for a key.
    fn find(&self, k: &str) -> (r: Option<usize>)
        ensures
            match r {
                Some(i) => key_index(self@, k@) == Some(i as int),
                None => key_index(self@, k@) is None,
            },
    {
        let mut i: usize = self.entries.len();
        proof {
            assert(self@.len() == self.entries@.len());
            assert(self@.take(self@.len() as int) =~= self@);
        }
        while i > 0
            invariant
                i <= self.entries@.len(),
                key_index(self@, k@) == key_index(self@.take(i as int), k@),
            decreases i,
        {
            proof {
                let t = self@.take(i as int);
                assert(t.drop_last() =~= self@.take(i - 1));
                assert(t.last() == self@[i - 1]);
            }
            if str_eq(self.entries[i - 1].0.as_str(), k) {
                return Some(i - 1);
            }
            i = i - 1;
        }
        assert(self@.take(0) =~= Seq::<(Seq<char>, Seq<Seq<char>>)>::empty());
        proof {
            assert(self@.take(self@.len() as int) =~= self@);
        }
        None
    }

    /// The set of a key, if it has an entry.
    pub fn get(&self, k: &str) -> (r: Option<&NameSet>)
        ensures
            match r {
                Some(s) => map_get(self@, k@) == Some(s@),
                None => map_get(self@, k@) is None,
            },
    {
        proof {
            assert(self@.take(self@.len() as int) =~= self@);
        }
        match self.find(k) {
            Some(i) => {
                proof {
                    lemma_key_index(self@, k@);
                }
                Some(&self.entries[i].1)
            },
            None => None,
        }
    }

    /// Makes sure a key has an entry, with an empty set if it had none.
    pub fn ensure(&mut self, k: &str)
        ensures
            final(self)@ == map_ensure(old(self)@, k@),
    {
        proof {
            assert(self@.take(self@.len() as int) =~= self@);
        }
        match self.find(k) {
            Some(_) => {},
            None => {
                self.entries.push((to_owned(k), NameSet::new()));
                assert(self@ =~= old(self)@.push((k@, Seq::<Seq<char>>::empty())));
            },
        }
    }

    /// Adds a name to a key's set (adding the key if missing).
    pub fn add(&mut self, k: &str, v: &str)
        ensures
            final(self)@ == map_add(old(self)@, k@, v@),
    {
        proof {
            assert(self@.take(self@.len() as int) =~= self@);
        }
        match self.find(k) {
            Some(i) => {
                proof {
                    lemma_key_index(self@, k@);
                }
                let mut entry = self.entries.remove(i);
                entry.1.insert(v);
                self.entries.insert(i, entry);
                assert(self@ =~= old(self)@.update(i as int, (k@, set_add(old(self)@[i as int].1, v@))));
            },
            None => {
                let mut s = NameSet::new();
                s.insert(v);
                self.entries.push((to_owned(k), s));
                assert(self@ =~= old(self)@.push((k@, seq![v@])));
            },
        }
    }

    /// Replaces a key's set by the empty set (adding the key if missing).
    pub fn clear_key(&mut self, k: &str)
        ensures
            final(self)@ == map_clear(old(self)@, k@),
    {
        proof {
            assert(self@.take(self@.len() as int) =~= self@);
        }
        match self.find(k) {
            Some(i) => {
                proof {
                    lemma_key_index(self@, k@);
                }
                let entry = self.entries.remove(i);
                self.entries.insert(i, (entry.0, NameSet::new()));
                assert(self@ =~= old(self)@.update(i as int, (k@, Seq::<Seq<char>>::empty())));
            },
            None => {
                self.entries.push((to_owned(k), NameSet::new()));
                assert(self@ =~= old(self)@.push((k@, Seq::<Seq<char>>::empty())));
            },
        }
    }

    /// The number of keys.
    pub fn len(&self) -> (n: usize)
        ensures
            n == self@.len(),
    {
        self.entries.len()
    }

    /// The entries, in the order their keys were first added.
    pub fn entries(&self) -> (r: &Vec<(String, NameSet)>)
        ensures
            entry_views(r@) == self@,
    {
        &self.entries
    }
}


// ============================================================================
// REPORT
// ============================================================================

/// The output of one executor working on a part of a module.
#[derive(Debug)]
pub struct SubTaskResult {
    /// The part's identifier (`imports`, `types`, `impl` or `tests`).
    pub id: String,
    /// The part's display name.
    pub name: String,
    /// The code produced.
    pub code: String,
    /// Whether the executor succeeded.
    pub success: bool,
    /// The executor's error, if it failed.
    pub error: Option<String>,
}

/// Errors that can occur during liaison operations.
#[derive(Debug)]
pub enum LiaisonError {
    /// The executor failed to generate code
    ExecutorFailed(String),
    /// Syntax validation failed after retries
    SyntaxError(String),
}

/// The text a liaison error is displayed as.
pub open spec fn liaison_error_text(e: LiaisonError) -> Seq<char> {
    match e {
        LiaisonError::ExecutorFailed(m) => "Executor failed: "@ + m@,
        LiaisonError::SyntaxError(m) => "Syntax error: "@ + m@,
    }
}

impl LiaisonError {
    /// The error's text.
    pub fn to_string(&self) -> (r: String)
        ensures
            r@ == liaison_error_text(*self),
    {
        let mut s = String::new();
        match self {
            LiaisonError::ExecutorFailed(m) => {
                append(&mut s, "Executor failed: ");
                append(&mut s, m.as_str());
            },
            LiaisonError::SyntaxError(m) => {
                append(&mut s, "Syntax error: ");
                append(&mut s, m.as_str());
            },
        }
        assert(s@ =~= liaison_error_text(*self));
        s
    }
}

/// Kinds of coherence issue.
#[derive(Debug, Clone, Copy, PartialEq, Eq, Structural)]
pub enum IssueCategory {
    /// Field referenced in impl but not defined in types
    MissingField,
    /// Method called but not defined
    MissingMethod,
    /// Import used but not declared
    MissingImport,
    /// Type used but not defined
    MissingType,
    /// Name mismatch between definition and usage
    NameMismatch,
}

/// The name of an issue category, as it is printed.
pub open spec fn category_name(c: IssueCategory) -> Seq<char> {
    match c {
        IssueCategory::MissingField => "MissingField"@,
        IssueCategory::MissingMethod => "MissingMethod"@,
        IssueCategory::MissingImport => "MissingImport"@,
        IssueCategory::MissingType => "MissingType"@,
        IssueCategory::NameMismatch => "NameMismatch"@,
    }
}

impl IssueCategory {
    /// The category's name, as it is printed.
    pub fn name(&self) -> (r: &'static str)
        ensures
            r@ == category_name(*self),
    {
        match self {
            IssueCategory::MissingField => "MissingField",
            IssueCategory::MissingMethod => "MissingMethod",
            IssueCategory::MissingImport => "MissingImport",
            IssueCategory::MissingType => "MissingType",
            IssueCategory::NameMismatch => "NameMismatch",
        }
    }
}

/// An issue found during coherence analysis.
#[derive(Debug)]
pub struct CoherenceIssue {
    pub category: IssueCategory,
    pub description: String,
    pub location: String,
}

/// An issue as its category, description and location.
pub type IssueModel = (IssueCategory, Seq<char>, Seq<char>);

/// The models of some issues.
pub open spec fn issue_views(v: Seq<CoherenceIssue>) -> Seq<IssueModel> {
    v.map_values(|i: CoherenceIssue| (i.category, i.description@, i.location@))
}

/// Result of coherence analysis.
#[derive(Debug)]
pub struct CoherenceReport {
    pub issues: Vec<CoherenceIssue>,
    pub defined_types: NameSet,
    pub defined_fields: NameSetMapping,
    pub defined_methods: NameSetMapping,
    pub used_fields: NameSetMapping,
    pub used_methods: NameSetMapping,
    pub declared_imports: NameSet,
    pub needed_imports: NameSet,
}

/// What a coherence report holds, as names.
pub struct ReportModel {
    pub issues: Seq<IssueModel>,
    pub defined_types: Seq<Seq<char>>,
    pub defined_fields: NameSetMap,
    pub defined_methods: NameSetMap,
    pub used_fields: NameSetMap,
    pub used_methods: NameSetMap,
    pub declared_imports: Seq<Seq<char>>,
    pub needed_imports: Seq<Seq<char>>,
}

impl View for CoherenceReport {
    type V = ReportModel;

    open spec fn view(&self) -> ReportModel {
        ReportModel {
            issues: issue_views(self.issues@),
            defined_types: self.defined_types@,
            defined_fields: self.defined_fields@,
            defined_methods: self.defined_methods@,
            used_fields: self.used_fields@,
            used_methods: self.used_methods@,
            declared_imports: self.declared_imports@,
            needed_imports: self.needed_imports@,
        }
    }
}

/// A report with nothing recorded.
pub open spec fn empty_report() -> ReportModel {
    ReportModel {
        issues: Seq::empty(),
        defined_types: Seq::empty(),
        defined_fields: Seq::empty(),
        defined_methods: Seq::empty(),
        used_fields: Seq::empty(),
        used_methods: Seq::empty(),
        declared_imports: Seq::empty(),
        needed_imports: Seq::empty(),
    }
}

impl CoherenceReport {
    /// A report with nothing recorded.
    pub fn new() -> (r: Self)
        ensures
            r@ == empty_report(),
    {
        let r = CoherenceReport {
            issues: Vec::new(),
            defined_types: NameSet::new(),
            defined_fields: NameSetMapping::new(),
            defined_methods: NameSetMapping::new(),
            used_fields: NameSetMapping::new(),
            used_methods: NameSetMapping::new(),
            declared_imports: NameSet::new(),
            needed_imports: NameSet::new(),
        };
        assert(r@.issues =~= Seq::<IssueModel>::empty());
        r
    }
}


// ============================================================================
// EXTRACTION: SPECIFICATIONS
// ============================================================================

/// The matches of a pattern, each as the texts of its groups.
pub type Matches = Seq<Seq<Option<Seq<char>>>>;

/// `use` declarations: the path of each.
pub open spec fn use_pattern() -> Seq<char> {
    r"use\s+([^;]+);"@
}

/// Struct definitions: the name of each.
pub open spec fn struct_pattern() -> Seq<char> {
    r"(?:pub\s+)?struct\s+(\w+)"@
}

/// Enum definitions: the name of each.
pub open spec fn enum_pattern() -> Seq<char> {
    r"(?:pub\s+)?enum\s+(\w+)"@
}

/// Fields in a struct body: the name of each.
pub open spec fn field_pattern() -> Seq<char> {
    r"(?:pub\s+)?(\w+)\s*:\s*[^,}]+"@
}

/// Struct definitions with a body: the name and the body of each.
pub open spec fn struct_body_pattern() -> Seq<char> {
    r"struct\s+(\w+)[^{]*\{([^}]+)\}"@
}

/// Impl headers: the implemented name of each.
pub open spec fn impl_pattern() -> Seq<char> {
    r"impl(?:<[^>]*>)?\s+(\w+)"@
}

/// Function definitions: the name of each.
pub open spec fn method_pattern() -> Seq<char> {
    r"(?:pub\s+)?(?:async\s+)?fn\s+(\w+)"@
}

/// Impl blocks: the implemented name of each.
pub open spec fn impl_block_pattern() -> Seq<char> {
    r"impl(?:<[^>]*>)?\s+(\w+)[^{]*\{"@
}

/// Field uses through `self`: the field name of each.
pub open spec fn field_usage_pattern() -> Seq<char> {
    r"self\.(\w+)"@
}

/// Method calls: the method name of each.
pub open spec fn method_call_pattern() -> Seq<char> {
    r"\.(\w+)\s*\("@
}

/// Adds group 1 of each match to a name set.
pub open spec fn add_group_names(s: Seq<Seq<char>>, ms: Matches) -> Seq<Seq<char>>
    decreases ms.len(),
{
    if ms.len() == 0 {
        s
    } else {
        let prev = add_group_names(s, ms.drop_last());
        match group(ms.last(), 1) {
            Some(x) => set_add(prev, x),
            None => prev,
        }
    }
}

/// Empties the set of the name in group 1 of each match.
pub open spec fn clear_group_keys(m: NameSetMap, ms: Matches) -> NameSetMap
    decreases ms.len(),
{
    if ms.len() == 0 {
        m
    } else {
        let prev = clear_group_keys(m, ms.drop_last());
        match group(ms.last(), 1) {
            Some(x) => map_clear(prev, x),
            None => prev,
        }
    }
}

/// Adds to the set of `k` group 1 of each match, except `pub`.
pub open spec fn add_field_names(m: NameSetMap, k: Seq<char>, ms: Matches) -> NameSetMap
    decreases ms.len(),
{
    if ms.len() == 0 {
        m
    } else {
        let prev = add_field_names(m, k, ms.drop_last());
        match group(ms.last(), 1) {
            Some(x) => if x != "pub"@ {
                map_add(prev, k, x)
            } else {
                prev
            },
            None => prev,
        }
    }
}

/// For each struct with a body (name in group 1, body in group 2), adds
/// the fields of the body to the struct's set.
pub open spec fn add_body_fields(m: NameSetMap, ms: Matches) -> NameSetMap
    decreases ms.len(),
{
    if ms.len() == 0 {
        m
    } else {
        let prev = add_body_fields(m, ms.drop_last());
        match (group(ms.last(), 1), group(ms.last(), 2)) {
            (Some(n), Some(b)) => add_field_names(prev, n, regex_captures_all(field_pattern(), b)),
            _ => prev,
        }
    }
}

/// Names of implemented traits that an impl header does not define
/// methods for.
pub open spec fn is_common_trait(t: Seq<char>) -> bool {
    t == "Default"@ || t == "Clone"@ || t == "Debug"@ || t == "Display"@ || t == "Error"@ || t == "From"@
}

/// Names of implemented traits that an impl block's methods are not
/// recorded for.
pub open spec fn is_derived_trait(t: Seq<char>) -> bool {
    t == "Default"@ || t == "Clone"@ || t == "Debug"@
}

/// Method names that are not recorded as defined methods.
pub open spec fn is_plumbing_method(n: Seq<char>) -> bool {
    n == "new"@ || n == "default"@ || n == "fmt"@
}

/// Gives an entry to the name in group 1 of each match, except common
/// traits.
pub open spec fn ensure_group_keys(m: NameSetMap, ms: Matches) -> NameSetMap
    decreases ms.len(),
{
    if ms.len() == 0 {
        m
    } else {
        let prev = ensure_group_keys(m, ms.drop_last());
        match group(ms.last(), 1) {
            Some(t) => if !is_common_trait(t) {
                map_ensure(prev, t)
            } else {
                prev
            },
            None => prev,
        }
    }
}

/// Adds to the set of `k` each method name in group 1 of the matches,
/// except plumbing methods.
pub open spec fn add_method_names(m: NameSetMap, k: Seq<char>, meths: Matches) -> NameSetMap
    decreases meths.len(),
{
    if meths.len() == 0 {
        m
    } else {
        let prev = add_method_names(m, k, meths.drop_last());
        match group(meths.last(), 1) {
            Some(n) => if !is_plumbing_method(n) {
                map_add(prev, k, n)
            } else {
                prev
            },
            None => prev,
        }
    }
}

/// For each impl block (name in group 1, not a derived trait), adds every
/// method of the code to the name's set.
pub open spec fn add_block_methods(m: NameSetMap, blocks: Matches, meths: Matches) -> NameSetMap
    decreases blocks.len(),
{
    if blocks.len() == 0 {
        m
    } else {
        let prev = add_block_methods(m, blocks.drop_last(), meths);
        match group(blocks.last(), 1) {
            Some(t) => if !is_derived_trait(t) {
                add_method_names(prev, t, meths)
            } else {
                prev
            },
            None => prev,
        }
    }
}

/// Adds `v` to the set of each key, in order.
pub open spec fn add_to_keys(m: NameSetMap, keys: Seq<Seq<char>>, v: Seq<char>) -> NameSetMap
    decreases keys.len(),
{
    if keys.len() == 0 {
        m
    } else {
        map_add(add_to_keys(m, keys.drop_last(), v), keys.last(), v)
    }
}

/// Method names that calls in tests are not checked for.
pub open spec fn is_common_method(n: Seq<char>) -> bool {
    ||| n == "await"@
    ||| n == "unwrap"@
    ||| n == "expect"@
    ||| n == "is_ok"@
    ||| n == "is_err"@
    ||| n == "len"@
    ||| n == "clone"@
    ||| n == "to_string"@
    ||| n == "into"@
    ||| n == "as_ref"@
    ||| n == "as_mut"@
    ||| n == "iter"@
    ||| n == "collect"@
}

/// Adds the name in group 1 of each match to the set of every key; when
/// `skip_common`, common methods are left out.
pub open spec fn add_uses(m: NameSetMap, keys: Seq<Seq<char>>, ms: Matches, skip_common: bool) -> NameSetMap
    decreases ms.len(),
{
    if ms.len() == 0 {
        m
    } else {
        let prev = add_uses(m, keys, ms.drop_last(), skip_common);
        match group(ms.last(), 1) {
            Some(x) => if skip_common && is_common_method(x) {
                prev
            } else {
                add_to_keys(prev, keys, x)
            },
            None => prev,
        }
    }
}

/// A report after reading an imports part.
pub open spec fn with_imports(r: ReportModel, code: Seq<char>) -> ReportModel {
    ReportModel {
        declared_imports: add_group_names(r.declared_imports, regex_captures_all(use_pattern(), code)),
        ..r
    }
}

/// A report after reading a types part: the structs and enums defined, and
/// the fields of each struct (a struct's fields start over when it is
/// defined again).
pub open spec fn with_types(r: ReportModel, code: Seq<char>) -> ReportModel {
    let structs = regex_captures_all(struct_pattern(), code);
    ReportModel {
        defined_types: add_group_names(
            add_group_names(r.defined_types, structs),
            regex_captures_all(enum_pattern(), code),
        ),
        defined_fields: add_body_fields(
            clear_group_keys(r.defined_fields, structs),
            regex_captures_all(struct_body_pattern(), code),
        ),
        ..r
    }
}

/// A report after reading an impl part: the implemented names, the
/// methods defined for each, and the fields used through `self`, recorded
/// for every defined type.
pub open spec fn with_impl(r: ReportModel, code: Seq<char>) -> ReportModel {
    ReportModel {
        defined_methods: add_block_methods(
            ensure_group_keys(r.defined_methods, regex_captures_all(impl_pattern(), code)),
            regex_captures_all(impl_block_pattern(), code),
            regex_captures_all(method_pattern(), code),
        ),
        used_fields: add_uses(r.used_fields, r.defined_types, regex_captures_all(field_usage_pattern(), code), false),
        ..r
    }
}

/// A report after reading a tests part: the methods called, except common
/// ones, recorded for every defined type.
pub open spec fn with_tests(r: ReportModel, code: Seq<char>) -> ReportModel {
    ReportModel {
        used_methods: add_uses(r.used_methods, r.defined_types, regex_captures_all(method_call_pattern(), code), true),
        ..r
    }
}

/// A report after reading one part, by its identifier.
pub open spec fn with_part(r: ReportModel, id: Seq<char>, code: Seq<char>) -> ReportModel {
    if id == "imports"@ {
        with_imports(r, code)
    } else if id == "types"@ {
        with_types(r, code)
    } else if id == "impl"@ {
        with_impl(r, code)
    } else if id == "tests"@ {
        with_tests(r, code)
    } else {
        r
    }
}


// ============================================================================
// EXTRACTION: FOLDS
// ============================================================================

/// The matches of a pattern in a text, as the regex crate finds them.
pub type Captures = Vec<Vec<Option<String>>>;

/// Adds group 1 of each match to a name set.
fn fold_group_names(s: &mut NameSet, caps: &Captures)
    ensures
        final(s)@ == add_group_names(old(s)@, opt_views_all(caps@)),
{
    let ghost ms = opt_views_all(caps@);
    let ghost s0 = s@;
    let mut k: usize = 0;
    while k < caps.len()
        invariant
            k <= caps@.len(),
            ms == opt_views_all(caps@),
            s@ == add_group_names(s0, ms.take(k as int)),
        decreases caps.len() - k,
    {
        proof {
            assert(ms.take(k + 1).drop_last() =~= ms.take(k as int));
        }
        match group_at(&caps[k], 1) {
            Some(x) => s.insert(x.as_str()),
            None => {},
        }
        k = k + 1;
    }
    assert(ms.take(ms.len() as int) =~= ms);
}

/// Empties the set of the name in group 1 of each match.
fn fold_clear_keys(m: &mut NameSetMapping, caps: &Captures)
    ensures
        final(m)@ == clear_group_keys(old(m)@, opt_views_all(caps@)),
{
    let ghost ms = opt_views_all(caps@);
    let ghost m0 = m@;
    let mut k: usize = 0;
    while k < caps.len()
        invariant
            k <= caps@.len(),
            ms == opt_views_all(caps@),
            m@ == clear_group_keys(m0, ms.take(k as int)),
        decreases caps.len() - k,
    {
        proof {
            assert(ms.take(k + 1).drop_last() =~= ms.take(k as int));
        }
        match group_at(&caps[k], 1) {
            Some(x) => m.clear_key(x.as_str()),
            None => {},
        }
        k = k + 1;
    }
    assert(ms.take(ms.len() as int) =~= ms);
}

/// Adds to the set of `key` group 1 of each match, except `pub`.
fn fold_field_names(m: &mut NameSetMapping, key: &str, caps: &Captures)
    ensures
        final(m)@ == add_field_names(old(m)@, key@, opt_views_all(caps@)),
{
    let ghost ms = opt_views_all(caps@);
    let ghost m0 = m@;
    let mut k: usize = 0;
    while k < caps.len()
        invariant
            k <= caps@.len(),
            ms == opt_views_all(caps@),
            m@ == add_field_names(m0, key@, ms.take(k as int)),
        decreases caps.len() - k,
    {
        proof {
            assert(ms.take(k + 1).drop_last() =~= ms.take(k as int));
        }
        match group_at(&caps[k], 1) {
            Some(x) => {
                if !str_eq(x.as_str(), "pub") {
                    m.add(key, x.as_str());
                }
            },
            None => {},
        }
        k = k + 1;
    }
    assert(ms.take(ms.len() as int) =~= ms);
}

/// For each struct with a body, adds the fields of the body to the
/// struct's set.
fn fold_body_fields(m: &mut NameSetMapping, caps: &Captures)
    ensures
        final(m)@ == add_body_fields(old(m)@, opt_views_all(caps@)),
{
    let ghost ms = opt_views_all(caps@);
    let ghost m0 = m@;
    let mut k: usize = 0;
    while k < caps.len()
        invariant
            k <= caps@.len(),
            ms == opt_views_all(caps@),
            m@ == add_body_fields(m0, ms.take(k as int)),
        decreases caps.len() - k,
    {
        proof {
            assert(ms.take(k + 1).drop_last() =~= ms.take(k as int));
        }
        match (group_at(&caps[k], 1), group_at(&caps[k], 2)) {
            (Some(name), Some(body)) => {
                let fields = captures_all(r"(?:pub\s+)?(\w+)\s*:\s*[^,}]+", body.as_str());
                fold_field_names(m, name.as_str(), &fields);
            },
            _ => {},
        }
        k = k + 1;
    }
    assert(ms.take(ms.len() as int) =~= ms);
}

/// Gives an entry to the name in group 1 of each match, except common
/// traits.
fn fold_ensure_keys(m: &mut NameSetMapping, caps: &Captures)
    ensures
        final(m)@ == ensure_group_keys(old(m)@, opt_views_all(caps@)),
{
    let ghost ms = opt_views_all(caps@);
    let ghost m0 = m@;
    let mut k: usize = 0;
    while k < caps.len()
        invariant
            k <= caps@.len(),
            ms == opt_views_all(caps@),
            m@ == ensure_group_keys(m0, ms.take(k as int)),
        decreases caps.len() - k,
    {
        proof {
            assert(ms.take(k + 1).drop_last() =~= ms.take(k as int));
        }
        match group_at(&caps[k], 1) {
            Some(t) => {
                let common = str_eq(t.as_str(), "Default") || str_eq(t.as_str(), "Clone") || str_eq(t.as_str(), "Debug")
                    || str_eq(t.as_str(), "Display") || str_eq(t.as_str(), "Error") || str_eq(t.as_str(), "From");
                if !common {
                    m.ensure(t.as_str());
                }
            },
            None => {},
        }
        k = k + 1;
    }
    assert(ms.take(ms.len() as int) =~= ms);
}

/// Adds to the set of `key` each method name of the matches, except
/// plumbing methods.
fn fold_method_names(m: &mut NameSetMapping, key: &str, caps: &Captures)
    ensures
        final(m)@ == add_method_names(old(m)@, key@, opt_views_all(caps@)),
{
    let ghost ms = opt_views_all(caps@);
    let ghost m0 = m@;
    let mut k: usize = 0;
    while k < caps.len()
        invariant
            k <= caps@.len(),
            ms == opt_views_all(caps@),
            m@ == add_method_names(m0, key@, ms.take(k as int)),
        decreases caps.len() - k,
    {
        proof {
            assert(ms.take(k + 1).drop_last() =~= ms.take(k as int));
        }
        match group_at(&caps[k], 1) {
            Some(n) => {
                let plumbing = str_eq(n.as_str(), "new") || str_eq(n.as_str(), "default") || str_eq(n.as_str(), "fmt");
                if !plumbing {
                    m.add(key, n.as_str());
                }
            },
            None => {},
        }
        k = k + 1;
    }
    assert(ms.take(ms.len() as int) =~= ms);
}

/// For each impl block that is not a derived trait's, adds every method
/// of the code to the implemented name's set.
fn fold_block_methods(m: &mut NameSetMapping, blocks: &Captures, meths: &Captures)
    ensures
        final(m)@ == add_block_methods(old(m)@, opt_views_all(blocks@), opt_views_all(meths@)),
{
    let ghost ms = opt_views_all(blocks@);
    let ghost m0 = m@;
    let mut k: usize = 0;
    while k < blocks.len()
        invariant
            k <= blocks@.len(),
            ms == opt_views_all(blocks@),
            m@ == add_block_methods(m0, ms.take(k as int), opt_views_all(meths@)),
        decreases blocks.len() - k,
    {
        proof {
            assert(ms.take(k + 1).drop_last() =~= ms.take(k as int));
        }
        match group_at(&blocks[k], 1) {
            Some(t) => {
                let derived = str_eq(t.as_str(), "Default") || str_eq(t.as_str(), "Clone") || str_eq(t.as_str(), "Debug");
                if !derived {
                    fold_method_names(m, t.as_str(), meths);
                }
            },
            None => {},
        }
        k = k + 1;
    }
    assert(ms.take(ms.len() as int) =~= ms);
}

/// Adds `v` to the set of each key of a name set, in order.
fn fold_to_keys(m: &mut NameSetMapping, keys: &NameSet, v: &str)
    ensures
        final(m)@ == add_to_keys(old(m)@, keys@, v@),
{
    let items = keys.items();
    let ghost ks = keys@;
    let ghost m0 = m@;
    let mut j: usize = 0;
    while j < items.len()
        invariant
            j <= items@.len(),
            views(items@) == ks,
            m@ == add_to_keys(m0, ks.take(j as int), v@),
        decreases items.len() - j,
    {
        proof {
            assert(ks.take(j + 1).drop_last() =~= ks.take(j as int));
        }
        m.add(items[j].as_str(), v);
        j = j + 1;
    }
    assert(ks.take(ks.len() as int) =~= ks);
}

/// Adds the name in group 1 of each match to the set of every key;
/// common methods left out when `skip_common`.
fn fold_uses(m: &mut NameSetMapping, keys: &NameSet, caps: &Captures, skip_common: bool)
    ensures
        final(m)@ == add_uses(old(m)@, keys@, opt_views_all(caps@), skip_common),
{
    let ghost ms = opt_views_all(caps@);
    let ghost m0 = m@;
    let mut k: usize = 0;
    while k < caps.len()
        invariant
            k <= caps@.len(),
            ms == opt_views_all(caps@),
            m@ == add_uses(m0, keys@, ms.take(k as int), skip_common),
        decreases caps.len() - k,
    {
        proof {
            assert(ms.take(k + 1).drop_last() =~= ms.take(k as int));
        }
        match group_at(&caps[k], 1) {
            Some(x) => {
                let n = x.as_str();
                let common = str_eq(n, "await") || str_eq(n, "unwrap") || str_eq(n, "expect") || str_eq(n, "is_ok")
                    || str_eq(n, "is_err") || str_eq(n, "len") || str_eq(n, "clone") || str_eq(n, "to_string")
                    || str_eq(n, "into") || str_eq(n, "as_ref") || str_eq(n, "as_mut") || str_eq(n, "iter")
                    || str_eq(n, "collect");
                if !(skip_common && common) {
                    fold_to_keys(m, keys, n);
                }
            },
            None => {},
        }
        k = k + 1;
    }
    assert(ms.take(ms.len() as int) =~= ms);
}


// ============================================================================
// ISSUES: SPECIFICATIONS
// ============================================================================

/// The issue for a name used but not defined for `t`: a field used in an
/// impl, or a method called in the tests.
pub open spec fn missing_issue(is_method: bool, t: Seq<char>, n: Seq<char>) -> IssueModel {
    if is_method {
        (
            IssueCategory::MissingMethod,
            "Method '"@ + n + "' called but not defined in impl '"@ + t + "'"@,
            "tests"@,
        )
    } else {
        (
            IssueCategory::MissingField,
            "Field '"@ + n + "' used but not defined in struct '"@ + t + "'"@,
            "impl "@ + t,
        )
    }
}

/// Whether a used name counts as missing from the defined ones (`new` is
/// never a missing method).
pub open spec fn counts_missing(is_method: bool, defined: Seq<Seq<char>>, n: Seq<char>) -> bool {
    !defined.contains(n) && !(is_method && n == "new"@)
}

/// The issues for the used names of `t` that are missing from its defined
/// ones, in order.
pub open spec fn missing_names(is_method: bool, t: Seq<char>, used: Seq<Seq<char>>, defined: Seq<Seq<char>>) -> Seq<IssueModel>
    decreases used.len(),
{
    if used.len() == 0 {
        Seq::empty()
    } else {
        missing_names(is_method, t, used.drop_last(), defined) + if counts_missing(is_method, defined, used.last()) {
            seq![missing_issue(is_method, t, used.last())]
        } else {
            Seq::empty()
        }
    }
}

/// For each name with used fields (or methods) that also has defined ones,
/// the issues for those missing, name after name.
pub open spec fn missing_issues(is_method: bool, used: NameSetMap, defined: NameSetMap) -> Seq<IssueModel>
    decreases used.len(),
{
    if used.len() == 0 {
        Seq::empty()
    } else {
        missing_issues(is_method, used.drop_last(), defined) + match map_get(defined, used.last().0) {
            Some(d) => missing_names(is_method, used.last().0, used.last().1, d),
            None => Seq::empty(),
        }
    }
}

/// Commonly needed names: a text whose presence in the code shows the
/// name is used, and the import it comes from.
pub open spec fn common_needs() -> Seq<(Seq<char>, Seq<char>)> {
    seq![
        ("Arc<"@, "std::sync::Arc"@),
        ("Arc::"@, "std::sync::Arc"@),
        ("HashMap<"@, "std::collections::HashMap"@),
        ("HashSet<"@, "std::collections::HashSet"@),
        ("VecDeque<"@, "std::collections::VecDeque"@),
        ("Duration"@, "std::time::Duration"@),
        ("Instant"@, "std::time::Instant"@),
        ("Mutex<"@, "tokio::sync::Mutex"@),
        ("RwLock<"@, "tokio::sync::RwLock"@),
        ("Semaphore"@, "tokio::sync::Semaphore"@),
        ("mpsc::"@, "tokio::sync::mpsc"@),
        ("oneshot::"@, "tokio::sync::oneshot"@),
    ]
}

/// Whether some part's code holds the text `p`.
pub open spec fn used_in(codes: Seq<Seq<char>>, p: Seq<char>) -> bool {
    exists|i: int| 0 <= i < codes.len() && has_infix(#[trigger] codes[i], p)
}

/// The imports of `needs` whose usage text some code holds, in order.
pub open spec fn needs_in(needs: Seq<(Seq<char>, Seq<char>)>, codes: Seq<Seq<char>>) -> Seq<Seq<char>>
    decreases needs.len(),
{
    if needs.len() == 0 {
        Seq::empty()
    } else {
        needs_in(needs.drop_last(), codes) + if used_in(codes, needs.last().0) {
            seq![needs.last().1]
        } else {
            Seq::empty()
        }
    }
}

/// The code of each part.
pub open spec fn part_codes(parts: Seq<(Seq<char>, Seq<char>)>) -> Seq<Seq<char>> {
    parts.map_values(|p: (Seq<char>, Seq<char>)| p.1)
}

/// A name set with each of `xs` added, in order.
pub open spec fn add_all(s: Seq<Seq<char>>, xs: Seq<Seq<char>>) -> Seq<Seq<char>>
    decreases xs.len(),
{
    if xs.len() == 0 {
        s
    } else {
        set_add(add_all(s, xs.drop_last()), xs.last())
    }
}

/// Whether some declared import mentions `n`.
pub open spec fn declares(declared: Seq<Seq<char>>, n: Seq<char>) -> bool {
    exists|i: int| 0 <= i < declared.len() && has_infix(#[trigger] declared[i], n)
}

/// The issue for an import that may be missing.
pub open spec fn import_issue(n: Seq<char>) -> IssueModel {
    (IssueCategory::MissingImport, "May need import for '"@ + n + "'"@, "imports"@)
}

/// The issues for the needed imports that no declared import mentions.
pub open spec fn import_issues(needed: Seq<Seq<char>>, declared: Seq<Seq<char>>) -> Seq<IssueModel>
    decreases needed.len(),
{
    if needed.len() == 0 {
        Seq::empty()
    } else {
        import_issues(needed.drop_last(), declared) + if !declares(declared, needed.last()) {
            seq![import_issue(needed.last())]
        } else {
            Seq::empty()
        }
    }
}

/// A report with its issues found: missing fields, then missing methods,
/// then missing imports (after the commonly needed imports that the code
/// uses are added to the needed ones).
pub open spec fn with_issues(r: ReportModel, codes: Seq<Seq<char>>) -> ReportModel {
    let needed = add_all(r.needed_imports, needs_in(common_needs(), codes));
    ReportModel {
        issues: r.issues + missing_issues(false, r.used_fields, r.defined_fields) + missing_issues(
            true,
            r.used_methods,
            r.defined_methods,
        ) + import_issues(needed, r.declared_imports),
        needed_imports: needed,
        ..r
    }
}

/// The identifier and code of each part.
pub open spec fn part_views(v: Seq<SubTaskResult>) -> Seq<(Seq<char>, Seq<char>)> {
    v.map_values(|r: SubTaskResult| (r.id@, r.code@))
}

/// A report after reading the parts in order.
pub open spec fn read_parts(r: ReportModel, parts: Seq<(Seq<char>, Seq<char>)>) -> ReportModel
    decreases parts.len(),
{
    if parts.len() == 0 {
        r
    } else {
        let prev = read_parts(r, parts.drop_last());
        with_part(prev, parts.last().0, parts.last().1)
    }
}

/// The coherence analysis of some parts: read in order into an empty
/// report, then checked for issues.
pub open spec fn analysis(parts: Seq<(Seq<char>, Seq<char>)>) -> ReportModel {
    with_issues(read_parts(empty_report(), parts), part_codes(parts))
}

// ============================================================================
// ISSUES: EXECUTABLE
// ============================================================================

/// The issue for a name used but not defined.
fn make_missing_issue(is_method: bool, t: &str, n: &str) -> (r: CoherenceIssue)
    ensures
        (r.category, r.description@, r.location@) == missing_issue(is_method, t@, n@),
{
    let mut d = String::new();
    let mut l = String::new();
    if is_method {
        append(&mut d, "Method '");
        append(&mut d, n);
        append(&mut d, "' called but not defined in impl '");
        append(&mut d, t);
        append(&mut d, "'");
        append(&mut l, "tests");
        assert(d@ =~= missing_issue(is_method, t@, n@).1);
        assert(l@ =~= missing_issue(is_method, t@, n@).2);
        CoherenceIssue { category: IssueCategory::MissingMethod, description: d, location: l }
    } else {
        append(&mut d, "Field '");
        append(&mut d, n);
        append(&mut d, "' used but not defined in struct '");
        append(&mut d, t);
        append(&mut d, "'");
        append(&mut l, "impl ");
        append(&mut l, t);
        assert(d@ =~= missing_issue(is_method, t@, n@).1);
        assert(l@ =~= missing_issue(is_method, t@, n@).2);
        CoherenceIssue { category: IssueCategory::MissingField, description: d, location: l }
    }
}

/// Pushes the issues for the names of `used` missing from `defined`.
fn push_missing_names(issues: &mut Vec<CoherenceIssue>, is_method: bool, t: &str, used: &NameSet, defined: &NameSet)
    ensures
        issue_views(final(issues)@) == issue_views(old(issues)@) + missing_names(is_method, t@, used@, defined@),
{
    let items = used.items();
    let ghost us = used@;
    let ghost i0 = issue_views(issues@);
    let mut j: usize = 0;
    while j < items.len()
        invariant
            j <= items@.len(),
            views(items@) == us,
            issue_views(issues@) == i0 + missing_names(is_method, t@, us.take(j as int), defined@),
        decreases items.len() - j,
    {
        proof {
            assert(us.take(j + 1).drop_last() =~= us.take(j as int));
        }
        let n = items[j].as_str();
        let ghost before = issue_views(issues@);
        if !defined.contains(n) && !(is_method && str_eq(n, "new")) {
            issues.push(make_missing_issue(is_method, t, n));
            assert(issue_views(issues@) =~= before.push(missing_issue(is_method, t@, n@)));
        }
        j = j + 1;
    }
    assert(us.take(us.len() as int) =~= us);
}

/// The commonly needed names, as (usage text, import) pairs.
fn common_need_list() -> (r: Vec<(&'static str, &'static str)>)
    ensures
        pair_views(r@) == common_needs(),
{
    let mut r: Vec<(&'static str, &'static str)> = Vec::new();
    r.push(("Arc<", "std::sync::Arc"));
    r.push(("Arc::", "std::sync::Arc"));
    r.push(("HashMap<", "std::collections::HashMap"));
    r.push(("HashSet<", "std::collections::HashSet"));
    r.push(("VecDeque<", "std::collections::VecDeque"));
    r.push(("Duration", "std::time::Duration"));
    r.push(("Instant", "std::time::Instant"));
    r.push(("Mutex<", "tokio::sync::Mutex"));
    r.push(("RwLock<", "tokio::sync::RwLock"));
    r.push(("Semaphore", "tokio::sync::Semaphore"));
    r.push(("mpsc::", "tokio::sync::mpsc"));
    r.push(("oneshot::", "tokio::sync::oneshot"));
    assert(pair_views(r@) =~= common_needs());
    r
}

/// Pairs of texts viewed as pairs of sequences.
pub open spec fn pair_views(v: Seq<(&'static str, &'static str)>) -> Seq<(Seq<char>, Seq<char>)> {
    v.map_values(|e: (&'static str, &'static str)| (e.0@, e.1@))
}

/// Whether the code of some part holds a text.
fn used_anywhere(results: &[SubTaskResult], p: &str) -> (b: bool)
    ensures
        b == used_in(part_codes(part_views(results@)), p@),
{
    let ghost codes = part_codes(part_views(results@));
    let mut i: usize = 0;
    while i < results.len()
        invariant
            i <= results@.len(),
            codes == part_codes(part_views(results@)),
            forall|j: int| 0 <= j < i ==> !has_infix(#[trigger] codes[j], p@),
        decreases results.len() - i,
    {
        let cs = chars_of(results[i].code.as_str());
        assert(codes[i as int] == results@[i as int].code@);
        if contains_str(&cs, p) {
            return true;
        }
        i = i + 1;
    }
    false
}

/// Adds the commonly needed imports that the parts' code uses.
fn add_needed(needed: &mut NameSet, results: &[SubTaskResult])
    ensures
        final(needed)@ == add_all(old(needed)@, needs_in(common_needs(), part_codes(part_views(results@)))),
{
    let ghost n0 = needed@;
    let ghost codes = part_codes(part_views(results@));
    let needs = common_need_list();
    let mut k: usize = 0;
    while k < needs.len()
        invariant
            k <= needs@.len(),
            codes == part_codes(part_views(results@)),
            pair_views(needs@) == common_needs(),
            needed@ == add_all(n0, needs_in(common_needs().take(k as int), codes)),
        decreases needs.len() - k,
    {
        let ghost prev = needs_in(common_needs().take(k as int), codes);
        proof {
            assert(common_needs().take(k + 1).drop_last() =~= common_needs().take(k as int));
            assert(common_needs()[k as int] == (needs@[k as int].0@, needs@[k as int].1@));
        }
        if used_anywhere(results, needs[k].0) {
            needed.insert(needs[k].1);
            assert(needs_in(common_needs().take(k + 1), codes) == prev.push(needs@[k as int].1@));
            assert(prev.push(needs@[k as int].1@).drop_last() =~= prev);
        } else {
            assert(needs_in(common_needs().take(k + 1), codes) =~= prev);
        }
        k = k + 1;
    }
    assert(common_needs().take(needs@.len() as int) =~= common_needs());
}

/// Pushes, for each name with used names that has defined ones, the issues
/// for those missing.
fn push_missing_issues(issues: &mut Vec<CoherenceIssue>, is_method: bool, used: &NameSetMapping, defined: &NameSetMapping)
    ensures
        issue_views(final(issues)@) == issue_views(old(issues)@) + missing_issues(is_method, used@, defined@),
{
    let entries = used.entries();
    let ghost es = used@;
    let ghost i0 = issue_views(issues@);
    let mut j: usize = 0;
    while j < entries.len()
        invariant
            j <= entries@.len(),
            entry_views(entries@) == es,
            issue_views(issues@) == i0 + missing_issues(is_method, es.take(j as int), defined@),
        decreases entries.len() - j,
    {
        proof {
            assert(es.take(j + 1).drop_last() =~= es.take(j as int));
            assert(es.take(j + 1).last() == es[j as int]);
        }
        let ghost before = issue_views(issues@);
        let t = entries[j].0.as_str();
        match defined.get(t) {
            Some(d) => {
                push_missing_names(issues, is_method, t, &entries[j].1, d);
                assert(issue_views(issues@) =~= i0 + missing_issues(is_method, es.take(j + 1), defined@));
            },
            None => {
                assert(issue_views(issues@) =~= i0 + missing_issues(is_method, es.take(j + 1), defined@));
            },
        }
        j = j + 1;
    }
    assert(es.take(es.len() as int) =~= es);
}

/// Whether some declared import mentions `n`.
fn declares_exec(declared: &NameSet, n: &str) -> (b: bool)
    ensures
        b == declares(declared@, n@),
{
    let items = declared.items();
    let nc = crate::text::chars_of(n);
    let mut j: usize = 0;
    while j < items.len()
        invariant
            j <= items@.len(),
            views(items@) == declared@,
            nc@ == n@,
            forall|i: int| 0 <= i < j ==> !has_infix(#[trigger] declared@[i], n@),
        decreases items.len() - j,
    {
        let dc = crate::text::chars_of(items[j].as_str());
        if crate::text::contains(&dc, &nc) {
            assert(has_infix(declared@[j as int], n@));
            return true;
        }
        j = j + 1;
    }
    false
}

/// Pushes the issues for needed imports that no declared import mentions.
fn push_import_issues(issues: &mut Vec<CoherenceIssue>, needed: &NameSet, declared: &NameSet)
    ensures
        issue_views(final(issues)@) == issue_views(old(issues)@) + import_issues(needed@, declared@),
{
    let items = needed.items();
    let ghost ns = needed@;
    let ghost i0 = issue_views(issues@);
    let mut j: usize = 0;
    while j < items.len()
        invariant
            j <= items@.len(),
            views(items@) == ns,
            issue_views(issues@) == i0 + import_issues(ns.take(j as int), declared@),
        decreases items.len() - j,
    {
        proof {
            assert(ns.take(j + 1).drop_last() =~= ns.take(j as int));
        }
        let n = items[j].as_str();
        let ghost before = issue_views(issues@);
        if !declares_exec(declared, n) {
            let mut d = String::new();
            append(&mut d, "May need import for '");
            append(&mut d, n);
            append(&mut d, "'");
            let mut l = String::new();
            append(&mut l, "imports");
            issues.push(CoherenceIssue { category: IssueCategory::MissingImport, description: d, location: l });
            assert(issue_views(issues@) =~= before.push(import_issue(n@)));
        }
        j = j + 1;
    }
    assert(ns.take(ns.len() as int) =~= ns);
}


// ============================================================================
// LIAISON ARCHITECT
// ============================================================================

/// Analyzes and reconciles outputs from multiple executors.
#[derive(Debug)]
pub struct LiaisonArchitect {
    /// Language being processed
    language: String,
}

impl LiaisonArchitect {
    /// The language being processed.
    pub closed spec fn language_text(&self) -> Seq<char> {
        self.language@
    }

    /// An architect for a language.
    pub fn new(language: impl TextLike) -> (r: Self)
        ensures
            r.language_text() == language.text(),
    {
        LiaisonArchitect { language: language.into_string() }
    }

    /// Records the paths of the `use` declarations of an imports part.
    pub fn extract_imports(&self, code: &str, report: &mut CoherenceReport)
        ensures
            final(report)@ == with_imports(old(report)@, code@),
    {
        let caps = captures_all(r"use\s+([^;]+);", code);
        fold_group_names(&mut report.declared_imports, &caps);
    }

    /// Records the structs and enums of a types part and the fields of each
    /// struct.
    pub fn extract_types(&self, code: &str, report: &mut CoherenceReport)
        ensures
            final(report)@ == with_types(old(report)@, code@),
    {
        let structs = captures_all(r"(?:pub\s+)?struct\s+(\w+)", code);
        fold_group_names(&mut report.defined_types, &structs);
        let enums = captures_all(r"(?:pub\s+)?enum\s+(\w+)", code);
        fold_group_names(&mut report.defined_types, &enums);
        fold_clear_keys(&mut report.defined_fields, &structs);
        let bodies = captures_all(r"struct\s+(\w+)[^{]*\{([^}]+)\}", code);
        fold_body_fields(&mut report.defined_fields, &bodies);
    }

    /// Records the implemented names of an impl part, the methods defined
    /// for them, and the fields it uses through `self` (for every defined
    /// type).
    pub fn extract_impl(&self, code: &str, report: &mut CoherenceReport)
        ensures
            final(report)@ == with_impl(old(report)@, code@),
    {
        let impls = captures_all(r"impl(?:<[^>]*>)?\s+(\w+)", code);
        fold_ensure_keys(&mut report.defined_methods, &impls);
        let meths = captures_all(r"(?:pub\s+)?(?:async\s+)?fn\s+(\w+)", code);
        let blocks = captures_all(r"impl(?:<[^>]*>)?\s+(\w+)[^{]*\{", code);
        fold_block_methods(&mut report.defined_methods, &blocks, &meths);
        let usages = captures_all(r"self\.(\w+)", code);
        fold_uses(&mut report.used_fields, &report.defined_types, &usages, false);
    }

    /// Records the methods a tests part calls (for every defined type),
    /// except common ones.
    pub fn extract_tests(&self, code: &str, report: &mut CoherenceReport)
        ensures
            final(report)@ == with_tests(old(report)@, code@),
    {
        let calls = captures_all(r"\.(\w+)\s*\(", code);
        fold_uses(&mut report.used_methods, &report.defined_types, &calls, true);
    }

    /// Finds the issues: missing fields, missing methods, then imports
    /// that may be missing.
    fn find_issues(&self, report: &mut CoherenceReport, results: &[SubTaskResult])
        ensures
            final(report)@ == with_issues(old(report)@, part_codes(part_views(results@))),
    {
        push_missing_issues(&mut report.issues, false, &report.used_fields, &report.defined_fields);
        push_missing_issues(&mut report.issues, true, &report.used_methods, &report.defined_methods);
        add_needed(&mut report.needed_imports, results);
        push_import_issues(&mut report.issues, &report.needed_imports, &report.declared_imports);
        assert(report@.issues =~= with_issues(old(report)@, part_codes(part_views(results@))).issues);
    }

    /// Analyze coherence between sub-task results: each part is read by
    /// its identifier, in order, then the issues are found.
    pub fn analyze(&self, results: &[SubTaskResult]) -> (r: CoherenceReport)
        ensures
            r@ == analysis(part_views(results@)),
    {
        let mut report = CoherenceReport::new();
        let ghost ps = part_views(results@);
        let mut k: usize = 0;
        while k < results.len()
            invariant
                k <= results@.len(),
                ps == part_views(results@),
                report@ == read_parts(empty_report(), ps.take(k as int)),
            decreases results.len() - k,
        {
            proof {
                assert(ps.take(k + 1).drop_last() =~= ps.take(k as int));
                assert(ps.take(k + 1).last() == (results@[k as int].id@, results@[k as int].code@));
            }
            let id = results[k].id.as_str();
            let code = results[k].code.as_str();
            if str_eq(id, "imports") {
                self.extract_imports(code, &mut report);
            } else if str_eq(id, "types") {
                self.extract_types(code, &mut report);
            } else if str_eq(id, "impl") {
                self.extract_impl(code, &mut report);
            } else if str_eq(id, "tests") {
                self.extract_tests(code, &mut report);
            }
            k = k + 1;
        }
        assert(ps.take(ps.len() as int) =~= ps);
        self.find_issues(&mut report, results);
        report
    }
}


// ============================================================================
// PROMPTS AND CHECKS: SPECIFICATIONS
// ============================================================================

/// An issue as a line of the fix prompt.
pub open spec fn issue_line(i: IssueModel) -> Seq<char> {
    "- "@ + category_name(i.0) + ": "@ + i.1 + " (in "@ + i.2 + ")\n"@
}

/// The issues as lines of the fix prompt.
pub open spec fn issue_lines(is: Seq<IssueModel>) -> Seq<char>
    decreases is.len(),
{
    if is.len() == 0 {
        Seq::empty()
    } else {
        issue_lines(is.drop_last()) + issue_line(is.last())
    }
}

/// Each name on a line of its own after a prefix.
pub open spec fn prefixed_lines(prefix: Seq<char>, xs: Seq<Seq<char>>) -> Seq<char>
    decreases xs.len(),
{
    if xs.len() == 0 {
        Seq::empty()
    } else {
        prefixed_lines(prefix, xs.drop_last()) + prefix + xs.last() + "\n"@
    }
}

/// A defined type in the fix prompt, with its fields and methods.
pub open spec fn type_block(t: Seq<char>, fields: NameSetMap, methods: NameSetMap) -> Seq<char> {
    "- "@ + t + "\n"@ + match map_get(fields, t) {
        Some(fs) => prefixed_lines("    field: "@, fs),
        None => Seq::empty(),
    } + match map_get(methods, t) {
        Some(ms) => prefixed_lines("    method: "@, ms),
        None => Seq::empty(),
    }
}

/// The defined types in the fix prompt.
pub open spec fn type_blocks(types: Seq<Seq<char>>, fields: NameSetMap, methods: NameSetMap) -> Seq<char>
    decreases types.len(),
{
    if types.len() == 0 {
        Seq::empty()
    } else {
        type_blocks(types.drop_last(), fields, methods) + type_block(types.last(), fields, methods)
    }
}

/// The name, identifier and code of each part.
pub open spec fn part_texts(v: Seq<SubTaskResult>) -> Seq<(Seq<char>, Seq<char>, Seq<char>)> {
    v.map_values(|r: SubTaskResult| (r.name@, r.id@, r.code@))
}

/// The parts' code in the fix prompt, each under a header.
pub open spec fn part_blocks(parts: Seq<(Seq<char>, Seq<char>, Seq<char>)>) -> Seq<char>
    decreases parts.len(),
{
    if parts.len() == 0 {
        Seq::empty()
    } else {
        let p = parts.last();
        part_blocks(parts.drop_last()) + "--- "@ + p.0 + " ("@ + p.1 + ") ---\n"@ + p.2 + "\n\n"@
    }
}

/// What the fix prompt asks for.
pub open spec fn coherence_task_text() -> Seq<char> {
    "=== YOUR TASK ===\n"@ + "Produce a SINGLE, COHERENT Rust module that:\n"@
        + "1. Has ALL necessary imports (add missing ones)\n"@
        + "2. Has struct/enum definitions with ALL fields needed by the impl\n"@
        + "3. Has impl blocks that use ONLY the fields defined in the structs\n"@
        + "4. Has tests that use ONLY the methods defined in impl\n"@ + "5. Uses ONLY stable Rust features\n\n"@
        + "Return ONLY the complete, working Rust code. No markdown, no explanations.\n"@
}

/// The opening of the fix prompt.
pub open spec fn coherence_intro_text() -> Seq<char> {
    "You are a Rust code coherence expert. Multiple agents generated code parts in parallel, but there are inconsistencies between them. Your job is to produce COHERENT, WORKING code.\n\n"@
}

/// The prompt that asks an executor to fix the coherence issues of the
/// parts: the issues, the defined types with their fields and methods, the
/// code of each part, and the task.
pub open spec fn coherence_prompt_text(parts: Seq<(Seq<char>, Seq<char>, Seq<char>)>, r: ReportModel) -> Seq<char> {
    coherence_intro_text() + "=== COHERENCE ISSUES DETECTED ===\n"@ + issue_lines(r.issues)
        + "\n=== DEFINED TYPES ===\n"@ + type_blocks(r.defined_types, r.defined_fields, r.defined_methods)
        + "\n=== CODE FROM EACH AGENT ===\n\n"@ + part_blocks(parts) + coherence_task_text()
}

/// The issues as lines of the minimal fix prompt.
pub open spec fn located_lines(is: Seq<IssueModel>) -> Seq<char>
    decreases is.len(),
{
    if is.len() == 0 {
        Seq::empty()
    } else {
        located_lines(is.drop_last()) + "- "@ + is.last().2 + ": "@ + is.last().1 + "\n"@
    }
}

/// The minimal fix prompt for some code and its issues.
pub open spec fn minimal_prompt_text(code: Seq<char>, is: Seq<IssueModel>) -> Seq<char> {
    "Fix these specific issues in the Rust code:\n\n"@ + located_lines(is) + "\n=== CODE ===\n"@ + code
        + "\n\n=== INSTRUCTIONS ===\n"@ + "Return the FIXED code. Keep everything else the same. No markdown.\n"@
}

/// A text found in the first part of a concatenation is found in the whole.
pub proof fn lemma_infix_in_left(a: Seq<char>, b: Seq<char>, p: Seq<char>)
    requires
        has_infix(a, p),
    ensures
        has_infix(a + b, p),
{
    let i = choose|i: int| crate::text::occurs_at(a, p, i);
    assert((a + b).subrange(i, i + p.len()) =~= a.subrange(i, i + p.len()));
    assert(crate::text::occurs_at(a + b, p, i));
}

/// A text found in the second part of a concatenation is found in the
/// whole.
pub proof fn lemma_infix_in_right(a: Seq<char>, b: Seq<char>, p: Seq<char>)
    requires
        has_infix(b, p),
    ensures
        has_infix(a + b, p),
{
    let i = choose|i: int| crate::text::occurs_at(b, p, i);
    assert((a + b).subrange(a.len() + i, a.len() + i + p.len()) =~= b.subrange(i, i + p.len()));
    assert(crate::text::occurs_at(a + b, p, a.len() + i));
}

/// Each issue's `- location: description` line is in the issue lines.
proof fn lemma_located_lines_hold(is: Seq<IssueModel>, k: int)
    requires
        0 <= k < is.len(),
    ensures
        has_infix(located_lines(is), "- "@ + is[k].2 + ": "@ + is[k].1),
    decreases is.len(),
{
    let l = "- "@ + is[k].2 + ": "@ + is[k].1;
    let d = is.drop_last();
    if k < is.len() - 1 {
        assert(d[k] == is[k]);
        lemma_located_lines_hold(d, k);
        lemma_infix_in_left(located_lines(d), "- "@ + is.last().2 + ": "@ + is.last().1 + "\n"@, l);
        assert(located_lines(is) =~= located_lines(d) + ("- "@ + is.last().2 + ": "@ + is.last().1 + "\n"@));
    } else {
        let tail = "- "@ + is.last().2 + ": "@ + is.last().1 + "\n"@;
        assert(tail.subrange(0, l.len() as int) =~= l);
        assert(crate::text::occurs_at(tail, l, 0));
        lemma_infix_in_right(located_lines(d), tail, l);
        assert(located_lines(is) =~= located_lines(d) + tail);
    }
}

/// The minimal fix prompt quotes the code and, for every issue, a line
/// `- location: description`.
pub proof fn lemma_minimal_prompt_holds(code: Seq<char>, is: Seq<IssueModel>)
    ensures
        has_infix(minimal_prompt_text(code, is), code),
        forall|k: int| 0 <= k < is.len() ==> has_infix(minimal_prompt_text(code, is), "- "@ + (#[trigger] is[k]).2 + ": "@ + is[k].1),
{
    let head = "Fix these specific issues in the Rust code:\n\n"@;
    let tail = "\n\n=== INSTRUCTIONS ===\n"@ + "Return the FIXED code. Keep everything else the same. No markdown.\n"@;
    let front = head + located_lines(is) + "\n=== CODE ===\n"@;
    assert(minimal_prompt_text(code, is) =~= (front + code) + tail);
    assert(code.subrange(0, code.len() as int) =~= code);
    assert(crate::text::occurs_at(code, code, 0));
    lemma_infix_in_right(front, code, code);
    lemma_infix_in_left(front + code, tail, code);
    assert forall|k: int| 0 <= k < is.len() implies has_infix(minimal_prompt_text(code, is), "- "@ + (#[trigger] is[k]).2 + ": "@ + is[k].1) by {
        let l = "- "@ + is[k].2 + ": "@ + is[k].1;
        lemma_located_lines_hold(is, k);
        lemma_infix_in_right(head, located_lines(is), l);
        lemma_infix_in_left(head + located_lines(is), "\n=== CODE ===\n"@ + code + tail, l);
        assert(minimal_prompt_text(code, is) =~= (head + located_lines(is)) + ("\n=== CODE ===\n"@ + code + tail));
    }
}

/// Whether an issue is severe enough to need fixing.
pub open spec fn is_severe(c: IssueCategory) -> bool {
    c == IssueCategory::MissingField || c == IssueCategory::MissingMethod || c == IssueCategory::MissingType
}

/// The message for unbalanced delimiters.
pub open spec fn unbalanced_text(kind: Seq<char>, open: nat, close: nat) -> Seq<char> {
    "Unbalanced "@ + kind + ": "@ + decimal(open) + " open, "@ + decimal(close) + " close"@
}

/// What syntax validation says of some code: the first kind of delimiter
/// whose openings and closings differ in number, or nothing.
pub open spec fn syntax_problem(code: Seq<char>) -> Option<Seq<char>> {
    let ob = crate::text::count_char(code, '{');
    let cb = crate::text::count_char(code, '}');
    let op = crate::text::count_char(code, '(');
    let cp = crate::text::count_char(code, ')');
    let os = crate::text::count_char(code, '[');
    let cs = crate::text::count_char(code, ']');
    if ob != cb {
        Some(unbalanced_text("braces"@, ob, cb))
    } else if op != cp {
        Some(unbalanced_text("parentheses"@, op, cp))
    } else if os != cs {
        Some(unbalanced_text("brackets"@, os, cs))
    } else {
        None
    }
}

/// The number of issues of a category.
pub open spec fn category_count(is: Seq<IssueModel>, c: IssueCategory) -> nat
    decreases is.len(),
{
    if is.len() == 0 {
        0
    } else {
        category_count(is.drop_last(), c) + if is.last().0 == c { 1nat } else { 0nat }
    }
}

/// A category's count in the summary, if it is not zero.
pub open spec fn count_part(key: Seq<char>, n: nat) -> Seq<Seq<char>> {
    if n > 0 {
        seq![key + ": "@ + decimal(n)]
    } else {
        Seq::empty()
    }
}

/// The summary of a report's issues: the count of each category that has
/// issues, in the order the categories are declared.
pub open spec fn summary_text(is: Seq<IssueModel>) -> Seq<char> {
    if is.len() == 0 {
        "No coherence issues detected"@
    } else {
        "Coherence issues: "@ + crate::text::join(
            count_part("missing_field"@, category_count(is, IssueCategory::MissingField))
                + count_part("missing_method"@, category_count(is, IssueCategory::MissingMethod))
                + count_part("missing_import"@, category_count(is, IssueCategory::MissingImport))
                + count_part("missing_type"@, category_count(is, IssueCategory::MissingType))
                + count_part("name_mismatch"@, category_count(is, IssueCategory::NameMismatch)),
            ", "@,
        )
    }
}

/// The code of the parts that succeeded, in order.
pub open spec fn successful_codes(v: Seq<SubTaskResult>) -> Seq<Seq<char>>
    decreases v.len(),
{
    if v.len() == 0 {
        Seq::empty()
    } else {
        successful_codes(v.drop_last()) + if v.last().success {
            seq![v.last().code@]
        } else {
            Seq::empty()
        }
    }
}

/// The prompt that asks for a syntax fix of some code.
pub open spec fn refix_prompt_text(syntax_error: Seq<char>, code: Seq<char>) -> Seq<char> {
    "The code has a syntax error: "@ + syntax_error + "\n\n"@
        + "Fix the syntax and return the complete, corrected Rust code.\n"@ + "No markdown, no explanations.\n\n"@
        + code
}


/// Appends each name on a line of its own after a prefix.
fn push_prefixed_lines(s: &mut String, prefix: &str, xs: &NameSet)
    ensures
        final(s)@ == old(s)@ + prefixed_lines(prefix@, xs@),
{
    let items = xs.items();
    let ghost v = xs@;
    let ghost s0 = s@;
    let mut j: usize = 0;
    while j < items.len()
        invariant
            j <= items@.len(),
            views(items@) == v,
            s@ == s0 + prefixed_lines(prefix@, v.take(j as int)),
        decreases items.len() - j,
    {
        proof {
            assert(v.take(j + 1).drop_last() =~= v.take(j as int));
        }
        append(s, prefix);
        append(s, items[j].as_str());
        append(s, "\n");
        proof {
            assert(s@ =~= s0 + prefixed_lines(prefix@, v.take(j + 1)));
        }
        j = j + 1;
    }
    assert(v.take(v.len() as int) =~= v);
}

/// The issues as lines of the fix prompt.
fn push_issue_lines(s: &mut String, issues: &Vec<CoherenceIssue>)
    ensures
        final(s)@ == old(s)@ + issue_lines(issue_views(issues@)),
{
    let ghost v = issue_views(issues@);
    let ghost s0 = s@;
    let mut j: usize = 0;
    while j < issues.len()
        invariant
            j <= issues@.len(),
            v == issue_views(issues@),
            s@ == s0 + issue_lines(v.take(j as int)),
        decreases issues.len() - j,
    {
        proof {
            assert(v.take(j + 1).drop_last() =~= v.take(j as int));
        }
        let issue = &issues[j];
        append(s, "- ");
        append(s, issue.category.name());
        append(s, ": ");
        append(s, issue.description.as_str());
        append(s, " (in ");
        append(s, issue.location.as_str());
        append(s, ")\n");
        proof {
            assert(s@ =~= s0 + issue_lines(v.take(j + 1)));
        }
        j = j + 1;
    }
    assert(v.take(v.len() as int) =~= v);
}

impl LiaisonArchitect {
    /// Generate a prompt for an executor to fix coherence issues: the
    /// issues, the defined types with their fields and methods, the code of
    /// each part, and the task.
    pub fn generate_fix_prompt(&self, results: &[SubTaskResult], report: &CoherenceReport) -> (r: String)
        ensures
            r@ == coherence_prompt_text(part_texts(results@), report@),
    {
        let mut prompt = String::new();
        append(
            &mut prompt,
            "You are a Rust code coherence expert. Multiple agents generated code parts in parallel, but there are inconsistencies between them. Your job is to produce COHERENT, WORKING code.\n\n",
        );
        append(&mut prompt, "=== COHERENCE ISSUES DETECTED ===\n");
        push_issue_lines(&mut prompt, &report.issues);
        append(&mut prompt, "\n=== DEFINED TYPES ===\n");
        let ghost after_issues = prompt@;
        let types = report.defined_types.items();
        let ghost tv = report.defined_types@;
        let mut j: usize = 0;
        while j < types.len()
            invariant
                j <= types@.len(),
                views(types@) == tv,
                tv == report.defined_types@,
                prompt@ == after_issues + type_blocks(tv.take(j as int), report.defined_fields@, report.defined_methods@),
            decreases types.len() - j,
        {
            proof {
                assert(tv.take(j + 1).drop_last() =~= tv.take(j as int));
            }
            let ghost before = prompt@;
            let t = types[j].as_str();
            append(&mut prompt, "- ");
            append(&mut prompt, t);
            append(&mut prompt, "\n");
            match report.defined_fields.get(t) {
                Some(fields) => push_prefixed_lines(&mut prompt, "    field: ", fields),
                None => {},
            }
            match report.defined_methods.get(t) {
                Some(methods) => push_prefixed_lines(&mut prompt, "    method: ", methods),
                None => {},
            }
            proof {
                assert(prompt@ =~= before + type_block(t@, report.defined_fields@, report.defined_methods@));
            }
            j = j + 1;
        }
        assert(tv.take(tv.len() as int) =~= tv);
        append(&mut prompt, "\n=== CODE FROM EACH AGENT ===\n\n");
        let ghost after_types = prompt@;
        let ghost ps = part_texts(results@);
        let mut k: usize = 0;
        while k < results.len()
            invariant
                k <= results@.len(),
                ps == part_texts(results@),
                prompt@ == after_types + part_blocks(ps.take(k as int)),
            decreases results.len() - k,
        {
            proof {
                assert(ps.take(k + 1).drop_last() =~= ps.take(k as int));
            }
            append(&mut prompt, "--- ");
            append(&mut prompt, results[k].name.as_str());
            append(&mut prompt, " (");
            append(&mut prompt, results[k].id.as_str());
            append(&mut prompt, ") ---\n");
            append(&mut prompt, results[k].code.as_str());
            append(&mut prompt, "\n\n");
            proof {
                assert(prompt@ =~= after_types + part_blocks(ps.take(k + 1)));
            }
            k = k + 1;
        }
        assert(ps.take(ps.len() as int) =~= ps);
        let ghost before_task = prompt@;
        append(&mut prompt, "=== YOUR TASK ===\n");
        append(&mut prompt, "Produce a SINGLE, COHERENT Rust module that:\n");
        append(&mut prompt, "1. Has ALL necessary imports (add missing ones)\n");
        append(&mut prompt, "2. Has struct/enum definitions with ALL fields needed by the impl\n");
        append(&mut prompt, "3. Has impl blocks that use ONLY the fields defined in the structs\n");
        append(&mut prompt, "4. Has tests that use ONLY the methods defined in impl\n");
        append(&mut prompt, "5. Uses ONLY stable Rust features\n\n");
        append(&mut prompt, "Return ONLY the complete, working Rust code. No markdown, no explanations.\n");
        assert(prompt@ =~= before_task + coherence_task_text());
        assert(prompt@ =~= coherence_prompt_text(part_texts(results@), report@));
        prompt
    }

    /// Generate a minimal fix prompt when there are few issues: none when
    /// there are no issues.
    pub fn generate_minimal_fix_prompt(&self, assembled_code: &str, report: &CoherenceReport) -> (r: Option<String>)
        ensures
            report@.issues.len() == 0 ==> r is None,
            report@.issues.len() > 0 ==> (r matches Some(p) && p@ == minimal_prompt_text(assembled_code@, report@.issues)),
    {
        if report.issues.len() == 0 {
            return None;
        }
        let mut prompt = String::new();
        append(&mut prompt, "Fix these specific issues in the Rust code:\n\n");
        let ghost p0 = prompt@;
        let ghost v = report@.issues;
        let mut j: usize = 0;
        while j < report.issues.len()
            invariant
                j <= report.issues@.len(),
                v == issue_views(report.issues@),
                prompt@ == p0 + located_lines(v.take(j as int)),
            decreases report.issues.len() - j,
        {
            proof {
                assert(v.take(j + 1).drop_last() =~= v.take(j as int));
            }
            append(&mut prompt, "- ");
            append(&mut prompt, report.issues[j].location.as_str());
            append(&mut prompt, ": ");
            append(&mut prompt, report.issues[j].description.as_str());
            append(&mut prompt, "\n");
            proof {
                assert(prompt@ =~= p0 + located_lines(v.take(j + 1)));
            }
            j = j + 1;
        }
        assert(v.take(v.len() as int) =~= v);
        append(&mut prompt, "\n=== CODE ===\n");
        append(&mut prompt, assembled_code);
        append(&mut prompt, "\n\n=== INSTRUCTIONS ===\n");
        append(&mut prompt, "Return the FIXED code. Keep everything else the same. No markdown.\n");
        assert(prompt@ =~= minimal_prompt_text(assembled_code@, report@.issues));
        Some(prompt)
    }

    /// Check if coherence issues are severe enough to need fixing: a
    /// missing field, method or type.
    pub fn needs_fixing(&self, report: &CoherenceReport) -> (b: bool)
        ensures
            b == exists|i: int| 0 <= i < report@.issues.len() && is_severe(#[trigger] report@.issues[i].0),
    {
        let mut j: usize = 0;
        while j < report.issues.len()
            invariant
                j <= report.issues@.len(),
                forall|i: int| 0 <= i < j ==> !is_severe(#[trigger] report@.issues[i].0),
            decreases report.issues.len() - j,
        {
            let c = report.issues[j].category;
            if c == IssueCategory::MissingField || c == IssueCategory::MissingMethod || c == IssueCategory::MissingType {
                assert(is_severe(report@.issues[j as int].0));
                return true;
            }
            j = j + 1;
        }
        false
    }

    /// Validate basic syntax (brace, parenthesis and bracket balance):
    /// none if valid, else the message for the first unbalanced kind.
    pub fn validate_syntax(&self, code: &str) -> (r: Option<String>)
        ensures
            match r {
                Some(m) => syntax_problem(code@) == Some(m@),
                None => syntax_problem(code@) is None,
            },
    {
        let cs = crate::text::chars_of(code);
        let ob = crate::text::count(&cs, '{');
        let cb = crate::text::count(&cs, '}');
        if ob != cb {
            return Some(unbalanced_message("braces", ob, cb));
        }
        let op = crate::text::count(&cs, '(');
        let cp = crate::text::count(&cs, ')');
        if op != cp {
            return Some(unbalanced_message("parentheses", op, cp));
        }
        let os = crate::text::count(&cs, '[');
        let cl = crate::text::count(&cs, ']');
        if os != cl {
            return Some(unbalanced_message("brackets", os, cl));
        }
        None
    }

    /// Get a summary of issues for logging: the count of each category
    /// with issues, in the order the categories are declared.
    pub fn summary(&self, report: &CoherenceReport) -> (r: String)
        ensures
            r@ == summary_text(report@.issues),
    {
        if report.issues.len() == 0 {
            return to_owned("No coherence issues detected");
        }
        let ghost v = report@.issues;
        let mut nf: usize = 0;
        let mut nm: usize = 0;
        let mut ni: usize = 0;
        let mut nt: usize = 0;
        let mut nn: usize = 0;
        let mut j: usize = 0;
        while j < report.issues.len()
            invariant
                j <= report.issues@.len(),
                v == issue_views(report.issues@),
                nf == category_count(v.take(j as int), IssueCategory::MissingField),
                nm == category_count(v.take(j as int), IssueCategory::MissingMethod),
                ni == category_count(v.take(j as int), IssueCategory::MissingImport),
                nt == category_count(v.take(j as int), IssueCategory::MissingType),
                nn == category_count(v.take(j as int), IssueCategory::NameMismatch),
                nf + nm + ni + nt + nn == j,
            decreases report.issues.len() - j,
        {
            proof {
                assert(v.take(j + 1).drop_last() =~= v.take(j as int));
            }
            match report.issues[j].category {
                IssueCategory::MissingField => nf = nf + 1,
                IssueCategory::MissingMethod => nm = nm + 1,
                IssueCategory::MissingImport => ni = ni + 1,
                IssueCategory::MissingType => nt = nt + 1,
                IssueCategory::NameMismatch => nn = nn + 1,
            }
            j = j + 1;
        }
        assert(v.take(v.len() as int) =~= v);
        let mut parts: Vec<String> = Vec::new();
        push_count_part(&mut parts, "missing_field", nf);
        push_count_part(&mut parts, "missing_method", nm);
        push_count_part(&mut parts, "missing_import", ni);
        push_count_part(&mut parts, "missing_type", nt);
        push_count_part(&mut parts, "name_mismatch", nn);
        let joined = crate::text::join_strings(parts.as_slice(), ", ");
        let mut r = String::new();
        append(&mut r, "Coherence issues: ");
        append(&mut r, joined.as_str());
        proof {
            assert(views(parts@) =~= count_part("missing_field"@, nf as nat) + count_part("missing_method"@, nm as nat)
                + count_part("missing_import"@, ni as nat) + count_part("missing_type"@, nt as nat)
                + count_part("name_mismatch"@, nn as nat));
        }
        r
    }
}

/// The message for unbalanced delimiters.
fn unbalanced_message(kind: &str, open: usize, close: usize) -> (r: String)
    ensures
        r@ == unbalanced_text(kind@, open as nat, close as nat),
{
    let mut s = String::new();
    append(&mut s, "Unbalanced ");
    append(&mut s, kind);
    append(&mut s, ": ");
    push_decimal(&mut s, open as u64);
    append(&mut s, " open, ");
    push_decimal(&mut s, close as u64);
    append(&mut s, " close");
    assert(s@ =~= unbalanced_text(kind@, open as nat, close as nat));
    s
}

/// Appends a category's count to the summary parts, if it is not zero.
fn push_count_part(parts: &mut Vec<String>, key: &str, n: usize)
    ensures
        views(final(parts)@) == views(old(parts)@) + count_part(key@, n as nat),
{
    if n > 0 {
        let mut p = String::new();
        append(&mut p, key);
        append(&mut p, ": ");
        push_decimal(&mut p, n as u64);
        parts.push(p);
        assert(views(parts@) =~= views(old(parts)@) + count_part(key@, n as nat));
    } else {
        assert(views(parts@) =~= views(old(parts)@) + count_part(key@, n as nat));
    }
}

/// The system prompt for the executor that fixes coherence issues.
pub open spec fn liaison_system_prompt_text() -> Seq<char> {
    "You are an expert Rust developer and code coherence specialist.\nYour job is to take code fragments from multiple agents and produce a SINGLE COHERENT module.\n\nCRITICAL RULES:\n1. Use ONLY stable Rust. NO nightly features.\n2. ALL braces, parentheses, and brackets must be balanced.\n3. ALL struct fields referenced in impl must be defined in the struct.\n4. ALL methods called in tests must be defined in impl.\n5. Make constructors `pub fn new()` - not private.\n6. Include ALL necessary imports at the top.\n7. Return ONLY the complete, working Rust code.\n8. NO markdown, NO explanations, NO comments about changes.\n\nDouble-check your syntax before responding!"@
}

/// The system prompt for the executor that fixes coherence issues.
pub fn liaison_system_prompt() -> (r: &'static str)
    ensures
        r@ == liaison_system_prompt_text(),
{
    "You are an expert Rust developer and code coherence specialist.\nYour job is to take code fragments from multiple agents and produce a SINGLE COHERENT module.\n\nCRITICAL RULES:\n1. Use ONLY stable Rust. NO nightly features.\n2. ALL braces, parentheses, and brackets must be balanced.\n3. ALL struct fields referenced in impl must be defined in the struct.\n4. ALL methods called in tests must be defined in impl.\n5. Make constructors `pub fn new()` - not private.\n6. Include ALL necessary imports at the top.\n7. Return ONLY the complete, working Rust code.\n8. NO markdown, NO explanations, NO comments about changes.\n\nDouble-check your syntax before responding!"
}

/// The result returned when no critical issue was found: the code of the
/// parts that succeeded, joined by blank lines.
pub fn passed_result(results: &[SubTaskResult]) -> (r: SubTaskResult)
    ensures
        r.id@ == "liaison_passed"@,
        r.name@ == "Liaison Passed"@,
        r.code@ == crate::text::join(successful_codes(results@), "\n\n"@),
        r.success,
        r.error is None,
{
    let mut codes: Vec<String> = Vec::new();
    let mut k: usize = 0;
    while k < results.len()
        invariant
            k <= results@.len(),
            views(codes@) == successful_codes(results@.take(k as int)),
        decreases results.len() - k,
    {
        proof {
            assert(results@.take(k + 1).drop_last() =~= results@.take(k as int));
        }
        if results[k].success {
            codes.push(results[k].code.clone());
        }
        proof {
            assert(views(codes@) =~= successful_codes(results@.take(k + 1)));
        }
        k = k + 1;
    }
    assert(results@.take(results@.len() as int) =~= results@);
    let code = crate::text::join_strings(codes.as_slice(), "\n\n");
    SubTaskResult {
        id: to_owned("liaison_passed"),
        name: to_owned("Liaison Passed"),
        code,
        success: true,
        error: None,
    }
}

/// The result returned with the code an executor produced.
pub fn fixed_result(code: String) -> (r: SubTaskResult)
    ensures
        r.id@ == "liaison_fixed"@,
        r.name@ == "Liaison Fixed"@,
        r.code@ == code@,
        r.success,
        r.error is None,
{
    SubTaskResult { id: to_owned("liaison_fixed"), name: to_owned("Liaison Fixed"), code, success: true, error: None }
}

/// The prompt that asks for a syntax fix of some code.
pub fn refix_prompt(syntax_error: &str, code: &str) -> (r: String)
    ensures
        r@ == refix_prompt_text(syntax_error@, code@),
{
    let mut s = String::new();
    append(&mut s, "The code has a syntax error: ");
    append(&mut s, syntax_error);
    append(&mut s, "\n\n");
    append(&mut s, "Fix the syntax and return the complete, corrected Rust code.\n");
    append(&mut s, "No markdown, no explanations.\n\n");
    append(&mut s, code);
    assert(s@ =~= refix_prompt_text(syntax_error@, code@));
    s
}

} // verus!

verus! {

// ============================================================================
// LAW: COMMON METHODS ARE NOT CHECKED
// ============================================================================

/// The method names that calls in tests are not checked for: awaiting,
/// unwrapping, results, lengths, clones, conversions and iteration.
pub open spec fn unchecked_call(n: Seq<char>) -> bool {
    n == "await"@ || n == "unwrap"@ || n == "expect"@ || n == "is_ok"@ || n == "is_err"@ || n == "len"@ || n
        == "clone"@ || n == "to_string"@ || n == "into"@ || n == "as_ref"@ || n == "as_mut"@ || n == "iter"@ || n
        == "collect"@
}

/// No set of the map holds an unchecked method name.
pub open spec fn free_of_unchecked(m: NameSetMap) -> bool {
    forall|i: int, n: Seq<char>| 0 <= i < m.len() && #[trigger] m[i].1.contains(n) ==> !unchecked_call(n)
}

proof fn lemma_map_add_free(m: NameSetMap, k: Seq<char>, v: Seq<char>)
    requires
        free_of_unchecked(m),
        !unchecked_call(v),
    ensures
        free_of_unchecked(map_add(m, k, v)),
{
    lemma_key_index(m, k);
    let r = map_add(m, k, v);
    assert forall|i: int, n: Seq<char>| 0 <= i < r.len() && #[trigger] r[i].1.contains(n) implies !unchecked_call(n) by {
        match key_index(m, k) {
            Some(j) => {
                if i == j {
                    let s = m[j].1;
                    if s.contains(v) {
                        assert(r[i].1 == s);
                        assert(m[j].1.contains(n));
                    } else {
                        assert(r[i].1 == s.push(v));
                        if n != v {
                            let q = choose|q: int| 0 <= q < s.push(v).len() && s.push(v)[q] == n;
                            assert(q < s.len());
                            assert(s[q] == n);
                            assert(s.contains(n));
                            assert(m[j].1.contains(n));
                        }
                    }
                } else {
                    assert(r[i] == m[i]);
                    assert(m[i].1.contains(n));
                }
            },
            None => {
                if i == m.len() {
                    assert(r[i].1 == seq![v]);
                    let q = choose|q: int| 0 <= q < 1 && seq![v][q] == n;
                    assert(n == v);
                } else {
                    assert(r[i] == m[i]);
                    assert(m[i].1.contains(n));
                }
            },
        }
    }
}

proof fn lemma_add_to_keys_free(m: NameSetMap, keys: Seq<Seq<char>>, v: Seq<char>)
    requires
        free_of_unchecked(m),
        !unchecked_call(v),
    ensures
        free_of_unchecked(add_to_keys(m, keys, v)),
    decreases keys.len(),
{
    if keys.len() > 0 {
        lemma_add_to_keys_free(m, keys.drop_last(), v);
        lemma_map_add_free(add_to_keys(m, keys.drop_last(), v), keys.last(), v);
    }
}

proof fn lemma_add_uses_free(m: NameSetMap, keys: Seq<Seq<char>>, ms: Matches)
    requires
        free_of_unchecked(m),
    ensures
        free_of_unchecked(add_uses(m, keys, ms, true)),
    decreases ms.len(),
{
    if ms.len() > 0 {
        lemma_add_uses_free(m, keys, ms.drop_last());
        let prev = add_uses(m, keys, ms.drop_last(), true);
        match group(ms.last(), 1) {
            Some(x) => {
                if !is_common_method(x) {
                    assert(!unchecked_call(x));
                    lemma_add_to_keys_free(prev, keys, x);
                }
            },
            None => {},
        }
    }
}

proof fn lemma_read_parts_free(parts: Seq<(Seq<char>, Seq<char>)>)
    ensures
        free_of_unchecked(read_parts(empty_report(), parts).used_methods),
    decreases parts.len(),
{
    if parts.len() > 0 {
        lemma_read_parts_free(parts.drop_last());
        let prev = read_parts(empty_report(), parts.drop_last());
        if parts.last().0 == "tests"@ {
            lemma_add_uses_free(
                prev.used_methods,
                prev.defined_types,
                regex_captures_all(method_call_pattern(), parts.last().1),
            );
        }
    }
}

/// Calls in tests of the common methods (`await`, `unwrap`, `expect`,
/// `is_ok`, `is_err`, `len`, `clone`, `to_string`, `into`, `as_ref`,
/// `as_mut`, `iter`, `collect`) are never recorded as used methods, so no
/// analysis asks for them to be defined.
pub proof fn lemma_common_methods_unchecked(parts: Seq<(Seq<char>, Seq<char>)>)
    ensures
        forall|i: int, n: Seq<char>|
            0 <= i < analysis(parts).used_methods.len() && #[trigger] analysis(parts).used_methods[i].1.contains(n)
                ==> !unchecked_call(n),
{
    lemma_read_parts_free(parts);
}

} // verus!
