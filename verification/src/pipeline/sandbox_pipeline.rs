//! The sandbox as a step of a validation pipeline: which languages it
//! takes by name, what it reports of a run, and the advice it draws from
//! the errors of a failed run.
use vstd::prelude::*;
use crate::pipeline::sandbox_validator::{Language, SandboxValidationResult};
use crate::text::{
    append, chars_of, contains_str, decimal, has_infix, insert_sorted, lemma_sorted_unique_determined,
    push_decimal, sorted_unique, str_eq, strictly_sorted, to_owned, views,
};

verus! {

/// The language a pipeline names, when the sandbox takes it.
pub open spec fn language_named(name: Seq<char>) -> Option<Language> {
    if name == "rust"@ {
        Some(Language::Rust)
    } else if name == "python"@ {
        Some(Language::Python)
    } else if name == "typescript"@ {
        Some(Language::TypeScript)
    } else {
        None
    }
}

/// The language the sandbox validates for a language name: Rust, Python
/// and TypeScript; any other name is refused.
pub fn sandbox_language(name: &str) -> (r: Result<Language, String>)
    ensures
        match language_named(name@) {
            Some(l) => r == Ok::<Language, String>(l),
            None => r matches Err(m) && m@ == "Unsupported language: "@ + name@,
        },
{
    if str_eq(name, "rust") {
        Ok(Language::Rust)
    } else if str_eq(name, "python") {
        Ok(Language::Python)
    } else if str_eq(name, "typescript") {
        Ok(Language::TypeScript)
    } else {
        let mut m = to_owned("Unsupported language: ");
        append(&mut m, name);
        Err(m)
    }
}

/// Advice on dependencies.
pub open spec fn advice_dependencies() -> Seq<char> {
    "Check that all required dependencies are in Cargo.toml"@
}

/// Advice on trait bounds.
pub open spec fn advice_traits() -> Seq<char> {
    "Verify trait implementations match expected bounds"@
}

/// Advice on borrowing.
pub open spec fn advice_borrowing() -> Seq<char> {
    "Review ownership and borrowing rules"@
}

/// Advice on lifetimes.
pub open spec fn advice_lifetimes() -> Seq<char> {
    "Check lifetime annotations"@
}

/// Advice on unstable features.
pub open spec fn advice_stable() -> Seq<char> {
    "IMPORTANT: Use only stable Rust features. Avoid LinkedList.retain() - use Vec or VecDeque with manual filtering instead."@
}

/// Advice on linked lists.
pub open spec fn advice_linked_list() -> Seq<char> {
    "Replace LinkedList with Vec<(K, Instant)> for LRU tracking - it's simpler and stable."@
}

/// Advice on unbalanced delimiters.
pub open spec fn advice_delimiters() -> Seq<char> {
    "SYNTAX ERROR: Check all braces {}, brackets [], and parentheses () are balanced. Count them carefully."@
}

/// Advice on async recursion.
pub open spec fn advice_async_recursion() -> Seq<char> {
    "Async recursion requires Box::pin(). Use: Box::pin(async move { ... })"@
}

/// Advice on a misplaced `.await`.
pub open spec fn advice_await() -> Seq<char> {
    "Move .await inside an async block or async fn. Don't use .await in regular closures."@
}

/// `a` when `c` holds, nothing otherwise.
pub open spec fn when(c: bool, a: Seq<char>) -> Seq<Seq<char>> {
    if c { seq![a] } else { Seq::empty() }
}

/// The advice on dependencies, trait bounds and borrowing an error calls
/// for.
pub open spec fn advice_first(e: Seq<char>) -> Seq<Seq<char>> {
    when(has_infix(e, "unresolved"@), advice_dependencies())
        + when(has_infix(e, "trait bound"@), advice_traits())
        + when(has_infix(e, "cannot borrow"@) || has_infix(e, "borrowed"@), advice_borrowing())
}

/// The advice on lifetimes, unstable features and linked lists an error
/// calls for.
pub open spec fn advice_second(e: Seq<char>) -> Seq<Seq<char>> {
    when(has_infix(e, "lifetime"@), advice_lifetimes())
        + when(has_infix(e, "unstable"@) || has_infix(e, "E0658"@), advice_stable())
        + when(has_infix(e, "linked_list"@), advice_linked_list())
}

/// The advice on delimiters, async recursion and `.await` an error calls
/// for.
pub open spec fn advice_third(e: Seq<char>) -> Seq<Seq<char>> {
    when(has_infix(e, "unclosed delimiter"@) || has_infix(e, "unexpected closing"@), advice_delimiters())
        + when(has_infix(e, "recursion in an async"@), advice_async_recursion())
        + when(has_infix(e, "await"@) && has_infix(e, "only allowed inside"@), advice_await())
}

/// The advice one error message calls for, in a fixed order.
pub open spec fn error_advice(e: Seq<char>) -> Seq<Seq<char>> {
    advice_first(e) + advice_second(e) + advice_third(e)
}

/// The advice of all errors, error after error.
pub open spec fn recommendations_for(errors: Seq<Seq<char>>) -> Seq<Seq<char>>
    decreases errors.len(),
{
    if errors.len() == 0 {
        Seq::empty()
    } else {
        recommendations_for(errors.drop_last()) + error_advice(errors.last())
    }
}

/// Pushes `a` when `c` holds.
fn push_when(v: &mut Vec<String>, c: bool, a: &str)
    ensures
        views(final(v)@) == views(old(v)@) + when(c, a@),
{
    if c {
        v.push(to_owned(a));
        assert(views(v@) =~= views(old(v)@) + seq![a@]);
    } else {
        assert(views(v@) =~= views(old(v)@) + Seq::<Seq<char>>::empty());
    }
}

/// Pushes the first group of advice an error calls for.
fn push_advice_first(v: &mut Vec<String>, cs: &Vec<char>)
    ensures
        views(final(v)@) == views(old(v)@) + advice_first(cs@),
{
    let ghost v0 = views(v@);
    push_when(v, contains_str(cs, "unresolved"), "Check that all required dependencies are in Cargo.toml");
    push_when(v, contains_str(cs, "trait bound"), "Verify trait implementations match expected bounds");
    push_when(
        v,
        contains_str(cs, "cannot borrow") || contains_str(cs, "borrowed"),
        "Review ownership and borrowing rules",
    );
    assert(views(v@) =~= v0 + advice_first(cs@));
}

/// Pushes the second group of advice an error calls for.
fn push_advice_second(v: &mut Vec<String>, cs: &Vec<char>)
    ensures
        views(final(v)@) == views(old(v)@) + advice_second(cs@),
{
    let ghost v0 = views(v@);
    push_when(v, contains_str(cs, "lifetime"), "Check lifetime annotations");
    push_when(
        v,
        contains_str(cs, "unstable") || contains_str(cs, "E0658"),
        "IMPORTANT: Use only stable Rust features. Avoid LinkedList.retain() - use Vec or VecDeque with manual filtering instead.",
    );
    push_when(
        v,
        contains_str(cs, "linked_list"),
        "Replace LinkedList with Vec<(K, Instant)> for LRU tracking - it's simpler and stable.",
    );
    assert(views(v@) =~= v0 + advice_second(cs@));
}

/// Pushes the third group of advice an error calls for.
fn push_advice_third(v: &mut Vec<String>, cs: &Vec<char>)
    ensures
        views(final(v)@) == views(old(v)@) + advice_third(cs@),
{
    let ghost v0 = views(v@);
    push_when(
        v,
        contains_str(cs, "unclosed delimiter") || contains_str(cs, "unexpected closing"),
        "SYNTAX ERROR: Check all braces {}, brackets [], and parentheses () are balanced. Count them carefully.",
    );
    push_when(
        v,
        contains_str(cs, "recursion in an async"),
        "Async recursion requires Box::pin(). Use: Box::pin(async move { ... })",
    );
    push_when(
        v,
        contains_str(cs, "await") && contains_str(cs, "only allowed inside"),
        "Move .await inside an async block or async fn. Don't use .await in regular closures.",
    );
    assert(views(v@) =~= v0 + advice_third(cs@));
}

/// Pushes the advice one error calls for.
fn push_advice(v: &mut Vec<String>, e: &str)
    ensures
        views(final(v)@) == views(old(v)@) + error_advice(e@),
{
    let cs = chars_of(e);
    let ghost v0 = views(v@);
    push_advice_first(v, &cs);
    push_advice_second(v, &cs);
    push_advice_third(v, &cs);
    assert(views(v@) =~= v0 + error_advice(e@));
}

/// The advice for the errors of a failed run: what each error calls for,
/// sorted, each once.
pub fn sandbox_recommendations(errors: &[String]) -> (r: Vec<String>)
    ensures
        views(r@) == sorted_unique(recommendations_for(views(errors@))),
{
    let mut all: Vec<String> = Vec::new();
    let mut i: usize = 0;
    while i < errors.len()
        invariant
            i <= errors@.len(),
            views(all@) == recommendations_for(views(errors@).take(i as int)),
        decreases errors.len() - i,
    {
        push_advice(&mut all, errors[i].as_str());
        proof {
            let t = views(errors@).take(i + 1);
            assert(t.drop_last() =~= views(errors@).take(i as int));
            assert(t.last() == errors@[i as int]@);
        }
        i = i + 1;
    }
    assert(views(errors@).take(errors@.len() as int) =~= views(errors@));
    sort_unique(&all)
}

/// The distinct texts of a list, sorted.
fn sort_unique(v: &Vec<String>) -> (r: Vec<String>)
    ensures
        views(r@) == sorted_unique(views(v@)),
{
    let ghost w = views(v@);
    let mut r: Vec<String> = Vec::new();
    assert(views(r@) =~= Seq::<Seq<char>>::empty());
    let mut j: usize = 0;
    while j < v.len()
        invariant
            j <= v@.len(),
            w == views(v@),
            strictly_sorted(views(r@)),
            views(r@).to_set() == w.take(j as int).to_set(),
        decreases v.len() - j,
    {
        insert_sorted(&mut r, v[j].clone());
        proof {
            assert(w.take(j + 1) =~= w.take(j as int).push(w[j as int]));
            Seq::<Seq<char>>::lemma_to_set_insert_commutes(w.take(j as int), w[j as int]);
            assert(w.take(j as int).push(w[j as int]) =~= w.take(j as int) + seq![w[j as int]]);
            assert(w.take(j + 1).to_set() =~= w.take(j as int).to_set().insert(w[j as int]));
        }
        j = j + 1;
    }
    proof {
        assert(w.take(w.len() as int) =~= w);
        let chosen = sorted_unique(w);
        assert(strictly_sorted(chosen) && chosen.to_set() == w.to_set());
        lemma_sorted_unique_determined(views(r@), chosen);
    }
    r
}

/// The feedback of a passed run: `Compilation OK, {n} tests passed`.
pub fn passed_feedback(tests_ok: u32) -> (r: String)
    ensures
        r@ == "Compilation OK, "@ + decimal(tests_ok as nat) + " tests passed"@,
{
    let mut r = to_owned("Compilation OK, ");
    push_decimal(&mut r, tests_ok as u64);
    append(&mut r, " tests passed");
    r
}

/// The errors of a failed run that the pipeline reports: the compiler's,
/// then the tests'.
pub fn run_errors(v: &SandboxValidationResult) -> (r: Vec<String>)
    ensures
        views(r@) == views(v.compiler_errors@) + views(v.test_errors@),
{
    let mut r: Vec<String> = Vec::new();
    let mut i: usize = 0;
    while i < v.compiler_errors.len()
        invariant
            i <= v.compiler_errors@.len(),
            views(r@) == views(v.compiler_errors@).take(i as int),
        decreases v.compiler_errors.len() - i,
    {
        let ghost before = views(r@);
        r.push(to_owned(v.compiler_errors[i].as_str()));
        assert(views(r@) =~= before.push(v.compiler_errors@[i as int]@));
        assert(views(r@) =~= views(v.compiler_errors@).take(i + 1));
        i = i + 1;
    }
    let mut j: usize = 0;
    while j < v.test_errors.len()
        invariant
            j <= v.test_errors@.len(),
            views(r@) == views(v.compiler_errors@) + views(v.test_errors@).take(j as int),
        decreases v.test_errors.len() - j,
    {
        let ghost before = views(r@);
        r.push(to_owned(v.test_errors[j].as_str()));
        assert(views(r@) =~= before.push(v.test_errors@[j as int]@));
        assert(views(r@) =~= views(v.compiler_errors@) + views(v.test_errors@).take(j + 1));
        j = j + 1;
    }
    assert(views(v.compiler_errors@).take(v.compiler_errors@.len() as int) =~= views(v.compiler_errors@));
    assert(views(v.test_errors@).take(v.test_errors@.len() as int) =~= views(v.test_errors@));
    r
}

} // verus!
