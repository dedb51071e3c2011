//! Reading what compilers, linters and test runners print: the errors, the
//! warnings, and the test counts, as the sandbox validator reports them.
use vstd::prelude::*;
use crate::pattern::{captures, group, group_at, opt_views, regex_captures};
use crate::pipeline::sandbox_validator::Language;
use crate::text::{
    append, char_views, chars_of, contains_str, has_infix, has_prefix, join, join_strings, lines, push_char,
    split_lines, starts_with_str, string_of, to_owned, trim, trimmed, views,
};

verus! {

broadcast use vstd::seq::group_seq_axioms;

// ============================================================================
// NUMBERS
// ============================================================================

/// The value of a string of ASCII decimal digits.
pub open spec fn digits_value(s: Seq<char>) -> nat
    decreases s.len(),
{
    if s.len() == 0 {
        0
    } else {
        (digits_value(s.drop_last()) * 10 + (s.last() as int - '0' as int)) as nat
    }
}

/// Whether every character is an ASCII decimal digit.
pub open spec fn all_digits(s: Seq<char>) -> bool {
    forall|i: int| 0 <= i < s.len() ==> '0' <= #[trigger] s[i] <= '9'
}

/// A text without a leading `+`.
pub open spec fn sign_stripped(s: Seq<char>) -> Seq<char> {
    if s.len() > 0 && s[0] == '+' {
        s.drop_first()
    } else {
        s
    }
}

/// What `str::parse::<u32>` gives for a text: its value when it is an
/// optional `+` followed by at least one ASCII digit and the value fits.
pub open spec fn parse_u32(s: Seq<char>) -> Option<u32> {
    let d = sign_stripped(s);
    if d.len() > 0 && all_digits(d) && digits_value(d) <= u32::MAX {
        Some(digits_value(d) as u32)
    } else {
        None
    }
}

/// A number parsed from a text, or zero.
pub open spec fn number_or_zero(o: Option<Seq<char>>) -> u32 {
    match o {
        Some(t) => match parse_u32(t) {
            Some(n) => n,
            None => 0,
        },
        None => 0,
    }
}

/// Parses a `u32` the way `str::parse` does.
pub fn parse_number(s: &str) -> (r: Option<u32>)
    ensures
        r == parse_u32(s@),
{
    let cs = chars_of(s);
    let start: usize = if cs.len() > 0 && cs[0] == '+' { 1 } else { 0 };
    let ghost d = sign_stripped(s@);
    assert(cs@.subrange(start as int, cs@.len() as int) =~= d);
    if start >= cs.len() {
        return None;
    }
    let mut value: u64 = 0;
    let mut i = start;
    while i < cs.len()
        invariant
            start <= i <= cs@.len(),
            cs@ == s@,
            d == cs@.subrange(start as int, cs@.len() as int),
            d == sign_stripped(s@),
            all_digits(cs@.subrange(start as int, i as int)),
            value == digits_value(cs@.subrange(start as int, i as int)),
            value <= u32::MAX,
        decreases cs.len() - i,
    {
        let c = cs[i];
        let ghost pre = cs@.subrange(start as int, i as int);
        let ghost next = cs@.subrange(start as int, i + 1);
        assert(next.drop_last() =~= pre);
        if c < '0' || c > '9' {
            assert(!all_digits(d)) by {
                assert(d[i - start] == c);
            }
            assert(parse_u32(s@) is None);
            return None;
        }
        let digit = (c as u64) - ('0' as u64);
        let nv = value * 10 + digit;
        if nv > 0xFFFF_FFFF {
            proof {
                assert(d.subrange(0, i + 1 - start) =~= next);
                assert(digits_value(next) == nv);
                if all_digits(d) {
                    lemma_digits_value_prefix(d, i + 1 - start);
                }
            }
            assert(parse_u32(s@) is None);
            return None;
        }
        value = nv;
        i = i + 1;
    }
    Some(value as u32)
}

/// The value of a prefix of digits is no more than the value of the whole.
proof fn lemma_digits_value_prefix(d: Seq<char>, k: int)
    requires
        0 <= k <= d.len(),
        all_digits(d),
    ensures
        digits_value(d.subrange(0, k)) <= digits_value(d),
    decreases d.len() - k,
{
    if k < d.len() {
        lemma_digits_value_prefix(d, k + 1);
        let p = d.subrange(0, k + 1);
        assert(p.drop_last() =~= d.subrange(0, k));
        assert('0' <= p.last() <= '9');
        assert(digits_value(p) >= digits_value(d.subrange(0, k)));
    } else {
        assert(d.subrange(0, k) =~= d);
    }
}


// ============================================================================
// LINE HELPERS
// ============================================================================

/// What a command printed, standard output then standard error.
pub open spec fn combined(stdout: Seq<char>, stderr: Seq<char>) -> Seq<char> {
    stdout + "\n"@ + stderr
}

/// Joins standard output and standard error with a newline.
pub fn combine(stdout: &str, stderr: &str) -> (r: String)
    ensures
        r@ == combined(stdout@, stderr@),
{
    let mut c = String::new();
    append(&mut c, stdout);
    append(&mut c, "\n");
    append(&mut c, stderr);
    c
}

/// The lines of a text, as strings.
fn line_strings(text: &str) -> (r: Vec<String>)
    ensures
        views(r@) == lines(text@),
{
    let cs = chars_of(text);
    let ls = split_lines(&cs);
    let mut r: Vec<String> = Vec::new();
    let mut i: usize = 0;
    while i < ls.len()
        invariant
            i <= ls@.len(),
            char_views(ls@) == lines(text@),
            views(r@) == char_views(ls@).take(i as int),
        decreases ls.len() - i,
    {
        let ghost before = views(r@);
        let line = string_of(ls[i].as_slice());
        assert(line@ == char_views(ls@)[i as int]);
        r.push(line);
        proof {
            assert(views(r@) =~= before.push(line@));
            assert(char_views(ls@).take(i + 1) =~= char_views(ls@).take(i as int).push(char_views(ls@)[i as int]));
        }
        i = i + 1;
    }
    assert(char_views(ls@).take(ls@.len() as int) =~= char_views(ls@));
    r
}

/// Whether a text holds a pattern, by its characters.
fn mentions(t: &str, p: &str) -> (b: bool)
    ensures
        b == has_infix(t@, p@),
{
    let tc = chars_of(t);
    contains_str(&tc, p)
}

/// Whether a text begins with a pattern.
fn begins(t: &str, p: &str) -> (b: bool)
    ensures
        b == has_prefix(t@, p@),
{
    let tc = chars_of(t);
    starts_with_str(&tc, p)
}

/// A text trimmed on both sides.
fn trim_text(t: &str) -> (r: String)
    ensures
        r@ == trim(t@),
{
    let tc = chars_of(t);
    let tr = trimmed(&tc);
    string_of(&tr)
}

// ============================================================================
// COMPILER ERRORS
// ============================================================================

/// A line that reports a Rust, TypeScript or Go compile error.
pub open spec fn is_error_line(l: Seq<char>) -> bool {
    ||| has_infix(l, "error[E"@)
    ||| has_prefix(l, "error:"@)
    ||| has_infix(l, "): error TS"@)
    ||| has_infix(l, ": error TS"@)
    ||| has_infix(l, ".go:"@) && (has_infix(l, "undefined"@) || has_infix(l, "cannot"@) || has_infix(l, "expected"@)
        || has_infix(l, "invalid"@))
}

/// A line of context for an error: a location arrow or a source excerpt.
pub open spec fn is_context_line(l: Seq<char>) -> bool {
    has_infix(l, " --> "@) || has_infix(l, " | "@)
}

/// One line of collecting errors: an error line starts an error, and a
/// context line is added to the last error.
pub open spec fn error_step(errs: Seq<Seq<char>>, l: Seq<char>) -> Seq<Seq<char>> {
    let e1 = if is_error_line(l) { errs.push(l) } else { errs };
    if is_context_line(l) && e1.len() > 0 {
        e1.update(e1.len() - 1, e1.last() + "\n"@ + l)
    } else {
        e1
    }
}

/// The errors collected from some lines.
pub open spec fn collect_errors(ls: Seq<Seq<char>>) -> Seq<Seq<char>>
    decreases ls.len(),
{
    if ls.len() == 0 {
        Seq::empty()
    } else {
        error_step(collect_errors(ls.drop_last()), ls.last())
    }
}

/// The compiler errors of a command's output: the errors collected from
/// its lines, or else the whole output trimmed, when not blank.
pub open spec fn compiler_errors(stdout: Seq<char>, stderr: Seq<char>) -> Seq<Seq<char>> {
    let c = combined(stdout, stderr);
    let es = collect_errors(lines(c));
    if es.len() > 0 {
        es
    } else if trim(c).len() > 0 {
        seq![trim(c)]
    } else {
        Seq::empty()
    }
}

/// Parse compiler error output.
pub fn parse_compiler_errors(stdout: &str, stderr: &str) -> (r: Vec<String>)
    ensures
        views(r@) == compiler_errors(stdout@, stderr@),
{
    let c = combine(stdout, stderr);
    let ls = line_strings(c.as_str());
    let ghost lv = views(ls@);
    let mut errors: Vec<String> = Vec::new();
    let mut i: usize = 0;
    while i < ls.len()
        invariant
            i <= ls@.len(),
            lv == views(ls@),
            lv == lines(c@),
            views(errors@) == collect_errors(lv.take(i as int)),
        decreases ls.len() - i,
    {
        proof {
            assert(lv.take(i + 1).drop_last() =~= lv.take(i as int));
        }
        let line = ls[i].as_str();
        let go_error = mentions(line, ".go:") && (mentions(line, "undefined") || mentions(line, "cannot") || mentions(line, "expected")
            || mentions(line, "invalid"));
        let is_error = mentions(line, "error[E") || begins(line, "error:") || mentions(line, "): error TS") || mentions(
            line,
            ": error TS",
        ) || go_error;
        let ghost before = views(errors@);
        if is_error {
            errors.push(to_owned(line));
        }
        let ghost e1 = views(errors@);
        assert(e1 == if is_error_line(line@) { before.push(line@) } else { before });
        if (mentions(line, " --> ") || mentions(line, " | ")) && errors.len() > 0 {
            let mut last = errors.pop().unwrap();
            append(&mut last, "\n");
            append(&mut last, line);
            errors.push(last);
            assert(views(errors@) =~= e1.update(e1.len() - 1, e1.last() + "\n"@ + line@));
        }
        i = i + 1;
    }
    assert(lv.take(lv.len() as int) =~= lv);
    if errors.len() == 0 {
        let cc = chars_of(c.as_str());
        let t = trimmed(&cc);
        if t.len() > 0 {
            errors.push(string_of(&t));
            assert(views(errors@) =~= seq![trim(c@)]);
        }
    }
    errors
}


// ============================================================================
// WARNINGS AND LINT ERRORS
// ============================================================================

/// The lines that report warnings.
pub open spec fn warning_lines(ls: Seq<Seq<char>>) -> Seq<Seq<char>>
    decreases ls.len(),
{
    if ls.len() == 0 {
        Seq::empty()
    } else {
        warning_lines(ls.drop_last()) + if has_infix(ls.last(), "warning:"@) || has_infix(ls.last(), "warn["@) {
            seq![ls.last()]
        } else {
            Seq::empty()
        }
    }
}

/// Extract warnings from output: the lines that mention a warning.
pub fn extract_warnings(stdout: &str, stderr: &str) -> (r: Vec<String>)
    ensures
        views(r@) == warning_lines(lines(combined(stdout@, stderr@))),
{
    let c = combine(stdout, stderr);
    let ls = line_strings(c.as_str());
    let ghost lv = views(ls@);
    let mut r: Vec<String> = Vec::new();
    let mut i: usize = 0;
    while i < ls.len()
        invariant
            i <= ls@.len(),
            lv == views(ls@),
            views(r@) == warning_lines(lv.take(i as int)),
        decreases ls.len() - i,
    {
        proof {
            assert(lv.take(i + 1).drop_last() =~= lv.take(i as int));
        }
        let ghost before = views(r@);
        let line = ls[i].as_str();
        if mentions(line, "warning:") || mentions(line, "warn[") {
            r.push(to_owned(line));
        }
        assert(views(r@) =~= warning_lines(lv.take(i + 1)));
        i = i + 1;
    }
    assert(lv.take(lv.len() as int) =~= lv);
    r
}

/// A line that starts a lint error or warning.
pub open spec fn is_lint_head(l: Seq<char>) -> bool {
    has_prefix(l, "error:"@) || has_prefix(l, "warning:"@)
}

/// A line of context for a lint: a location, an excerpt, or help.
pub open spec fn is_lint_context(l: Seq<char>) -> bool {
    has_infix(l, " --> "@) || has_infix(l, " | "@) || has_prefix(trim(l), "= help:"@) || has_prefix(trim(l), "help:"@)
}

/// One line of collecting lints; the state is the finished lints and the
/// one being collected.
pub open spec fn lint_step(st: (Seq<Seq<char>>, Seq<char>), l: Seq<char>) -> (Seq<Seq<char>>, Seq<char>) {
    if is_lint_head(l) {
        (if st.1.len() > 0 { st.0.push(st.1) } else { st.0 }, l)
    } else if is_lint_context(l) && st.1.len() > 0 {
        (st.0, st.1 + "\n"@ + l)
    } else {
        st
    }
}

/// The lint-collecting state after some lines.
pub open spec fn lint_state(ls: Seq<Seq<char>>) -> (Seq<Seq<char>>, Seq<char>)
    decreases ls.len(),
{
    if ls.len() == 0 {
        (Seq::empty(), Seq::empty())
    } else {
        lint_step(lint_state(ls.drop_last()), ls.last())
    }
}

/// The lints that are actionable: not the summary of an abort.
pub open spec fn actionable(es: Seq<Seq<char>>) -> Seq<Seq<char>>
    decreases es.len(),
{
    if es.len() == 0 {
        Seq::empty()
    } else {
        actionable(es.drop_last()) + if !has_infix(es.last(), "aborting due to"@) && !has_infix(
            es.last(),
            "could not compile"@,
        ) {
            seq![es.last()]
        } else {
            Seq::empty()
        }
    }
}

/// The lint errors of a command's output: each error or warning with its
/// context lines, except abort summaries.
pub open spec fn clippy_errors(stdout: Seq<char>, stderr: Seq<char>) -> Seq<Seq<char>> {
    let st = lint_state(lines(combined(stdout, stderr)));
    actionable(if st.1.len() > 0 { st.0.push(st.1) } else { st.0 })
}

/// Parse clippy/lint error output.
pub fn parse_clippy_errors(stdout: &str, stderr: &str) -> (r: Vec<String>)
    ensures
        views(r@) == clippy_errors(stdout@, stderr@),
{
    let c = combine(stdout, stderr);
    let ls = line_strings(c.as_str());
    let ghost lv = views(ls@);
    let mut errors: Vec<String> = Vec::new();
    let mut current = String::new();
    let mut i: usize = 0;
    proof {
        assert(current@ =~= Seq::<char>::empty());
    }
    while i < ls.len()
        invariant
            i <= ls@.len(),
            lv == views(ls@),
            lv == lines(c@),
            (views(errors@), current@) == lint_state(lv.take(i as int)),
        decreases ls.len() - i,
    {
        proof {
            assert(lv.take(i + 1).drop_last() =~= lv.take(i as int));
        }
        let line = ls[i].as_str();
        let t = trim_text(line);
        let ghost st = (views(errors@), current@);
        if begins(line, "error:") || begins(line, "warning:") {
            if !current.as_str().is_empty() {
                errors.push(current);
                assert(views(errors@) =~= st.0.push(st.1));
            }
            current = to_owned(line);
        } else if (mentions(line, " --> ") || mentions(line, " | ") || begins(t.as_str(), "= help:") || begins(t.as_str(), "help:"))
            && !current.as_str().is_empty() {
            append(&mut current, "\n");
            append(&mut current, line);
        }
        i = i + 1;
    }
    assert(lv.take(lv.len() as int) =~= lv);
    let ghost all = if current@.len() > 0 { views(errors@).push(current@) } else { views(errors@) };
    if !current.as_str().is_empty() {
        errors.push(current);
    }
    assert(views(errors@) == all);
    let mut r: Vec<String> = Vec::new();
    let mut k: usize = 0;
    while k < errors.len()
        invariant
            k <= errors@.len(),
            views(errors@) == all,
            views(r@) == actionable(all.take(k as int)),
        decreases errors.len() - k,
    {
        proof {
            assert(all.take(k + 1).drop_last() =~= all.take(k as int));
        }
        let e = errors[k].as_str();
        if !mentions(e, "aborting due to") && !mentions(e, "could not compile") {
            r.push(to_owned(e));
        }
        assert(views(r@) =~= actionable(all.take(k + 1)));
        k = k + 1;
    }
    assert(all.take(all.len() as int) =~= all);
    r
}


// ============================================================================
// TEST RESULTS
// ============================================================================

/// Test counts and errors: total, passed, failed, and the errors.
pub type TestCounts = (u32, u32, u32, Seq<Seq<char>>);

/// Counters wrap around at 2^32, as `u32` addition does in release builds.
pub open spec fn wrap_add(a: u32, b: u32) -> u32 {
    vstd::wrapping::u32_specs::wrapping_add(a, b)
}

/// A counter increased by one.
pub open spec fn wrap_inc(a: u32) -> u32 {
    wrap_add(a, 1)
}

/// The number in group `i` of a pattern's match in a line, or `d` when the
/// pattern does not match.
pub open spec fn matched_number(pattern: Seq<char>, line: Seq<char>, i: int, d: u32) -> u32 {
    match regex_captures(pattern, line) {
        Some(g) => number_or_zero(group(g, i)),
        None => d,
    }
}

/// The number in group `i` of a match, or zero.
fn group_number(g: &Vec<Option<String>>, i: usize) -> (r: u32)
    ensures
        r == number_or_zero(group(opt_views(g@), i as int)),
{
    match group_at(g, i) {
        Some(t) => match parse_number(t.as_str()) {
            Some(n) => n,
            None => 0,
        },
        None => 0,
    }
}

/// The number in group `i` of a pattern's match in a line, or `d`.
fn number_in(pattern: &str, line: &str, i: usize, d: u32) -> (r: u32)
    ensures
        r == matched_number(pattern@, line@, i as int, d),
{
    match captures(pattern, line) {
        Some(g) => group_number(&g, i),
        None => d,
    }
}

/// A line that reports a panic or a failed assertion.
pub open spec fn is_panic_line(l: Seq<char>) -> bool {
    ||| has_infix(l, "assertion `left == right` failed"@)
    ||| has_infix(l, "assertion failed"@)
    ||| has_infix(l, "panicked at"@)
    ||| has_infix(l, "thread 'main' panicked"@)
    ||| has_infix(l, "thread '"@) && has_infix(l, "' panicked"@)
}

/// The context after line `i`: of the next `k` lines, those that are not
/// blank or notes, trimmed, each after a newline.
pub open spec fn panic_context(ls: Seq<Seq<char>>, i: int, k: int) -> Seq<char>
    decreases k,
{
    if k <= 0 {
        Seq::empty()
    } else {
        panic_context(ls, i, k - 1) + if i + k < ls.len() {
            let n = trim(ls[i + k]);
            if n.len() > 0 && !has_prefix(n, "note:"@) {
                "\n"@ + n
            } else {
                Seq::empty()
            }
        } else {
            Seq::empty()
        }
    }
}

/// The failed tests listed after a `failures:` header at line `i`, from
/// the `j`-th line after it: up to the twentieth, stopping at a blank line
/// or the result line, leaving out `----` headers.
pub open spec fn failure_names(ls: Seq<Seq<char>>, i: int, j: int) -> Seq<Seq<char>>
    decreases 21 - j,
{
    if j > 20 {
        Seq::empty()
    } else if i + j < ls.len() {
        let n = trim(ls[i + j]);
        if n.len() == 0 || has_prefix(n, "test result:"@) {
            Seq::empty()
        } else {
            (if !has_prefix(n, "----"@) {
                seq!["Failed: "@ + n]
            } else {
                Seq::empty()
            }) + failure_names(ls, i, j + 1)
        }
    } else {
        failure_names(ls, i, j + 1)
    }
}

/// The pattern of a cargo test summary.
pub open spec fn passed_failed_pattern() -> Seq<char> {
    r"(\d+) passed; (\d+) failed"@
}

/// One line of reading cargo test output.
pub open spec fn rust_test_step(st: TestCounts, ls: Seq<Seq<char>>, i: int) -> TestCounts {
    let line = ls[i];
    let summary = has_prefix(line, "test result:"@);
    let st1 = if summary {
        match regex_captures(passed_failed_pattern(), line) {
            Some(g) => {
                let p = number_or_zero(group(g, 1));
                let f = number_or_zero(group(g, 2));
                (wrap_add(p, f), p, f, st.3)
            },
            None => st,
        }
    } else {
        st
    };
    let e2 = if has_infix(line, "FAILED"@) && !summary { st1.3.push(line) } else { st1.3 };
    let e3 = if is_panic_line(line) { e2.push(line + panic_context(ls, i, 5)) } else { e2 };
    let e4 = if trim(line) == "failures:"@ { e3 + failure_names(ls, i, 1) } else { e3 };
    (st1.0, st1.1, st1.2, e4)
}

/// The state after reading the first `n` lines of cargo test output.
pub open spec fn rust_test_state(ls: Seq<Seq<char>>, n: int) -> TestCounts
    decreases n,
{
    if n <= 0 || n > ls.len() {
        (0, 0, 0, Seq::empty())
    } else {
        rust_test_step(rust_test_state(ls, n - 1), ls, n - 1)
    }
}

/// A line worth showing when failures were counted but not described.
pub open spec fn is_relevant_line(l: Seq<char>) -> bool {
    has_infix(l, "FAILED"@) || has_infix(l, "error"@) || has_infix(l, "panicked"@) || has_infix(l, "assertion"@)
        || has_prefix(l, "test "@)
}

/// The relevant lines, in order.
pub open spec fn relevant_lines(ls: Seq<Seq<char>>) -> Seq<Seq<char>>
    decreases ls.len(),
{
    if ls.len() == 0 {
        Seq::empty()
    } else {
        relevant_lines(ls.drop_last()) + if is_relevant_line(ls.last()) {
            seq![ls.last()]
        } else {
            Seq::empty()
        }
    }
}

/// The first `n` elements, or all when there are fewer.
pub open spec fn first_n(s: Seq<Seq<char>>, n: int) -> Seq<Seq<char>> {
    if s.len() <= n {
        s
    } else {
        s.take(n)
    }
}

/// The last `n` elements, or all when there are fewer.
pub open spec fn last_n(s: Seq<Seq<char>>, n: int) -> Seq<Seq<char>> {
    if s.len() <= n {
        s
    } else {
        s.skip(s.len() - n)
    }
}

/// Parse cargo test output: the counts from the summary line, and the
/// failed tests, panics with their context, and listed failures; when
/// failures were counted but none described, the relevant lines (at most
/// twenty), or else the last thirty lines.
pub open spec fn rust_test_results(output: Seq<char>) -> TestCounts {
    let ls = lines(output);
    let st = rust_test_state(ls, ls.len() as int);
    if st.2 > 0 && st.3.len() == 0 {
        let rel = join(first_n(relevant_lines(ls), 20), "\n"@);
        if rel.len() > 0 {
            (st.0, st.1, st.2, seq![rel])
        } else {
            (st.0, st.1, st.2, seq!["Test output (last 30 lines):\n"@ + join(last_n(ls, 30), "\n"@)])
        }
    } else {
        st
    }
}

/// The context lines after line `i`.
fn panic_context_exec(ls: &Vec<String>, i: usize) -> (r: String)
    requires
        i < ls@.len(),
    ensures
        r@ == panic_context(views(ls@), i as int, 5),
{
    let ghost lv = views(ls@);
    let mut r = String::new();
    let mut k: usize = 1;
    proof {
        assert(r@ =~= panic_context(lv, i as int, 0));
    }
    while k <= 5
        invariant
            1 <= k <= 6,
            i < ls@.len(),
            lv == views(ls@),
            r@ == panic_context(lv, i as int, k - 1),
        decreases 6 - k,
    {
        let ghost before = r@;
        if k < ls.len() - i {
            let n = trim_text(ls[i + k].as_str());
            if !n.as_str().is_empty() && !begins(n.as_str(), "note:") {
                append(&mut r, "\n");
                append(&mut r, n.as_str());
            }
        }
        assert(r@ =~= panic_context(lv, i as int, k as int));
        k = k + 1;
    }
    r
}

/// The failures listed after the header at line `i`.
fn failure_names_exec(ls: &Vec<String>, i: usize, out: &mut Vec<String>)
    ensures
        views(final(out)@) == views(old(out)@) + failure_names(views(ls@), i as int, 1),
{
    let ghost lv = views(ls@);
    let ghost o0 = views(out@);
    let mut j: usize = 1;
    let mut done = false;
    while j <= 20 && !done
        invariant
            1 <= j <= 21,
            lv == views(ls@),
            done ==> views(out@) == o0 + failure_names(lv, i as int, 1),
            !done ==> views(out@) + failure_names(lv, i as int, j as int) == o0 + failure_names(lv, i as int, 1),
        decreases 21 - j, if done { 0int } else { 1int },
    {
        let ghost before = views(out@);
        if i < ls.len() && j < ls.len() - i {
            let n = trim_text(ls[i + j].as_str());
            if n.as_str().is_empty() || begins(n.as_str(), "test result:") {
                assert(before =~= before + failure_names(lv, i as int, j as int));
                done = true;
            } else {
                if !begins(n.as_str(), "----") {
                    let mut f = String::new();
                    append(&mut f, "Failed: ");
                    append(&mut f, n.as_str());
                    out.push(f);
                }
                assert(views(out@) + failure_names(lv, i as int, j + 1) =~= before + failure_names(lv, i as int, j as int));
                j = j + 1;
            }
        } else {
            j = j + 1;
        }
    }
    if !done {
        assert(views(out@) =~= views(out@) + failure_names(lv, i as int, j as int));
    }
}


/// Parse Rust test output (cargo test): total, passed, failed, errors.
pub fn parse_rust_test_output(output: &str) -> (r: (u32, u32, u32, Vec<String>))
    ensures
        (r.0, r.1, r.2, views(r.3@)) == rust_test_results(output@),
{
    let ls = line_strings(output);
    let ghost lv = views(ls@);
    let mut total: u32 = 0;
    let mut passed: u32 = 0;
    let mut failed: u32 = 0;
    let mut errors: Vec<String> = Vec::new();
    let mut i: usize = 0;
    proof {
        assert(views(errors@) =~= Seq::<Seq<char>>::empty());
    }
    while i < ls.len()
        invariant
            i <= ls@.len(),
            lv == views(ls@),
            lv == lines(output@),
            (total, passed, failed, views(errors@)) == rust_test_state(lv, i as int),
        decreases ls.len() - i,
    {
        let line = ls[i].as_str();
        let ghost e0 = views(errors@);
        let summary = begins(line, "test result:");
        if summary {
            match captures(r"(\d+) passed; (\d+) failed", line) {
                Some(g) => {
                    passed = group_number(&g, 1);
                    failed = group_number(&g, 2);
                    total = passed.wrapping_add(failed);
                },
                None => {},
            }
        }
        if mentions(line, "FAILED") && !summary {
            errors.push(to_owned(line));
        }
        let ghost e2 = views(errors@);
        assert(e2 == if has_infix(line@, "FAILED"@) && !has_prefix(line@, "test result:"@) { e0.push(line@) } else { e0 });
        let panic = mentions(line, "assertion `left == right` failed") || mentions(line, "assertion failed")
            || mentions(line, "panicked at") || mentions(line, "thread 'main' panicked") || (mentions(line, "thread '")
            && mentions(line, "' panicked"));
        if panic {
            let mut context = to_owned(line);
            let more = panic_context_exec(&ls, i);
            append(&mut context, more.as_str());
            errors.push(context);
        }
        let ghost e3 = views(errors@);
        assert(e3 =~= if is_panic_line(line@) { e2.push(line@ + panic_context(lv, i as int, 5)) } else { e2 });
        let t = trim_text(line);
        if crate::text::str_eq(t.as_str(), "failures:") {
            failure_names_exec(&ls, i, &mut errors);
        }
        proof {
            assert(rust_test_state(lv, i + 1) == rust_test_step(rust_test_state(lv, i as int), lv, i as int));
        }
        i = i + 1;
    }
    if failed > 0 && errors.len() == 0 {
        let mut rel: Vec<String> = Vec::new();
        let mut k: usize = 0;
        while k < ls.len() && rel.len() < 20
            invariant
                k <= ls@.len(),
                lv == views(ls@),
                views(rel@) == first_n(relevant_lines(lv.take(k as int)), 20),
                rel@.len() <= 20,
            decreases ls.len() - k,
        {
            proof {
                assert(lv.take(k + 1).drop_last() =~= lv.take(k as int));
                assert(relevant_lines(lv.take(k as int)).len() <= 19 || relevant_lines(lv.take(k as int)).len() >= 20);
            }
            let line = ls[k].as_str();
            let ghost before = views(rel@);
            if mentions(line, "FAILED") || mentions(line, "error") || mentions(line, "panicked") || mentions(line, "assertion")
                || begins(line, "test ") {
                rel.push(to_owned(line));
            }
            proof {
                lemma_relevant_step(lv, k as int);
                lemma_first_n_step(relevant_lines(lv.take(k as int)), lv[k as int], is_relevant_line(lv[k as int]), 20);
            }
            k = k + 1;
        }
        proof {
            if k < ls@.len() {
                lemma_first_n_prefix(lv, k as int);
            } else {
                assert(lv.take(lv.len() as int) =~= lv);
            }
        }
        let joined = join_strings(rel.as_slice(), "\n");
        if !joined.as_str().is_empty() {
            errors.push(joined);
            assert(views(errors@) =~= seq![join(first_n(relevant_lines(lv), 20), "\n"@)]);
        } else {
            let start: usize = if ls.len() > 30 { ls.len() - 30 } else { 0 };
            let mut tail: Vec<String> = Vec::new();
            let mut m = start;
            while m < ls.len()
                invariant
                    start <= m <= ls@.len(),
                    lv == views(ls@),
                    views(tail@) == lv.subrange(start as int, m as int),
                decreases ls.len() - m,
            {
                let ghost before = views(tail@);
                let line = ls[m].clone();
                assert(line@ == lv[m as int]);
                tail.push(line);
                assert(views(tail@) =~= before.push(lv[m as int]));
                assert(lv.subrange(start as int, m + 1) =~= lv.subrange(start as int, m as int).push(lv[m as int]));
                m = m + 1;
            }
            assert(lv.subrange(start as int, lv.len() as int) =~= last_n(lv, 30));
            let tj = join_strings(tail.as_slice(), "\n");
            let mut msg = String::new();
            append(&mut msg, "Test output (last 30 lines):\n");
            append(&mut msg, tj.as_str());
            errors.push(msg);
            assert(views(errors@) =~= seq!["Test output (last 30 lines):\n"@ + join(last_n(lv, 30), "\n"@)]);
        }
    }
    (total, passed, failed, errors)
}

/// Taking a first part of a list grown by at most one element grows the
/// part by at most that element.
proof fn lemma_first_n_step(a: Seq<Seq<char>>, x: Seq<char>, added: bool, n: int)
    requires
        0 <= n,
    ensures
        a.len() >= n ==> first_n(if added { a.push(x) } else { a }, n) == first_n(a, n),
        a.len() < n ==> first_n(if added { a.push(x) } else { a }, n) == (if added { a.push(x) } else { a }),
{
    if added && a.len() >= n {
        assert(a.push(x).take(n) =~= first_n(a, n));
    }
}

/// The relevant lines of one more line.
proof fn lemma_relevant_step(lv: Seq<Seq<char>>, k: int)
    requires
        0 <= k < lv.len(),
    ensures
        relevant_lines(lv.take(k + 1)) == (if is_relevant_line(lv[k]) {
            relevant_lines(lv.take(k)).push(lv[k])
        } else {
            relevant_lines(lv.take(k))
        }),
{
    let t = lv.take(k + 1);
    assert(t.drop_last() =~= lv.take(k));
    assert(t.last() == lv[k]);
    if is_relevant_line(lv[k]) {
        assert(relevant_lines(lv.take(k)) + seq![lv[k]] =~= relevant_lines(lv.take(k)).push(lv[k]));
    } else {
        assert(relevant_lines(lv.take(k)) + Seq::<Seq<char>>::empty() =~= relevant_lines(lv.take(k)));
    }
}

/// Once twenty relevant lines are found among the first `k`, later lines
/// change nothing.
proof fn lemma_first_n_prefix(lv: Seq<Seq<char>>, k: int)
    requires
        0 <= k <= lv.len(),
        relevant_lines(lv.take(k)).len() >= 20,
    ensures
        first_n(relevant_lines(lv), 20) == first_n(relevant_lines(lv.take(k)), 20),
    decreases lv.len() - k,
{
    if k < lv.len() {
        lemma_relevant_step(lv, k);
        lemma_first_n_step(relevant_lines(lv.take(k)), lv[k], is_relevant_line(lv[k]), 20);
        lemma_first_n_prefix(lv, k + 1);
    } else {
        assert(lv.take(k) =~= lv);
    }
}


/// The pattern of a count of passed tests.
pub open spec fn passed_pattern() -> Seq<char> {
    r"(\d+) passed"@
}

/// The pattern of a count of failed tests.
pub open spec fn failed_pattern() -> Seq<char> {
    r"(\d+) failed"@
}

/// The pattern of a count of all tests.
pub open spec fn total_pattern() -> Seq<char> {
    r"(\d+) total"@
}

/// The test runners whose output is read line by line.
#[derive(Debug, Clone, Copy, PartialEq, Eq, Structural)]
pub enum Runner {
    /// pytest
    Pytest,
    /// Jest
    Jest,
    /// go test
    GoTest,
}

/// One line of reading a test runner's output.
pub open spec fn runner_step(runner: Runner, st: TestCounts, line: Seq<char>) -> TestCounts {
    match runner {
        Runner::Pytest => {
            let st1 = if has_infix(line, "passed"@) || has_infix(line, "failed"@) {
                let p = matched_number(passed_pattern(), line, 1, st.1);
                let f = matched_number(failed_pattern(), line, 1, st.2);
                (wrap_add(p, f), p, f, st.3)
            } else {
                st
            };
            let e = if has_infix(line, "FAILED"@) || has_infix(line, "AssertionError"@) { st1.3.push(line) } else { st1.3 };
            (st1.0, st1.1, st1.2, e)
        },
        Runner::Jest => {
            let st1 = if has_infix(line, "Tests:"@) && has_infix(line, "total"@) {
                (
                    matched_number(total_pattern(), line, 1, st.0),
                    matched_number(passed_pattern(), line, 1, st.1),
                    matched_number(failed_pattern(), line, 1, st.2),
                    st.3,
                )
            } else {
                st
            };
            let e1 = if has_infix(line, "FAIL "@) || has_infix(line, "✕"@) || has_infix(line, "● "@) {
                st1.3.push(line)
            } else {
                st1.3
            };
            let e2 = if has_infix(line, "Error:"@) || has_infix(line, "expect("@) || has_infix(line, "toBe("@) {
                e1.push(line)
            } else {
                e1
            };
            (st1.0, st1.1, st1.2, e2)
        },
        Runner::GoTest => {
            let st1 = if has_infix(line, "--- PASS:"@) {
                (wrap_inc(st.0), wrap_inc(st.1), st.2, st.3)
            } else if has_infix(line, "--- FAIL:"@) {
                (wrap_inc(st.0), st.1, wrap_inc(st.2), st.3.push(line))
            } else {
                st
            };
            let e2 = if has_infix(line, "Error Trace:"@) || has_infix(line, "Error:"@) || has_infix(line, "FAIL\t"@) {
                st1.3.push(line)
            } else {
                st1.3
            };
            let e3 = if has_infix(line, ".go:"@) && (has_infix(line, "undefined"@) || has_infix(line, "cannot"@)
                || has_infix(line, "expected"@)) {
                e2.push(line)
            } else {
                e2
            };
            (st1.0, st1.1, st1.2, e3)
        },
    }
}

/// The counts and errors after reading some lines of a runner's output.
pub open spec fn runner_results(runner: Runner, ls: Seq<Seq<char>>) -> TestCounts
    decreases ls.len(),
{
    if ls.len() == 0 {
        (0, 0, 0, Seq::empty())
    } else {
        runner_step(runner, runner_results(runner, ls.drop_last()), ls.last())
    }
}

/// Reads a test runner's output line by line.
fn parse_runner_output(runner: Runner, output: &str) -> (r: (u32, u32, u32, Vec<String>))
    ensures
        (r.0, r.1, r.2, views(r.3@)) == runner_results(runner, lines(output@)),
{
    let ls = line_strings(output);
    let ghost lv = views(ls@);
    let mut total: u32 = 0;
    let mut passed: u32 = 0;
    let mut failed: u32 = 0;
    let mut errors: Vec<String> = Vec::new();
    let mut i: usize = 0;
    proof {
        assert(views(errors@) =~= Seq::<Seq<char>>::empty());
    }
    while i < ls.len()
        invariant
            i <= ls@.len(),
            lv == views(ls@),
            (total, passed, failed, views(errors@)) == runner_results(runner, lv.take(i as int)),
        decreases ls.len() - i,
    {
        proof {
            assert(lv.take(i + 1).drop_last() =~= lv.take(i as int));
        }
        let line = ls[i].as_str();
        match runner {
            Runner::Pytest => {
                if mentions(line, "passed") || mentions(line, "failed") {
                    passed = number_in(r"(\d+) passed", line, 1, passed);
                    failed = number_in(r"(\d+) failed", line, 1, failed);
                    total = passed.wrapping_add(failed);
                }
                if mentions(line, "FAILED") || mentions(line, "AssertionError") {
                    errors.push(to_owned(line));
                }
            },
            Runner::Jest => {
                if mentions(line, "Tests:") && mentions(line, "total") {
                    passed = number_in(r"(\d+) passed", line, 1, passed);
                    failed = number_in(r"(\d+) failed", line, 1, failed);
                    total = number_in(r"(\d+) total", line, 1, total);
                }
                if mentions(line, "FAIL ") || mentions(line, "✕") || mentions(line, "● ") {
                    errors.push(to_owned(line));
                }
                if mentions(line, "Error:") || mentions(line, "expect(") || mentions(line, "toBe(") {
                    errors.push(to_owned(line));
                }
            },
            Runner::GoTest => {
                if mentions(line, "--- PASS:") {
                    passed = passed.wrapping_add(1);
                    total = total.wrapping_add(1);
                } else if mentions(line, "--- FAIL:") {
                    failed = failed.wrapping_add(1);
                    total = total.wrapping_add(1);
                    errors.push(to_owned(line));
                }
                if mentions(line, "Error Trace:") || mentions(line, "Error:") || mentions(line, "FAIL\t") {
                    errors.push(to_owned(line));
                }
                if mentions(line, ".go:") && (mentions(line, "undefined") || mentions(line, "cannot") || mentions(
                    line,
                    "expected",
                )) {
                    errors.push(to_owned(line));
                }
            },
        }
        assert((total, passed, failed, views(errors@)) =~= runner_results(runner, lv.take(i + 1)));
        i = i + 1;
    }
    assert(lv.take(lv.len() as int) =~= lv);
    (total, passed, failed, errors)
}

/// Parse pytest output.
pub fn parse_pytest_output(output: &str) -> (r: (u32, u32, u32, Vec<String>))
    ensures
        (r.0, r.1, r.2, views(r.3@)) == runner_results(Runner::Pytest, lines(output@)),
{
    parse_runner_output(Runner::Pytest, output)
}

/// Parse Jest output (TypeScript/JavaScript).
pub fn parse_jest_output(output: &str) -> (r: (u32, u32, u32, Vec<String>))
    ensures
        (r.0, r.1, r.2, views(r.3@)) == runner_results(Runner::Jest, lines(output@)),
{
    parse_runner_output(Runner::Jest, output)
}

/// Parse Go test output.
pub fn parse_go_test_output(output: &str) -> (r: (u32, u32, u32, Vec<String>))
    ensures
        (r.0, r.1, r.2, views(r.3@)) == runner_results(Runner::GoTest, lines(output@)),
{
    parse_runner_output(Runner::GoTest, output)
}

/// The test results of a command's output, read as the language's test
/// runner prints them; for a language without a runner, no counts and the
/// whole output as the one error.
pub open spec fn test_results(stdout: Seq<char>, stderr: Seq<char>, language: Language) -> TestCounts {
    let c = combined(stdout, stderr);
    match language {
        Language::Rust => rust_test_results(c),
        Language::Python => runner_results(Runner::Pytest, lines(c)),
        Language::TypeScript | Language::JavaScript => runner_results(Runner::Jest, lines(c)),
        Language::Go => runner_results(Runner::GoTest, lines(c)),
        Language::Shell => (0, 0, 0, seq![c]),
    }
}

/// Parse test results.
pub fn parse_test_results(stdout: &str, stderr: &str, language: Language) -> (r: (u32, u32, u32, Vec<String>))
    ensures
        (r.0, r.1, r.2, views(r.3@)) == test_results(stdout@, stderr@, language),
{
    let c = combine(stdout, stderr);
    match language {
        Language::Rust => parse_rust_test_output(c.as_str()),
        Language::Python => parse_pytest_output(c.as_str()),
        Language::TypeScript | Language::JavaScript => parse_jest_output(c.as_str()),
        Language::Go => parse_go_test_output(c.as_str()),
        Language::Shell => {
            let mut v: Vec<String> = Vec::new();
            v.push(c);
            assert(views(v@) =~= seq![combined(stdout@, stderr@)]);
            (0, 0, 0, v)
        },
    }
}

} // verus!

verus! {

// ============================================================================
// LAW: A PASSING PYTEST SUMMARY IS COUNTED
// ============================================================================

/// A line says nothing of passed or failed tests.
pub open spec fn silent_on_counts(line: Seq<char>) -> bool {
    !has_infix(line, "passed"@) && !has_infix(line, "failed"@)
}

/// Lines that say nothing of passed or failed tests leave all counts at
/// zero.
proof fn lemma_pytest_silent_lines(ls: Seq<Seq<char>>)
    requires
        forall|i: int| 0 <= i < ls.len() ==> silent_on_counts(#[trigger] ls[i]),
    ensures
        runner_results(Runner::Pytest, ls).0 == 0,
        runner_results(Runner::Pytest, ls).1 == 0,
        runner_results(Runner::Pytest, ls).2 == 0,
    decreases ls.len(),
{
    if ls.len() > 0 {
        assert forall|i: int| 0 <= i < ls.drop_last().len() implies silent_on_counts(#[trigger] ls.drop_last()[i]) by {
            assert(ls.drop_last()[i] == ls[i]);
        }
        lemma_pytest_silent_lines(ls.drop_last());
        assert(silent_on_counts(ls[ls.len() - 1]));
    }
}

/// A pytest run whose summary (its last line) reports `n` passed tests and
/// no failed count, after lines that report no counts, is read as `n`
/// tests run, `n` passed and none failed.
pub proof fn lemma_pytest_all_passed(output: Seq<char>, n: u32)
    requires
        lines(output).len() > 0,
        forall|i: int| 0 <= i < lines(output).len() - 1 ==> silent_on_counts(#[trigger] lines(output)[i]),
        has_infix(lines(output).last(), "passed"@),
        regex_captures(passed_pattern(), lines(output).last()) matches Some(m) && number_or_zero(group(m, 1)) == n,
        regex_captures(failed_pattern(), lines(output).last()) is None,
    ensures
        runner_results(Runner::Pytest, lines(output)).0 == n,
        runner_results(Runner::Pytest, lines(output)).1 == n,
        runner_results(Runner::Pytest, lines(output)).2 == 0,
{
    let ls = lines(output);
    let d = ls.drop_last();
    assert forall|i: int| 0 <= i < d.len() implies silent_on_counts(#[trigger] d[i]) by {
        assert(d[i] == ls[i]);
    }
    lemma_pytest_silent_lines(d);
}

} // verus!
