//! Repair engine: repairs of common code errors that need no model.
//!
//! The surgical repair puts backticks around template literals (`${...}`)
//! that were written without them, line by line.
//!
//! Positions in a line are found by character, but one of them (the end of
//! an argument list) is then used as a byte offset; where that offset is not
//! a character boundary the repair cannot be made, and the functions below
//! require that it can.
use vstd::prelude::*;
use crate::pattern::{captures, group, group_at, opt_views, regex_captures};
use crate::text::{
    append, append_chars, chars_of, find, first_occurrence, has_infix, has_prefix, has_suffix, lines,
    lemma_encode_utf8_concat, lemma_first_occurrence_from, occurs_at, push_char, repeat, repeat_char, slice_range,
    split_lines, char_views, string_of, string_of_range, trim, trim_bounds, trimmed, utf8_width, views,
};

verus! {

broadcast use vstd::seq::group_seq_axioms;

// ============================================================================
// SPECIFICATIONS: PIECES
// ============================================================================

/// The text split at byte offset `k` of its UTF-8 encoding, when that
/// offset is a character boundary.
pub open spec fn byte_split(s: Seq<char>, k: int) -> Option<(Seq<char>, Seq<char>)> {
    let b = vstd::utf8::encode_utf8(s);
    if vstd::utf8::is_char_boundary(b, k) {
        Some((vstd::utf8::decode_utf8(b.take(k)), vstd::utf8::decode_utf8(b.skip(k))))
    } else {
        None
    }
}

/// The index of the `)` that closes an already open parenthesis, counting
/// from index `i` at depth `depth`.
pub open spec fn closing_paren_from(s: Seq<char>, i: int, depth: int) -> Option<int>
    decreases s.len() - i,
{
    if i < 0 || i >= s.len() {
        None
    } else if s[i] == '(' {
        closing_paren_from(s, i + 1, depth + 1)
    } else if s[i] == ')' {
        if depth - 1 == 0 {
            Some(i)
        } else {
            closing_paren_from(s, i + 1, depth - 1)
        }
    } else {
        closing_paren_from(s, i + 1, depth)
    }
}

/// The index of the `)` that closes an open parenthesis, if any.
pub open spec fn closing_paren(s: Seq<char>) -> Option<int> {
    closing_paren_from(s, 0, 1)
}

/// The text without leading copies of `c`.
pub open spec fn strip_leading(s: Seq<char>, c: char) -> Seq<char>
    decreases s.len(),
{
    if s.len() > 0 && s[0] == c {
        strip_leading(s.drop_first(), c)
    } else {
        s
    }
}

/// The text without trailing copies of `c`.
pub open spec fn strip_trailing(s: Seq<char>, c: char) -> Seq<char>
    decreases s.len(),
{
    if s.len() > 0 && s.last() == c {
        strip_trailing(s.drop_last(), c)
    } else {
        s
    }
}

/// The text without the quotes around it: leading double quotes, leading
/// single quotes, trailing double quotes, trailing single quotes.
pub open spec fn unquoted(s: Seq<char>) -> Seq<char> {
    strip_trailing(strip_trailing(strip_leading(strip_leading(s, '"'), '\''), '"'), '\'')
}

/// Whether every `${` of a line lies between backticks.
pub open spec fn backticks_cover_from(s: Seq<char>, i: int, inside: bool) -> bool
    decreases s.len() - i,
{
    if i < 0 || i >= s.len() {
        true
    } else {
        let now = if s[i] == '`' { !inside } else { inside };
        if i + 1 < s.len() && s[i] == '$' && s[i + 1] == '{' && !now {
            false
        } else {
            backticks_cover_from(s, i + 1, now)
        }
    }
}

/// Whether the line has proper backticks around its `${}` expressions.
pub open spec fn has_proper_backticks(s: Seq<char>) -> bool {
    backticks_cover_from(s, 0, false)
}

/// What an attempted repair gives: a repaired line, nothing to repair, or
/// no answer because a position is not a character boundary.
pub enum FixOutcome {
    Fixed(Seq<char>),
    NoFix,
    Stuck,
}

/// The call `prefix` (such as `Error(`) in a line with its argument list
/// put between backticks, when the first such call has a closing
/// parenthesis and an argument that holds `${` and does not start with a
/// backtick.
pub open spec fn fix_call_with(line: Seq<char>, prefix: Seq<char>) -> FixOutcome {
    match first_occurrence(line, prefix) {
        Some(start) => {
            let split_at = start + prefix.len();
            let after = line.skip(split_at);
            match closing_paren(after) {
                Some(end) => match byte_split(after, end) {
                    Some((content, rest)) => if has_infix(content, "${"@) && !has_prefix(content, "`"@) {
                        FixOutcome::Fixed(line.take(split_at) + "`"@ + unquoted(content) + "`"@ + rest)
                    } else {
                        FixOutcome::NoFix
                    },
                    None => FixOutcome::Stuck,
                },
                None => FixOutcome::NoFix,
            }
        },
        None => FixOutcome::NoFix,
    }
}

/// The constructors of errors whose argument is repaired, in the order
/// they are tried.
pub open spec fn error_prefixes() -> Seq<Seq<char>> {
    seq!["new Error("@, "Error("@, "throw new Error("@]
}

/// The first repair of an error constructor's argument, trying the
/// prefixes from the `k`-th on.
pub open spec fn fix_error_from(line: Seq<char>, k: int) -> FixOutcome
    decreases 3 - k,
{
    if k < 0 || k >= 3 {
        FixOutcome::NoFix
    } else {
        match fix_call_with(line, error_prefixes()[k]) {
            FixOutcome::NoFix => fix_error_from(line, k + 1),
            other => other,
        }
    }
}

/// The index of the first `;` or `,`, or the length.
pub open spec fn expression_end(s: Seq<char>) -> int {
    match (first_occurrence(s, seq![';']), first_occurrence(s, seq![','])) {
        (Some(a), Some(b)) => if a < b { a } else { b },
        (Some(a), None) => a,
        (None, Some(b)) => b,
        (None, None) => s.len() as int,
    }
}

/// An assignment `x = text ${v}` with its unquoted right side (up to the
/// first `;` or `,`) put between backticks.
pub open spec fn fix_assignment(line: Seq<char>) -> Option<Seq<char>> {
    match first_occurrence(line, " = "@) {
        Some(eq) => {
            let rhs = trim(line.skip(eq + 3));
            if has_infix(rhs, "${"@) && !has_prefix(rhs, "`"@) && !has_prefix(rhs, "\""@) && !has_prefix(rhs, "'"@) {
                let e = expression_end(rhs);
                Some(line.take(eq + 3) + "`"@ + trim(rhs.take(e)) + "`"@ + rhs.skip(e))
            } else {
                None
            }
        },
        None => None,
    }
}

/// The text with its first occurrence of `pat` replaced by `rep`.
pub open spec fn replace_first(s: Seq<char>, pat: Seq<char>, rep: Seq<char>) -> Seq<char> {
    match first_occurrence(s, pat) {
        Some(i) => s.take(i) + rep + s.skip(i + pat.len()),
        None => s,
    }
}

/// A double-quoted string holding `${`.
pub open spec fn double_quoted_template() -> Seq<char> {
    r#""([^"]*\$\{[^}]+\}[^"]*)""#@
}

/// A single-quoted string holding `${`.
pub open spec fn single_quoted_template() -> Seq<char> {
    r"'([^']*\$\{[^}]+\}[^']*)'"@
}

/// The text with the quoted template the pattern matches first put
/// between backticks: the repaired text when it matches with both groups,
/// nothing to repair when it does not match, and stuck when a group is
/// missing from a match.
pub open spec fn requote(s: Seq<char>, pattern: Seq<char>) -> FixOutcome {
    match regex_captures(pattern, s) {
        Some(g) => match (group(g, 0), group(g, 1)) {
            (Some(whole), Some(content)) => FixOutcome::Fixed(replace_first(s, whole, "`"@ + content + "`"@)),
            _ => FixOutcome::Stuck,
        },
        None => FixOutcome::NoFix,
    }
}

/// A line with its first double-quoted, then its first single-quoted,
/// template put between backticks; none when neither is found (or a match
/// lacks a group).
pub open spec fn fix_quoted(line: Seq<char>) -> Option<Seq<char>> {
    match requote(line, double_quoted_template()) {
        FixOutcome::Stuck => None,
        FixOutcome::Fixed(x) => match requote(x, single_quoted_template()) {
            FixOutcome::Stuck => None,
            FixOutcome::Fixed(y) => Some(y),
            FixOutcome::NoFix => Some(x),
        },
        FixOutcome::NoFix => match requote(line, single_quoted_template()) {
            FixOutcome::Fixed(y) => Some(y),
            _ => None,
        },
    }
}

/// The width in bytes of what trimming removes from a line.
pub open spec fn trimmed_width(line: Seq<char>) -> nat {
    (vstd::utf8::encode_utf8(line).len() - vstd::utf8::encode_utf8(trim(line)).len()) as nat
}

/// A line with its template literals repaired: unchanged when it has no
/// `${` or when its backticks are proper; otherwise the first repair that
/// applies (error constructor, `console.log`, assignment, quoted string),
/// indented by as many spaces as trimming removed bytes. Nothing when a
/// repair is stuck.
pub open spec fn fixed_line(line: Seq<char>) -> Option<Seq<char>> {
    let t = trim(line);
    if !has_infix(t, "${"@) || has_proper_backticks(t) {
        Some(line)
    } else {
        let indent = repeat_char(' ', trimmed_width(line));
        match fix_error_from(t, 0) {
            FixOutcome::Fixed(f) => Some(indent + f),
            FixOutcome::Stuck => None,
            FixOutcome::NoFix => match fix_call_with(t, "console.log("@) {
                FixOutcome::Fixed(f) => Some(indent + f),
                FixOutcome::Stuck => None,
                FixOutcome::NoFix => match fix_assignment(t) {
                    Some(f) => Some(indent + f),
                    None => match fix_quoted(t) {
                        Some(f) => Some(indent + f),
                        None => Some(line),
                    },
                },
            },
        }
    }
}

/// Whether every line of some code can be repaired without getting stuck.
pub open spec fn repairable(code: Seq<char>) -> bool {
    forall|i: int| 0 <= i < lines(code).len() ==> (#[trigger] fixed_line(lines(code)[i])) is Some
}

/// The repaired lines, each followed by a newline, and how many changed.
pub open spec fn repaired_lines(ls: Seq<Seq<char>>) -> (Seq<char>, nat)
    decreases ls.len(),
{
    if ls.len() == 0 {
        (Seq::empty(), 0)
    } else {
        let prev = repaired_lines(ls.drop_last());
        let f = match fixed_line(ls.last()) {
            Some(x) => x,
            None => ls.last(),
        };
        (prev.0 + f + "\n"@, prev.1 + if f != ls.last() { 1nat } else { 0nat })
    }
}

/// The code with its template literals repaired line by line, and the
/// number of lines changed; a final newline is kept only if the code had
/// one.
pub open spec fn template_repair(code: Seq<char>) -> (Seq<char>, nat) {
    let r = repaired_lines(lines(code));
    if !has_suffix(code, "\n"@) && has_suffix(r.0, "\n"@) {
        (r.0.drop_last(), r.1)
    } else {
        r
    }
}


// ============================================================================
// EXECUTABLE PIECES
// ============================================================================

/// What an attempt gives: `None` when stuck, `Some(None)` when there is
/// nothing to repair, `Some(Some(line))` when repaired.
pub open spec fn outcome_of(o: Option<Option<Vec<char>>>) -> FixOutcome {
    match o {
        None => FixOutcome::Stuck,
        Some(None) => FixOutcome::NoFix,
        Some(Some(v)) => FixOutcome::Fixed(v@),
    }
}

/// The index of the `)` that closes an open parenthesis.
fn find_matching_paren(s: &[char]) -> (r: Option<usize>)
    ensures
        match r {
            Some(i) => closing_paren(s@) == Some(i as int),
            None => closing_paren(s@) is None,
        },
{
    let mut depth: u128 = 1;
    let mut i: usize = 0;
    while i < s.len()
        invariant
            i <= s@.len(),
            1 <= depth <= i + 1,
            closing_paren(s@) == closing_paren_from(s@, i as int, depth as int),
        decreases s.len() - i,
    {
        let c = s[i];
        if c == '(' {
            depth = depth + 1;
        } else if c == ')' {
            if depth - 1 == 0 {
                return Some(i);
            }
            depth = depth - 1;
        }
        i = i + 1;
    }
    None
}

/// Splits characters at a byte offset of their encoding, when it is a
/// character boundary.
fn split_at_byte(s: &[char], k: usize) -> (r: Option<(Vec<char>, Vec<char>)>)
    ensures
        match r {
            Some(p) => byte_split(s@, k as int) == Some((p.0@, p.1@)),
            None => byte_split(s@, k as int) is None,
        },
{
    let owned = string_of(s);
    let text = owned.as_str();
    if text.is_char_boundary(k) {
        let (a, b) = text.split_at(k);
        proof {
            vstd::utf8::encode_utf8_decode_utf8(a@);
            vstd::utf8::encode_utf8_decode_utf8(b@);
            let bytes = vstd::utf8::encode_utf8(s@);
            assert(bytes.take(k as int) =~= bytes.subrange(0, k as int));
            assert(bytes.skip(k as int) =~= bytes.subrange(k as int, bytes.len() as int));
        }
        Some((chars_of(a), chars_of(b)))
    } else {
        None
    }
}

/// Characters without leading copies of `c`.
fn strip_leading_exec(s: &[char], c: char) -> (r: Vec<char>)
    ensures
        r@ == strip_leading(s@, c),
{
    let mut i: usize = 0;
    assert(s@.skip(0) =~= s@);
    while i < s.len() && s[i] == c
        invariant
            i <= s@.len(),
            strip_leading(s@, c) == strip_leading(s@.skip(i as int), c),
        decreases s.len() - i,
    {
        assert(s@.skip(i as int).drop_first() =~= s@.skip(i + 1));
        i = i + 1;
    }
    let r = slice_range(s, i, s.len());
    assert(r@ =~= s@.skip(i as int));
    r
}

/// Characters without trailing copies of `c`.
fn strip_trailing_exec(s: &[char], c: char) -> (r: Vec<char>)
    ensures
        r@ == strip_trailing(s@, c),
{
    let mut j: usize = s.len();
    assert(s@.take(s@.len() as int) =~= s@);
    while j > 0 && s[j - 1] == c
        invariant
            j <= s@.len(),
            strip_trailing(s@, c) == strip_trailing(s@.take(j as int), c),
        decreases j,
    {
        assert(s@.take(j as int).drop_last() =~= s@.take(j - 1));
        j = j - 1;
    }
    let r = slice_range(s, 0, j);
    assert(r@ =~= s@.take(j as int));
    r
}

/// Characters without the quotes around them.
fn unquoted_exec(s: &[char]) -> (r: Vec<char>)
    ensures
        r@ == unquoted(s@),
{
    let a = strip_leading_exec(s, '"');
    let b = strip_leading_exec(&a, '\'');
    let c = strip_trailing_exec(&b, '"');
    strip_trailing_exec(&c, '\'')
}

/// Appends the characters of a string.
fn push_str_chars(v: &mut Vec<char>, t: &str)
    ensures
        final(v)@ == old(v)@ + t@,
{
    let tc = chars_of(t);
    crate::pipeline::blocks::push_chars(v, &tc);
}

/// The repair of the first call `prefix` in a line.
fn fix_call_with_exec(line: &[char], prefix: &str) -> (r: Option<Option<Vec<char>>>)
    ensures
        outcome_of(r) == fix_call_with(line@, prefix@),
{
    let pc = chars_of(prefix);
    match find(line, &pc) {
        Some(start) => {
            proof {
                lemma_first_occurrence_from(line@, pc@, 0);
                assert(occurs_at(line@, pc@, start as int));
                assert(line@.len() == line.len());
            }
            let split_at = start + pc.len();
            let after = slice_range(line, split_at, line.len());
            assert(after@ =~= line@.skip(split_at as int));
            match find_matching_paren(&after) {
                Some(end) => match split_at_byte(&after, end) {
                    Some((content, rest)) => {
                        if crate::text::contains_str(&content, "${") && !crate::text::starts_with_str(&content, "`") {
                            let mut out = slice_range(line, 0, split_at);
                            assert(out@ =~= line@.take(split_at as int));
                            push_str_chars(&mut out, "`");
                            let uq = unquoted_exec(&content);
                            crate::pipeline::blocks::push_chars(&mut out, &uq);
                            push_str_chars(&mut out, "`");
                            crate::pipeline::blocks::push_chars(&mut out, &rest);
                            Some(Some(out))
                        } else {
                            Some(None)
                        }
                    },
                    None => None,
                },
                None => Some(None),
            }
        },
        None => Some(None),
    }
}

/// The first repair of an error constructor's argument.
fn fix_error_exec(t: &[char]) -> (r: Option<Option<Vec<char>>>)
    ensures
        outcome_of(r) == fix_error_from(t@, 0),
{
    proof {
        reveal_with_fuel(fix_error_from, 4);
    }
    let a = fix_call_with_exec(t, "new Error(");
    match a {
        Some(None) => {},
        _ => {
            return a;
        },
    }
    let b = fix_call_with_exec(t, "Error(");
    match b {
        Some(None) => {},
        _ => {
            return b;
        },
    }
    fix_call_with_exec(t, "throw new Error(")
}

/// The index of the first `;` or `,`, or the length.
fn expression_end_exec(s: &[char]) -> (r: usize)
    ensures
        r == expression_end(s@),
{
    let semi: Vec<char> = vec![';'];
    let comma: Vec<char> = vec![','];
    assert(semi@ =~= seq![';']);
    assert(comma@ =~= seq![',']);
    match (find(s, &semi), find(s, &comma)) {
        (Some(a), Some(b)) => if a < b { a } else { b },
        (Some(a), None) => a,
        (None, Some(b)) => b,
        (None, None) => s.len(),
    }
}

/// The repair of an assignment's unquoted right side.
fn fix_assignment_exec(line: &[char]) -> (r: Option<Vec<char>>)
    ensures
        match r {
            Some(v) => fix_assignment(line@) == Some(v@),
            None => fix_assignment(line@) is None,
        },
{
    let eq = chars_of(" = ");
    match find(line, &eq) {
        Some(at) => {
            proof {
                reveal_strlit(" = ");
                lemma_first_occurrence_from(line@, eq@, 0);
                assert(occurs_at(line@, eq@, at as int));
                assert(line@.len() == line.len());
                assert(eq@.len() == 3);
            }
            let tail = slice_range(line, at + 3, line.len());
            assert(tail@ =~= line@.skip(at + 3));
            let rhs = trimmed(&tail);
            if crate::text::contains_str(&rhs, "${") && !crate::text::starts_with_str(&rhs, "`")
                && !crate::text::starts_with_str(&rhs, "\"") && !crate::text::starts_with_str(&rhs, "'") {
                let e = expression_end_exec(&rhs);
                proof {
                    let s1 = first_occurrence(rhs@, seq![';']);
                    let s2 = first_occurrence(rhs@, seq![',']);
                    lemma_first_occurrence_from(rhs@, seq![';'], 0);
                    lemma_first_occurrence_from(rhs@, seq![','], 0);
                }
                let mut out = slice_range(line, 0, at + 3);
                assert(out@ =~= line@.take(at + 3));
                push_str_chars(&mut out, "`");
                let head = slice_range(&rhs, 0, e);
                assert(head@ =~= rhs@.take(e as int));
                let th = trimmed(&head);
                crate::pipeline::blocks::push_chars(&mut out, &th);
                push_str_chars(&mut out, "`");
                let rest = slice_range(&rhs, e, rhs.len());
                assert(rest@ =~= rhs@.skip(e as int));
                crate::pipeline::blocks::push_chars(&mut out, &rest);
                Some(out)
            } else {
                None
            }
        },
        None => None,
    }
}


/// Characters with the first occurrence of `pat` replaced by `rep`.
fn replace_first_exec(s: &[char], pat: &[char], rep: &[char]) -> (r: Vec<char>)
    ensures
        r@ == replace_first(s@, pat@, rep@),
{
    match find(s, pat) {
        Some(i) => {
            proof {
                lemma_first_occurrence_from(s@, pat@, 0);
                assert(s@.len() == s.len());
            }
            let mut out = slice_range(s, 0, i);
            assert(out@ =~= s@.take(i as int));
            crate::pipeline::blocks::push_chars(&mut out, rep);
            let rest = slice_range(s, i + pat.len(), s.len());
            assert(rest@ =~= s@.skip(i + pat@.len()));
            crate::pipeline::blocks::push_chars(&mut out, &rest);
            out
        },
        None => slice_range(s, 0, s.len()),
    }
}

/// The repair of the quoted template a pattern matches first.
fn requote_exec(s: &[char], pattern: &str) -> (r: Option<Option<Vec<char>>>)
    ensures
        outcome_of(r) == requote(s@, pattern@),
{
    let text = string_of(s);
    match captures(pattern, text.as_str()) {
        Some(g) => match (group_at(&g, 0), group_at(&g, 1)) {
            (Some(whole), Some(content)) => {
                let wc = chars_of(whole.as_str());
                let mut rep: Vec<char> = Vec::new();
                push_str_chars(&mut rep, "`");
                push_str_chars(&mut rep, content.as_str());
                push_str_chars(&mut rep, "`");
                Some(Some(replace_first_exec(s, &wc, &rep)))
            },
            _ => None,
        },
        None => Some(None),
    }
}

/// The repair of a line's quoted templates.
fn fix_quoted_exec(line: &[char]) -> (r: Option<Vec<char>>)
    ensures
        match r {
            Some(v) => fix_quoted(line@) == Some(v@),
            None => fix_quoted(line@) is None,
        },
{
    match requote_exec(line, r#""([^"]*\$\{[^}]+\}[^"]*)""#) {
        None => None,
        Some(Some(x)) => match requote_exec(&x, r"'([^']*\$\{[^}]+\}[^']*)'") {
            None => None,
            Some(Some(y)) => Some(y),
            Some(None) => Some(x),
        },
        Some(None) => match requote_exec(line, r"'([^']*\$\{[^}]+\}[^']*)'") {
            Some(Some(y)) => Some(y),
            _ => None,
        },
    }
}

/// Whether every `${` of a line lies between backticks.
fn has_proper_template_backticks(line: &[char]) -> (b: bool)
    ensures
        b == has_proper_backticks(line@),
{
    let mut inside = false;
    let mut i: usize = 0;
    while i < line.len()
        invariant
            i <= line@.len(),
            has_proper_backticks(line@) == backticks_cover_from(line@, i as int, inside),
        decreases line.len() - i,
    {
        if line[i] == '`' {
            inside = !inside;
        }
        if i + 1 < line.len() && line[i] == '$' && line[i + 1] == '{' && !inside {
            return false;
        }
        i = i + 1;
    }
    true
}

/// A line with its template literals repaired, or nothing when a repair
/// gets stuck.
fn fix_template_literal_line(line: &[char]) -> (r: Option<Vec<char>>)
    ensures
        fixed_line(line@) == match r {
            Some(v) => Some(v@),
            None => None,
        },
{
    let (a, b) = trim_bounds(line);
    let t = slice_range(line, a, b);
    if !crate::text::contains_str(&t, "${") || has_proper_template_backticks(&t) {
        return Some(slice_range(line, 0, line.len()));
    }
    let whole = utf8_width(line);
    let inner = utf8_width(&t);
    proof {
        let l = line@;
        assert(l =~= l.subrange(0, a as int) + (t@ + l.subrange(b as int, l.len() as int)));
        lemma_encode_utf8_concat(l.subrange(0, a as int), t@ + l.subrange(b as int, l.len() as int));
        lemma_encode_utf8_concat(t@, l.subrange(b as int, l.len() as int));
    }
    let pad = repeat(' ', whole - inner);
    let mut out: Vec<char> = Vec::new();
    push_str_chars(&mut out, pad.as_str());
    match fix_error_exec(&t) {
        Some(Some(f)) => {
            crate::pipeline::blocks::push_chars(&mut out, &f);
            return Some(out);
        },
        None => {
            return None;
        },
        Some(None) => {},
    }
    match fix_call_with_exec(&t, "console.log(") {
        Some(Some(f)) => {
            crate::pipeline::blocks::push_chars(&mut out, &f);
            return Some(out);
        },
        None => {
            return None;
        },
        Some(None) => {},
    }
    match fix_assignment_exec(&t) {
        Some(f) => {
            crate::pipeline::blocks::push_chars(&mut out, &f);
            return Some(out);
        },
        None => {},
    }
    match fix_quoted_exec(&t) {
        Some(f) => {
            crate::pipeline::blocks::push_chars(&mut out, &f);
            Some(out)
        },
        None => Some(slice_range(line, 0, line.len())),
    }
}

// ============================================================================
// SURGICAL REPAIR
// ============================================================================

/// Applies high-confidence repairs directly to code, without a model.
#[derive(Debug, Clone, Copy)]
pub struct SurgicalRepair;

impl SurgicalRepair {
    /// Apply template literal fixes to every line: the repaired code (with
    /// a final newline only if the code had one) and the number of lines
    /// changed.
    pub fn fix_template_literals(code: &str) -> (r: (String, usize))
        requires
            repairable(code@),
        ensures
            (r.0@, r.1 as nat) == template_repair(code@),
    {
        let cs = chars_of(code);
        let ls = split_lines(&cs);
        let ghost lv = char_views(ls@);
        proof {
            crate::text::lemma_lines_total_len(code@);
            assert(cs@.len() == cs.len());
        }
        let mut out: Vec<char> = Vec::new();
        let mut count: usize = 0;
        let mut i: usize = 0;
        while i < ls.len()
            invariant
                i <= ls@.len(),
                lv == char_views(ls@),
                lv == lines(code@),
                lv.len() <= usize::MAX,
                repairable(code@),
                (out@, count as nat) == repaired_lines(lv.take(i as int)),
                count <= i,
            decreases ls.len() - i,
        {
            proof {
                assert(lv.take(i + 1).drop_last() =~= lv.take(i as int));
                assert(lv[i as int] == ls@[i as int]@);
                assert(fixed_line(lines(code@)[i as int]) is Some);
            }
            let line = ls[i].as_slice();
            let fixed = match fix_template_literal_line(line) {
                Some(f) => f,
                None => slice_range(line, 0, line.len()),
            };
            let changed = !(fixed.len() == line.len() && crate::text::starts_with(&fixed, line));
            proof {
                reveal_strlit("\n");
                if fixed@.len() == line@.len() && crate::text::has_prefix(fixed@, line@) {
                    assert(fixed@ =~= line@);
                }
                if fixed@ == line@ {
                    assert(fixed@.subrange(0, line@.len() as int) =~= line@);
                }
            }
            if changed {
                count = count + 1;
            }
            crate::pipeline::blocks::push_line(&mut out, &fixed);
            i = i + 1;
        }
        assert(lv.take(lv.len() as int) =~= lv);
        let nl: Vec<char> = vec!['\n'];
        assert(nl@ =~= "\n"@) by {
            reveal_strlit("\n");
        }
        if !crate::text::ends_with(&cs, &nl) && crate::text::ends_with(&out, &nl) {
            out.pop();
        }
        (string_of(&out), count)
    }

    /// Apply template literal fixes to every line, when no line's repair
    /// gets stuck; nothing otherwise.
    pub fn try_fix_template_literals(code: &str) -> (r: Option<(String, usize)>)
        ensures
            r is None <==> !repairable(code@),
            r matches Some(p) ==> (p.0@, p.1 as nat) == template_repair(code@),
    {
        let cs = chars_of(code);
        let ls = split_lines(&cs);
        let ghost lv = char_views(ls@);
        let mut i: usize = 0;
        while i < ls.len()
            invariant
                i <= ls@.len(),
                lv == char_views(ls@),
                lv == lines(code@),
                forall|j: int| 0 <= j < i ==> (#[trigger] fixed_line(lv[j])) is Some,
            decreases ls.len() - i,
        {
            assert(lv[i as int] == ls@[i as int]@);
            if fix_template_literal_line(ls[i].as_slice()).is_none() {
                return None;
            }
            i = i + 1;
        }
        Some(Self::fix_template_literals(code))
    }
}

} // verus!

verus! {

// ============================================================================
// LAW: QUOTES AROUND A REPAIRED ARGUMENT ARE DROPPED
// ============================================================================

/// A character encoded in one byte.
pub open spec fn is_ascii_char(c: char) -> bool {
    (c as u32) < 128
}

/// Text of one-byte characters encodes to as many bytes as it has
/// characters.
proof fn lemma_ascii_width(a: Seq<char>)
    requires
        forall|i: int| 0 <= i < a.len() ==> is_ascii_char(#[trigger] a[i]),
    ensures
        vstd::utf8::encode_utf8(a).len() == a.len(),
    decreases a.len(),
{
    if a.len() > 0 {
        assert forall|i: int| 0 <= i < a.drop_first().len() implies is_ascii_char(#[trigger] a.drop_first()[i]) by {
            assert(a.drop_first()[i] == a[i + 1]);
        }
        lemma_ascii_width(a.drop_first());
        assert(is_ascii_char(a[0]));
    }
}

/// The end of a prefix's encoding is a character boundary.
proof fn lemma_boundary_after(a: Seq<char>, b: Seq<char>)
    ensures
        vstd::utf8::valid_utf8(vstd::utf8::encode_utf8(a + b)),
        vstd::utf8::is_char_boundary(vstd::utf8::encode_utf8(a + b), vstd::utf8::encode_utf8(a).len() as int),
    decreases a.len(),
{
    let c = a + b;
    vstd::utf8::encode_utf8_valid_utf8(c);
    if a.len() > 0 {
        vstd::utf8::encode_utf8_first_scalar(c);
        let bytes = vstd::utf8::encode_utf8(c);
        assert(c[0] == a[0]);
        assert(c.drop_first() =~= a.drop_first() + b);
        assert(vstd::utf8::pop_first_scalar(bytes) =~= vstd::utf8::encode_utf8(c.drop_first()));
        lemma_boundary_after(a.drop_first(), b);
        lemma_encode_utf8_concat(a, b);
    }
}

/// Splitting at the byte length of a one-byte-character prefix cuts the
/// text there.
proof fn lemma_byte_split_ascii(a: Seq<char>, b: Seq<char>)
    requires
        forall|i: int| 0 <= i < a.len() ==> is_ascii_char(#[trigger] a[i]),
    ensures
        byte_split(a + b, a.len() as int) == Some((a, b)),
{
    lemma_ascii_width(a);
    lemma_boundary_after(a, b);
    lemma_encode_utf8_concat(a, b);
    let bytes = vstd::utf8::encode_utf8(a + b);
    assert(bytes.take(a.len() as int) =~= vstd::utf8::encode_utf8(a));
    assert(bytes.skip(a.len() as int) =~= vstd::utf8::encode_utf8(b));
    vstd::utf8::encode_utf8_decode_utf8(a);
    vstd::utf8::encode_utf8_decode_utf8(b);
}

/// Scanning text without parentheses up to a `)` at depth one finds it.
proof fn lemma_closing_paren_scan(s: Seq<char>, i: int, end: int)
    requires
        0 <= i <= end < s.len(),
        s[end] == ')',
        forall|j: int| i <= j < end ==> s[j] != '(' && s[j] != ')',
    ensures
        closing_paren_from(s, i, 1) == Some(end),
    decreases end - i,
{
    if i < end {
        lemma_closing_paren_scan(s, i + 1, end);
    }
}

/// A quote character.
pub open spec fn is_quote_char(c: char) -> bool {
    c == '"' || c == '\''
}

/// When the first call `p` of a line has as its argument a quoted text
/// holding `${` (the quote `q` on both sides, no quote or parenthesis
/// inside, all one-byte characters), the repair puts the text between
/// backticks without its quotes: `pre p q body q ) rest` becomes
/// ``pre p `body` ) rest``.
pub proof fn lemma_quoted_argument_unquoted(
    pre: Seq<char>,
    p: Seq<char>,
    q: char,
    body: Seq<char>,
    rest: Seq<char>,
)
    requires
        is_quote_char(q),
        has_infix(body, "${"@),
        forall|i: int|
            0 <= i < body.len() ==> !is_quote_char(#[trigger] body[i]) && body[i] != '(' && body[i] != ')'
                && is_ascii_char(body[i]),
        first_occurrence(pre + p + seq![q] + body + seq![q, ')'] + rest, p) == Some(pre.len() as int),
    ensures
        fix_call_with(pre + p + seq![q] + body + seq![q, ')'] + rest, p) == FixOutcome::Fixed(
            pre + p + "`"@ + body + "`"@ + seq![')'] + rest,
        ),
{
    reveal_strlit("`");
    reveal_strlit("${");
    let line = pre + p + seq![q] + body + seq![q, ')'] + rest;
    let split_at: int = (pre.len() + p.len()) as int;
    let arg = seq![q] + body + seq![q];
    let tail = seq![')'] + rest;
    let after = line.skip(split_at);
    assert(after =~= arg + tail);
    assert(line.take(split_at) =~= pre + p);
    let end = arg.len() as int;
    assert forall|j: int| 0 <= j < end implies after[j] != '(' && after[j] != ')' by {
        if 0 < j < end - 1 {
            assert(after[j] == body[j - 1]);
        }
    }
    lemma_closing_paren_scan(after, 0, end);
    assert(closing_paren(after) == Some(end));
    assert forall|i: int| 0 <= i < arg.len() implies is_ascii_char(#[trigger] arg[i]) by {
        if 0 < i < arg.len() - 1 {
            assert(arg[i] == body[i - 1]);
        }
    }
    lemma_byte_split_ascii(arg, tail);
    crate::pipeline::liaison_architect::lemma_infix_in_right(seq![q], body, "${"@);
    crate::pipeline::liaison_architect::lemma_infix_in_left(seq![q] + body, seq![q], "${"@);
    assert(!has_prefix(arg, "`"@)) by {
        if has_prefix(arg, "`"@) {
            assert(arg.subrange(0, 1)[0] == arg[0]);
        }
    }
    assert(body.len() > 0);
    assert(body[0] != '"' && body[0] != '\'');
    assert(body.last() != '"' && body.last() != '\'') by {
        assert(body.last() == body[body.len() - 1]);
    }
    let l1 = strip_leading(arg, '"');
    let l2 = strip_leading(l1, '\'');
    let t1 = strip_trailing(l2, '"');
    if q == '"' {
        assert(arg.drop_first() =~= body + seq![q]);
        assert(strip_leading(arg.drop_first(), '"') == body + seq![q]) by {
            assert((body + seq![q])[0] == body[0]);
        }
        assert(l1 == body + seq![q]);
        assert((body + seq![q])[0] == body[0]);
        assert(l2 == body + seq![q]);
        assert((body + seq![q]).drop_last() =~= body);
        assert((body + seq![q]).last() == q);
        assert(strip_trailing(body, '"') == body);
        assert(t1 == body);
        assert(strip_trailing(body, '\'') == body);
    } else {
        assert((seq![q] + body + seq![q])[0] == q);
        assert(l1 == arg);
        assert(arg.drop_first() =~= body + seq![q]);
        assert(strip_leading(arg.drop_first(), '\'') == body + seq![q]) by {
            assert((body + seq![q])[0] == body[0]);
        }
        assert(l2 == body + seq![q]);
        assert((body + seq![q]).last() == q);
        assert(t1 == body + seq![q]);
        assert((body + seq![q]).drop_last() =~= body);
        assert(strip_trailing(body, '\'') == body);
        assert(strip_trailing(body + seq![q], '\'') == body);
    }
    assert(unquoted(arg) == body);
    assert(pre + p + "`"@ + body + "`"@ + tail =~= pre + p + "`"@ + body + "`"@ + seq![')'] + rest);
}

} // verus!

verus! {

/// Without backticks, a `${` at or after `i` is not covered.
proof fn lemma_uncovered_template(s: Seq<char>, i: int, k: int)
    requires
        0 <= i <= k,
        occurs_at(s, "${"@, k),
        forall|j: int| 0 <= j < s.len() ==> s[j] != '`',
    ensures
        !backticks_cover_from(s, i, false),
    decreases k - i,
{
    reveal_strlit("${");
    assert(s.subrange(k, k + 2)[0] == s[k] && s.subrange(k, k + 2)[1] == s[k + 1]);
    if i < k {
        lemma_uncovered_template(s, i + 1, k);
    }
}

/// A trimmed line without backticks whose first `new Error(` call has a
/// quoted argument holding `${` is repaired by putting the argument, without
/// its quotes, between backticks: `pre new Error(q body q) rest` becomes
/// ``pre new Error(`body`) rest``.
pub proof fn lemma_error_argument_unquoted(pre: Seq<char>, q: char, body: Seq<char>, rest: Seq<char>)
    requires
        is_quote_char(q),
        has_infix(body, "${"@),
        forall|i: int|
            0 <= i < body.len() ==> !is_quote_char(#[trigger] body[i]) && body[i] != '(' && body[i] != ')'
                && is_ascii_char(body[i]),
        trim(pre + "new Error("@ + seq![q] + body + seq![q, ')'] + rest) == pre + "new Error("@ + seq![q] + body
            + seq![q, ')'] + rest,
        forall|j: int|
            0 <= j < (pre + "new Error("@ + seq![q] + body + seq![q, ')'] + rest).len() ==> (pre + "new Error("@ + seq![q]
                + body + seq![q, ')'] + rest)[j] != '`',
        first_occurrence(pre + "new Error("@ + seq![q] + body + seq![q, ')'] + rest, "new Error("@) == Some(
            pre.len() as int,
        ),
    ensures
        fixed_line(pre + "new Error("@ + seq![q] + body + seq![q, ')'] + rest) == Some(
            pre + "new Error("@ + "`"@ + body + "`"@ + seq![')'] + rest,
        ),
{
    let line = pre + "new Error("@ + seq![q] + body + seq![q, ')'] + rest;
    lemma_quoted_argument_unquoted(pre, "new Error("@, q, body, rest);
    let k = choose|k: int| occurs_at(body, "${"@, k);
    let off = (pre + "new Error("@ + seq![q]).len() as int;
    reveal_strlit("${");
    assert(line.subrange(off + k, off + k + 2) =~= body.subrange(k, k + 2));
    assert(occurs_at(line, "${"@, off + k));
    lemma_uncovered_template(line, 0, off + k);
    assert(!has_proper_backticks(line));
    assert(has_infix(trim(line), "${"@));
    assert(error_prefixes()[0] == "new Error("@);
    assert(trimmed_width(line) == 0);
    assert(repeat_char(' ', 0) =~= Seq::<char>::empty());
    assert(Seq::<char>::empty() + (pre + "new Error("@ + "`"@ + body + "`"@ + seq![')'] + rest) =~= pre
        + "new Error("@ + "`"@ + body + "`"@ + seq![')'] + rest);
}

} // verus!
