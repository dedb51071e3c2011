//! Line-oriented block collection shared by the stage extractors.
//!
//! Code is read as its lines (as `str::lines` splits them). A block is a run
//! of lines starting at a given line; it is rendered as each line followed
//! by a newline, trimmed at the end.
use vstd::prelude::*;
use crate::text::{
    char_views, count, count_char, contains_char, ends_with, has_suffix, lemma_count_char_le,
    lemma_total_len_subrange, total_len, trim, trim_end, trimmed, trimmed_end,
};

verus! {

broadcast use vstd::seq::group_seq_axioms;

// ============================================================================
// SPECIFICATIONS
// ============================================================================

/// Each line followed by a newline, concatenated.
pub open spec fn lines_text(ls: Seq<Seq<char>>) -> Seq<char>
    decreases ls.len(),
{
    if ls.len() == 0 {
        Seq::empty()
    } else {
        lines_text(ls.drop_last()) + ls.last() + seq!['\n']
    }
}

/// Opening braces minus closing braces in a line.
pub open spec fn balance(l: Seq<char>) -> int {
    count_char(l, '{') as int - count_char(l, '}') as int
}

/// Whether a line, trimmed, ends with `;`.
pub open spec fn ends_statement(l: Seq<char>) -> bool {
    has_suffix(trim(l), seq![';'])
}

/// One past the last line of a brace block that continues at line `j`, with
/// brace depth `depth` so far and `started` once a `{` has been seen: the
/// block ends at the line that brings the depth back to zero after a `{`,
/// or at a line ending with `;` before any `{`, or at the last line.
pub open spec fn brace_block_end(ls: Seq<Seq<char>>, j: int, depth: int, started: bool) -> int
    decreases ls.len() - j,
{
    if j < 0 || j >= ls.len() {
        ls.len() as int
    } else {
        let d = depth + balance(ls[j]);
        let st = started || ls[j].contains('{');
        if (st && d == 0) || (ends_statement(ls[j]) && !st) {
            j + 1
        } else {
            brace_block_end(ls, j + 1, d, st)
        }
    }
}

/// The brace block that starts at line `start`.
pub open spec fn brace_block(ls: Seq<Seq<char>>, start: int) -> Seq<char> {
    trim_end(lines_text(ls.subrange(start, brace_block_end(ls, start, 0, false))))
}

/// One past the first line at or after `j` that ends with `;`, or the
/// number of lines when none does.
pub open spec fn statement_end(ls: Seq<Seq<char>>, j: int) -> int
    decreases ls.len() - j,
{
    if j < 0 || j >= ls.len() {
        ls.len() as int
    } else if ends_statement(ls[j]) {
        j + 1
    } else {
        statement_end(ls, j + 1)
    }
}

/// The lines from `start` through the first one that ends with `;`.
pub open spec fn statement_block(ls: Seq<Seq<char>>, start: int) -> Seq<char> {
    trim_end(lines_text(ls.subrange(start, statement_end(ls, start))))
}

/// Where a scan at line `i` goes after a block of `n` lines: `n` lines on
/// (at least one), but no further than `len`.
pub open spec fn skip_to(i: int, n: int, len: int) -> int {
    let a = if n < 1 { 1 } else { n };
    if i + a > len { len } else { i + a }
}

// ============================================================================
// LEMMAS
// ============================================================================

/// A line has no more braces of either kind than characters.
pub proof fn lemma_balance_bound(l: Seq<char>)
    ensures
        -(l.len() as int) <= balance(l) <= l.len(),
{
    lemma_count_char_le(l, '{');
    lemma_count_char_le(l, '}');
}

/// The block end lies after the line it continues at, within the lines.
pub proof fn lemma_brace_block_end_bounds(ls: Seq<Seq<char>>, j: int, depth: int, started: bool)
    requires
        0 <= j < ls.len(),
    ensures
        j < brace_block_end(ls, j, depth, started) <= ls.len(),
    decreases ls.len() - j,
{
    let d = depth + balance(ls[j]);
    let st = started || ls[j].contains('{');
    if !((st && d == 0) || (ends_statement(ls[j]) && !st)) {
        if j + 1 < ls.len() {
            lemma_brace_block_end_bounds(ls, j + 1, d, st);
        } else {
            assert(brace_block_end(ls, j + 1, d, st) == ls.len());
        }
    }
}

/// The statement end lies after the line it is searched from, within the
/// lines.
pub proof fn lemma_statement_end_bounds(ls: Seq<Seq<char>>, j: int)
    requires
        0 <= j < ls.len(),
    ensures
        j < statement_end(ls, j) <= ls.len(),
    decreases ls.len() - j,
{
    if !ends_statement(ls[j]) {
        if j + 1 < ls.len() {
            lemma_statement_end_bounds(ls, j + 1);
        } else {
            assert(statement_end(ls, j + 1) == ls.len());
        }
    }
}

/// The total length of a list of lines grows by the length of each line
/// added at its end.
pub proof fn lemma_total_len_push(ls: Seq<Seq<char>>, a: int, b: int)
    requires
        0 <= a <= b < ls.len(),
    ensures
        total_len(ls.subrange(a, b + 1)) == total_len(ls.subrange(a, b)) + ls[b].len(),
{
    assert(ls.subrange(a, b + 1).drop_last() =~= ls.subrange(a, b));
}

// ============================================================================
// EXECUTABLE HELPERS
// ============================================================================

/// Opening minus closing braces in a line.
pub fn line_balance(l: &[char]) -> (r: i128)
    ensures
        r == balance(l@),
{
    let o = count(l, '{');
    let c = count(l, '}');
    o as i128 - c as i128
}

/// Whether a line, trimmed, ends with `;`.
pub fn line_ends_statement(l: &[char]) -> (b: bool)
    ensures
        b == ends_statement(l@),
{
    let t = trimmed(l);
    let semi: Vec<char> = vec![';'];
    proof {
        assert(semi@ =~= seq![';']);
    }
    ends_with(&t, &semi)
}

/// Appends some characters to `buf`.
pub fn push_chars(buf: &mut Vec<char>, l: &[char])
    ensures
        final(buf)@ == old(buf)@ + l@,
{
    let ghost b0 = buf@;
    let mut k: usize = 0;
    while k < l.len()
        invariant
            k <= l@.len(),
            buf@ == b0 + l@.subrange(0, k as int),
        decreases l.len() - k,
    {
        buf.push(l[k]);
        assert(l@.subrange(0, k + 1) =~= l@.subrange(0, k as int).push(l@[k as int]));
        k = k + 1;
    }
    assert(l@.subrange(0, l@.len() as int) =~= l@);
}

/// Appends a line and a newline to `buf`.
pub fn push_line(buf: &mut Vec<char>, l: &[char])
    ensures
        final(buf)@ == old(buf)@ + l@ + seq!['\n'],
{
    push_chars(buf, l);
    buf.push('\n');
}

/// The brace block of `ls` that starts at line `start`, with its end.
pub fn collect_brace_block(ls: &[Vec<char>], start: usize) -> (r: (Vec<char>, usize))
    requires
        start < ls@.len(),
        total_len(char_views(ls@)) <= usize::MAX,
    ensures
        r.1 == brace_block_end(char_views(ls@), start as int, 0, false),
        r.0@ == brace_block(char_views(ls@), start as int),
{
    let ghost v = char_views(ls@);
    let mut buf: Vec<char> = Vec::new();
    let mut depth: i128 = 0;
    let mut started = false;
    let mut j = start;
    proof {
        lemma_brace_block_end_bounds(v, start as int, 0, false);
        assert(v.subrange(start as int, start as int) =~= Seq::<Seq<char>>::empty());
    }
    let mut done = false;
    while j < ls.len() && !done
        invariant
            v == char_views(ls@),
            start <= j <= ls@.len(),
            total_len(v) <= usize::MAX,
            done ==> j == brace_block_end(v, start as int, 0, false),
            !done ==> brace_block_end(v, j as int, depth as int, started) == brace_block_end(v, start as int, 0, false),
            buf@ == lines_text(v.subrange(start as int, j as int)),
            -(total_len(v.subrange(start as int, j as int)) as int) <= depth
                <= total_len(v.subrange(start as int, j as int)),
        decreases ls.len() - j,
    {
        let line = ls[j].as_slice();
        proof {
            assert(v[j as int] == line@);
            lemma_balance_bound(line@);
            lemma_total_len_push(v, start as int, j as int);
            lemma_total_len_subrange(v, start as int, j + 1);
            assert(v.subrange(start as int, j + 1).drop_last() =~= v.subrange(start as int, j as int));
        }
        push_line(&mut buf, line);
        depth = depth + line_balance(line);
        if contains_char(line, '{') {
            started = true;
        }
        if started && depth == 0 {
            done = true;
        } else if line_ends_statement(line) && !started {
            done = true;
        }
        j = j + 1;
    }
    (trimmed_end(&buf), j)
}

/// The lines of `ls` from `start` through the first that ends with `;`,
/// with the end.
pub fn collect_statement(ls: &[Vec<char>], start: usize) -> (r: (Vec<char>, usize))
    requires
        start < ls@.len(),
    ensures
        r.1 == statement_end(char_views(ls@), start as int),
        r.0@ == statement_block(char_views(ls@), start as int),
{
    let ghost v = char_views(ls@);
    let mut buf: Vec<char> = Vec::new();
    let mut j = start;
    proof {
        assert(v.subrange(start as int, start as int) =~= Seq::<Seq<char>>::empty());
    }
    let mut done = false;
    while j < ls.len() && !done
        invariant
            v == char_views(ls@),
            start <= j <= ls@.len(),
            done ==> j == statement_end(v, start as int),
            !done ==> statement_end(v, j as int) == statement_end(v, start as int),
            buf@ == lines_text(v.subrange(start as int, j as int)),
        decreases ls.len() - j,
    {
        let line = ls[j].as_slice();
        proof {
            assert(v[j as int] == line@);
            assert(v.subrange(start as int, j + 1).drop_last() =~= v.subrange(start as int, j as int));
        }
        push_line(&mut buf, line);
        if line_ends_statement(line) {
            done = true;
        }
        j = j + 1;
    }
    (trimmed_end(&buf), j)
}

/// Moves a line index past a block of `n` lines (at least one), stopping at
/// `len`.
pub fn step_past(i: usize, n: usize, len: usize) -> (r: usize)
    requires
        i < len,
    ensures
        i < r <= len,
        r == skip_to(i as int, n as int, len as int),
{
    let a = if n < 1 { 1 } else { n };
    if a >= len - i {
        len
    } else {
        i + a
    }
}

} // verus!
