//! Stage extraction for Rust code.
//!
//! The types stage keeps imports, module docs and complete type definitions
//! (with their derive and repr attributes); the stubs stage adds every impl
//! block with each function body replaced by `todo!()`.
use vstd::prelude::*;
use crate::pipeline::blocks::{
    skip_to, balance, brace_block, collect_brace_block, lemma_balance_bound, line_balance, push_line,
    step_past,
};
use crate::pipeline::incremental_pipeline::{stage_text, LanguageExtractor, Stage};
use crate::pipeline::sandbox_validator::Language;
use crate::text::{
    append, append_chars, char_views, chars_of, contains_char, find, first_occurrence, has_prefix,
    lemma_lines_total_len, lines, push_char, split_lines, starts_with_str, text_lines, to_owned, total_len,
    trim, trimmed,
};

verus! {

broadcast use vstd::seq::group_seq_axioms;

// ============================================================================
// SPECIFICATIONS
// ============================================================================

/// A trimmed line that the types stage keeps as it is: an import or a
/// module doc line.
pub open spec fn rust_keeps_line(t: Seq<char>) -> bool {
    has_prefix(t, "use "@) || has_prefix(t, "pub use "@) || has_prefix(t, "//!"@)
}

/// A trimmed line that begins a type definition, or the attribute before
/// one.
pub open spec fn rust_starts_type(t: Seq<char>) -> bool {
    ||| has_prefix(t, "#[derive"@)
    ||| has_prefix(t, "#[repr"@)
    ||| has_prefix(t, "pub struct "@)
    ||| has_prefix(t, "struct "@)
    ||| has_prefix(t, "pub enum "@)
    ||| has_prefix(t, "enum "@)
    ||| has_prefix(t, "pub type "@)
    ||| has_prefix(t, "type "@)
}

/// The types stage of the lines from `i` on.
pub open spec fn rust_types_from(ls: Seq<Seq<char>>, i: int) -> Seq<char>
    decreases ls.len() - i,
{
    if i < 0 || i >= ls.len() {
        Seq::empty()
    } else if rust_keeps_line(trim(ls[i])) {
        ls[i] + seq!['\n'] + rust_types_from(ls, i + 1)
    } else if rust_starts_type(trim(ls[i])) {
        let b = brace_block(ls, i);
        b + seq!['\n', '\n'] + rust_types_from(ls, skip_to(i, lines(b).len() as int, ls.len() as int))
    } else {
        rust_types_from(ls, i + 1)
    }
}

/// The types stage of Rust code: its imports, module docs and type
/// definitions, in order.
pub open spec fn rust_types(code: Seq<char>) -> Seq<char> {
    rust_types_from(lines(code), 0)
}

/// A trimmed line that begins a function.
pub open spec fn rust_starts_fn(t: Seq<char>) -> bool {
    has_prefix(t, "pub fn "@) || has_prefix(t, "pub async fn "@) || has_prefix(t, "fn "@)
        || has_prefix(t, "async fn "@)
}

/// A function signature line with its body replaced by `todo!()`: the line
/// up to its first `{`.
pub open spec fn rust_stub_line(line: Seq<char>) -> Seq<char> {
    match first_occurrence(line, seq!['{']) {
        Some(p) => line.subrange(0, p) + "{ todo!() }\n"@,
        None => Seq::empty(),
    }
}

/// One line of stubbing an impl block; the state is whether a function
/// body is being skipped, its brace depth, and the output so far. A
/// signature line whose braces balance holds its whole body: it is stubbed
/// and nothing after it is skipped.
pub open spec fn rust_stub_step(st: (bool, int, Seq<char>), line: Seq<char>) -> (bool, int, Seq<char>) {
    let t = trim(line);
    if !st.0 && rust_starts_fn(t) {
        if t.contains('{') {
            (balance(line) != 0, if balance(line) != 0 { 1 } else { st.1 }, st.2 + rust_stub_line(line))
        } else {
            (st.0, st.1, st.2 + line + seq!['\n'])
        }
    } else if st.0 {
        let d = st.1 + balance(line);
        (d != 0, d, st.2)
    } else {
        (st.0, st.1, st.2 + line + seq!['\n'])
    }
}

/// The stubbing state after the first `n` lines.
pub open spec fn rust_stub_state(ls: Seq<Seq<char>>, n: int) -> (bool, int, Seq<char>)
    decreases n,
{
    if n <= 0 || n > ls.len() {
        (false, 0, Seq::empty())
    } else {
        rust_stub_step(rust_stub_state(ls, n - 1), ls[n - 1])
    }
}

/// An impl block with every function body that opens on its signature
/// line replaced by `todo!()`; other lines are kept.
pub open spec fn rust_stub_impl(block: Seq<char>) -> Seq<char> {
    rust_stub_state(lines(block), lines(block).len() as int).2
}

/// One line of collecting impl blocks; the state is whether an impl block
/// is open, its brace depth, its text so far, and the stubbed blocks so far.
pub open spec fn rust_impl_step(st: (bool, int, Seq<char>, Seq<char>), line: Seq<char>) -> (
    bool,
    int,
    Seq<char>,
    Seq<char>,
) {
    if has_prefix(trim(line), "impl "@) && !st.0 {
        (true, balance(line), line + seq!['\n'], st.3)
    } else if st.0 {
        let d = st.1 + balance(line);
        let c = st.2 + line + seq!['\n'];
        if d == 0 {
            (false, d, c, st.3 + rust_stub_impl(c) + seq!['\n', '\n'])
        } else {
            (true, d, c, st.3)
        }
    } else {
        st
    }
}

/// The impl-collecting state after the first `n` lines.
pub open spec fn rust_impl_state(ls: Seq<Seq<char>>, n: int) -> (bool, int, Seq<char>, Seq<char>)
    decreases n,
{
    if n <= 0 || n > ls.len() {
        (false, 0, Seq::empty(), Seq::empty())
    } else {
        rust_impl_step(rust_impl_state(ls, n - 1), ls[n - 1])
    }
}

/// The stubs stage of Rust code: the types stage, then each impl block
/// with its function bodies stubbed.
pub open spec fn rust_stubs(code: Seq<char>) -> Seq<char> {
    rust_types(code) + rust_impl_state(lines(code), lines(code).len() as int).3
}

// ============================================================================
// EXTRACTOR
// ============================================================================

/// Rust-specific code extractor.
#[derive(Debug, Clone, Copy)]
pub struct RustExtractor;

/// The former name of the Rust extractor.
pub type CodeExtractor = RustExtractor;

impl RustExtractor {
    /// Extract Stage 1: Types and imports only (Rust).
    pub fn extract_types(code: &str) -> (r: String)
        ensures
            r@ == rust_types(code@),
    {
        let ls = text_lines(code);
        let ghost v = char_views(ls@);
        let mut out = String::new();
        let mut i: usize = 0;
        while i < ls.len()
            invariant
                v == char_views(ls@),
                v == lines(code@),
                total_len(v) <= usize::MAX,
                i <= ls@.len(),
                out@ + rust_types_from(v, i as int) == rust_types(code@),
            decreases ls.len() - i,
        {
            let line = ls[i].as_slice();
            let t = trimmed(line);
            proof {
                assert(v[i as int] == line@);
            }
            let ghost before = out@;
            if starts_with_str(&t, "use ") || starts_with_str(&t, "pub use ") || starts_with_str(&t, "//!") {
                append_chars(&mut out, line);
                push_char(&mut out, '\n');
                assert(out@ + rust_types_from(v, i + 1) =~= before + rust_types_from(v, i as int));
                i = i + 1;
            } else if starts_with_str(&t, "#[derive") || starts_with_str(&t, "#[repr") || starts_with_str(
                &t,
                "pub struct ",
            ) || starts_with_str(&t, "struct ") || starts_with_str(&t, "pub enum ") || starts_with_str(
                &t,
                "enum ",
            ) || starts_with_str(&t, "pub type ") || starts_with_str(&t, "type ") {
                let (block, _) = collect_brace_block(ls.as_slice(), i);
                append_chars(&mut out, &block);
                push_char(&mut out, '\n');
                push_char(&mut out, '\n');
                let n = split_lines(&block).len();
                let next = step_past(i, n, ls.len());
                proof {
                    assert(out@ + rust_types_from(v, next as int) =~= before + rust_types_from(
                        v,
                        i as int,
                    ));
                }
                i = next;
            } else {
                i = i + 1;
            }
        }
        assert(out@ =~= rust_types(code@));
        out
    }

    /// Extract Stage 2: Types + function stubs (Rust).
    pub fn extract_stubs(code: &str) -> (r: String)
        ensures
            r@ == rust_stubs(code@),
    {
        let types = Self::extract_types(code);
        let ls = text_lines(code);
        let ghost v = char_views(ls@);
        let mut out = String::new();
        let mut in_impl = false;
        let mut depth: i128 = 0;
        let mut current: Vec<char> = Vec::new();
        let mut n: usize = 0;
        proof {
            assert(v.subrange(0, 0) =~= Seq::<Seq<char>>::empty());
            assert(out@ =~= Seq::<char>::empty());
            assert(current@ =~= Seq::<char>::empty());
        }
        while n < ls.len()
            invariant
                v == char_views(ls@),
                v == lines(code@),
                total_len(v) <= usize::MAX,
                n <= ls@.len(),
                (in_impl, depth as int, current@, out@) == rust_impl_state(v, n as int),
                -(total_len(v.subrange(0, n as int)) as int) <= depth <= total_len(v.subrange(0, n as int)),
            decreases ls.len() - n,
        {
            let line = ls[n].as_slice();
            proof {
                assert(v[n as int] == line@);
                lemma_balance_bound(line@);
                crate::pipeline::blocks::lemma_total_len_push(v, 0, n as int);
                crate::text::lemma_total_len_subrange(v, 0, n + 1);
            }
            let t = trimmed(line);
            if starts_with_str(&t, "impl ") && !in_impl {
                in_impl = true;
                current = Vec::new();
                push_line(&mut current, line);
                depth = line_balance(line);
            } else if in_impl {
                depth = depth + line_balance(line);
                push_line(&mut current, line);
                if depth == 0 {
                    let stubbed = Self::stub_impl_block(&current);
                    append_chars(&mut out, &stubbed);
                    push_char(&mut out, '\n');
                    push_char(&mut out, '\n');
                    in_impl = false;
                }
            }
            proof {
                assert(rust_impl_state(v, n + 1) == rust_impl_step(rust_impl_state(v, n as int), v[n as int]));
            }
            n = n + 1;
        }
        let mut r = types;
        append(&mut r, out.as_str());
        r
    }

    /// Extract Stage 3: Full code (no changes).
    pub fn extract_logic(code: &str) -> (r: String)
        ensures
            r@ == code@,
    {
        to_owned(code)
    }

    /// Get code for a specific stage.
    pub fn for_stage(stage: Stage, code: &str) -> (r: String)
        ensures
            r@ == stage_text(stage, rust_types(code@), rust_stubs(code@), code@),
    {
        match stage {
            Stage::Types => Self::extract_types(code),
            Stage::Stubs => Self::extract_stubs(code),
            Stage::Logic => Self::extract_logic(code),
        }
    }

    /// One line of stubbing an impl block.
    fn stub_step(st: (bool, i128, Vec<char>), line: &[char]) -> (r: (bool, i128, Vec<char>))
        requires
            -0x1_0000_0000_0000_0000 <= st.1 + balance(line@) <= 0x1_0000_0000_0000_0000,
        ensures
            (r.0, r.1 as int, r.2@) == rust_stub_step((st.0, st.1 as int, st.2@), line@),
    {
        let (in_fn, depth, mut out) = st;
        let t = trimmed(line);
        let starts = starts_with_str(&t, "pub fn ") || starts_with_str(&t, "pub async fn ")
            || starts_with_str(&t, "fn ") || starts_with_str(&t, "async fn ");
        if !in_fn && starts {
            if contains_char(&t, '{') {
                let brace: Vec<char> = vec!['{'];
                assert(brace@ =~= seq!['{']);
                match find(line, &brace) {
                    Some(p) => {
                        let mut k: usize = 0;
                        let ghost o0 = out@;
                        proof {
                            crate::text::lemma_first_occurrence_from(line@, brace@, 0);
                        }
                        while k < p
                            invariant
                                k <= p <= line@.len(),
                                out@ == o0 + line@.subrange(0, k as int),
                            decreases p - k,
                        {
                            out.push(line[k]);
                            assert(line@.subrange(0, k + 1) =~= line@.subrange(0, k as int).push(line@[k as int]));
                            k = k + 1;
                        }
                        let tail = chars_of("{ todo!() }\n");
                        let ghost o1 = out@;
                        let mut q: usize = 0;
                        while q < tail.len()
                            invariant
                                q <= tail@.len(),
                                out@ == o1 + tail@.subrange(0, q as int),
                            decreases tail.len() - q,
                        {
                            out.push(tail[q]);
                            assert(tail@.subrange(0, q + 1) =~= tail@.subrange(0, q as int).push(tail@[q as int]));
                            q = q + 1;
                        }
                        assert(tail@.subrange(0, tail@.len() as int) =~= tail@);
                        assert(out@ =~= o0 + rust_stub_line(line@));
                    },
                    None => {
                        assert(out@ =~= out@ + rust_stub_line(line@));
                    },
                }
                if line_balance(line) != 0 {
                    (true, 1, out)
                } else {
                    (false, depth, out)
                }
            } else {
                push_line(&mut out, line);
                (in_fn, depth, out)
            }
        } else if in_fn {
            let d = depth + line_balance(line);
            (d != 0, d, out)
        } else {
            push_line(&mut out, line);
            (in_fn, depth, out)
        }
    }

    /// Convert an impl block to use stub function bodies.
    fn stub_impl_block(impl_block: &[char]) -> (r: Vec<char>)
        ensures
            r@ == rust_stub_impl(impl_block@),
    {
        let len = impl_block.len();
        proof {
            lemma_lines_total_len(impl_block@);
            assert(impl_block@.len() == len);
        }
        let ls = split_lines(impl_block);
        let ghost v = char_views(ls@);
        let mut st: (bool, i128, Vec<char>) = (false, 0, Vec::new());
        let mut n: usize = 0;
        proof {
            assert(v.subrange(0, 0) =~= Seq::<Seq<char>>::empty());
        }
        while n < ls.len()
            invariant
                v == char_views(ls@),
                v == lines(impl_block@),
                total_len(v) <= usize::MAX,
                n <= ls@.len(),
                (st.0, st.1 as int, st.2@) == rust_stub_state(v, n as int),
                -(total_len(v.subrange(0, n as int)) as int) - 1 <= st.1 <= total_len(v.subrange(0, n as int)) + 1,
            decreases ls.len() - n,
        {
            let line = ls[n].as_slice();
            proof {
                assert(v[n as int] == line@);
                lemma_balance_bound(line@);
                crate::pipeline::blocks::lemma_total_len_push(v, 0, n as int);
                crate::text::lemma_total_len_subrange(v, 0, n + 1);
            }
            st = Self::stub_step(st, line);
            n = n + 1;
        }
        assert(v.len() == lines(impl_block@).len());
        st.2
    }
}

impl LanguageExtractor for RustExtractor {
    open spec fn language_of(&self) -> Language {
        Language::Rust
    }

    open spec fn stub_body_of(&self) -> Seq<char> {
        "todo!()"@
    }

    open spec fn types_of(&self, code: Seq<char>) -> Seq<char> {
        rust_types(code)
    }

    open spec fn stubs_of(&self, code: Seq<char>) -> Seq<char> {
        rust_stubs(code)
    }

    fn language(&self) -> (r: Language) {
        Language::Rust
    }

    fn stub_body(&self) -> (r: &'static str) {
        "todo!()"
    }

    fn extract_types(&self, code: &str) -> (r: String) {
        RustExtractor::extract_types(code)
    }

    fn extract_stubs(&self, code: &str) -> (r: String) {
        RustExtractor::extract_stubs(code)
    }
}

} // verus!

verus! {

// ============================================================================
// LAW: TYPE DEFINITIONS OPEN THE TYPES STAGE
// ============================================================================

/// A prefix fixes the characters it covers.
proof fn lemma_prefix_char(t: Seq<char>, p: Seq<char>, k: int)
    requires
        has_prefix(t, p),
        0 <= k < p.len(),
    ensures
        t[k] == p[k],
{
    assert(t.subrange(0, p.len() as int)[k] == t[k]);
}

/// A prefix of a text is a prefix of any longer text it begins.
proof fn lemma_prefix_concat(a: Seq<char>, c: Seq<char>, p: Seq<char>)
    requires
        has_prefix(a, p),
    ensures
        has_prefix(a + c, p),
{
    assert((a + c).subrange(0, p.len() as int) =~= a.subrange(0, p.len() as int));
}

/// Trailing white space of a concatenation: all of the second part and
/// the first part's when the second is all white, else the second's.
proof fn lemma_trail_white_concat(a: Seq<char>, b: Seq<char>)
    ensures
        crate::text::trail_white(a + b) == if crate::text::trail_white(b) == b.len() {
            b.len() + crate::text::trail_white(a)
        } else {
            crate::text::trail_white(b)
        },
    decreases b.len(),
{
    if b.len() == 0 {
        assert(a + b =~= a);
    } else {
        assert((a + b).drop_last() =~= a + b.drop_last());
        assert((a + b).last() == b.last());
        lemma_trail_white_concat(a, b.drop_last());
        crate::text::lemma_trail_white_bound(b.drop_last());
    }
}

/// Trimming the end keeps prefixes trimmed.
proof fn lemma_trim_end_prefix(s: Seq<char>, p: Seq<char>)
    requires
        has_prefix(s, p),
    ensures
        has_prefix(crate::text::trim_end(s), crate::text::trim_end(p)),
{
    let b = s.skip(p.len() as int);
    assert(s =~= p + b);
    lemma_trail_white_concat(p, b);
    crate::text::lemma_trail_white_bound(p);
    crate::text::lemma_trail_white_bound(b);
    let tp = crate::text::trim_end(p);
    let ts = crate::text::trim_end(s);
    assert(ts.subrange(0, tp.len() as int) =~= tp);
}

/// The text of some lines begins with the first line.
proof fn lemma_lines_text_prefix(ls: Seq<Seq<char>>)
    requires
        ls.len() > 0,
    ensures
        has_prefix(crate::pipeline::blocks::lines_text(ls), ls[0]),
    decreases ls.len(),
{
    if ls.len() == 1 {
        assert(crate::pipeline::blocks::lines_text(ls.drop_last()) =~= Seq::<char>::empty());
        assert(ls[0].subrange(0, ls[0].len() as int) =~= ls[0]);
        lemma_prefix_concat(ls[0], seq!['\n'], ls[0]);
        assert(crate::pipeline::blocks::lines_text(ls) =~= ls[0] + seq!['\n']);
    } else {
        lemma_lines_text_prefix(ls.drop_last());
        assert(ls.drop_last()[0] == ls[0]);
        lemma_prefix_concat(
            crate::pipeline::blocks::lines_text(ls.drop_last()),
            ls.last() + seq!['\n'],
            ls[0],
        );
        assert(crate::pipeline::blocks::lines_text(ls) =~= crate::pipeline::blocks::lines_text(ls.drop_last()) + (
        ls.last() + seq!['\n']));
    }
}

/// A brace block that starts at a line takes at least that line.
proof fn lemma_block_end_after(ls: Seq<Seq<char>>, j: int, depth: int, started: bool)
    requires
        0 <= j < ls.len(),
    ensures
        j < crate::pipeline::blocks::brace_block_end(ls, j, depth, started) <= ls.len(),
    decreases ls.len() - j,
{
    let d = depth + balance(ls[j]);
    let st = started || ls[j].contains('{');
    if !((st && d == 0) || (crate::pipeline::blocks::ends_statement(ls[j]) && !st)) {
        if j + 1 < ls.len() {
            lemma_block_end_after(ls, j + 1, d, st);
        } else {
            assert(crate::pipeline::blocks::brace_block_end(ls, j + 1, d, st) == ls.len());
        }
    }
}

/// A type definition at the top of some code opens its types stage: when
/// the first line, trimmed, begins with `#[derive`, `#[repr`, `pub struct `,
/// `struct `, `pub enum `, `enum `, `pub type ` or `type `, the types
/// stage begins with that line (without trailing white space).
pub proof fn lemma_leading_type_kept(code: Seq<char>)
    requires
        lines(code).len() > 0,
        ({
            let t = trim(lines(code)[0]);
            ||| has_prefix(t, "#[derive"@)
            ||| has_prefix(t, "#[repr"@)
            ||| has_prefix(t, "pub struct "@)
            ||| has_prefix(t, "struct "@)
            ||| has_prefix(t, "pub enum "@)
            ||| has_prefix(t, "enum "@)
            ||| has_prefix(t, "pub type "@)
            ||| has_prefix(t, "type "@)
        }),
    ensures
        has_prefix(rust_types(code), crate::text::trim_end(lines(code)[0])),
{
    let ls = lines(code);
    let t = trim(ls[0]);
    reveal_strlit("#[derive");
    reveal_strlit("#[repr");
    reveal_strlit("pub struct ");
    reveal_strlit("struct ");
    reveal_strlit("pub enum ");
    reveal_strlit("enum ");
    reveal_strlit("pub type ");
    reveal_strlit("type ");
    reveal_strlit("use ");
    reveal_strlit("pub use ");
    reveal_strlit("//!");
    let kw = if has_prefix(t, "#[derive"@) {
        "#[derive"@
    } else if has_prefix(t, "#[repr"@) {
        "#[repr"@
    } else if has_prefix(t, "pub struct "@) {
        "pub struct "@
    } else if has_prefix(t, "struct "@) {
        "struct "@
    } else if has_prefix(t, "pub enum "@) {
        "pub enum "@
    } else if has_prefix(t, "enum "@) {
        "enum "@
    } else if has_prefix(t, "pub type "@) {
        "pub type "@
    } else {
        "type "@
    };
    lemma_prefix_char(t, kw, 0);
    lemma_prefix_char(t, kw, 4);
    assert(!rust_keeps_line(t)) by {
        if has_prefix(t, "use "@) {
            lemma_prefix_char(t, "use "@, 0);
        }
        if has_prefix(t, "pub use "@) {
            lemma_prefix_char(t, "pub use "@, 4);
        }
        if has_prefix(t, "//!"@) {
            lemma_prefix_char(t, "//!"@, 0);
        }
    }
    assert(rust_starts_type(t));
    let e = crate::pipeline::blocks::brace_block_end(ls, 0, 0, false);
    lemma_block_end_after(ls, 0, 0, false);
    let sub = ls.subrange(0, e);
    lemma_lines_text_prefix(sub);
    assert(sub[0] == ls[0]);
    lemma_trim_end_prefix(crate::pipeline::blocks::lines_text(sub), ls[0]);
    let b = brace_block(ls, 0);
    let rest = seq!['\n', '\n'] + rust_types_from(ls, skip_to(0, lines(b).len() as int, ls.len() as int));
    assert(rust_types(code) == b + seq!['\n', '\n'] + rust_types_from(
        ls,
        skip_to(0, lines(b).len() as int, ls.len() as int),
    ));
    lemma_prefix_concat(b, rest, crate::text::trim_end(ls[0]));
    assert(b + rest =~= b + seq!['\n', '\n'] + rust_types_from(ls, skip_to(0, lines(b).len() as int, ls.len() as int)));
}

} // verus!
