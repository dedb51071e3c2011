//! Stage extraction for TypeScript and JavaScript code.
//!
//! The types stage keeps imports, interfaces, type aliases, enums and
//! `as const` declarations; the stubs stage adds classes with their method
//! bodies stubbed, functions, and exported arrow functions, each throwing
//! a TODO error.
use vstd::prelude::*;
use crate::pipeline::blocks::{
    balance, brace_block, collect_brace_block, collect_statement, line_balance, push_line, skip_to,
    statement_block, step_past,
};
use crate::pipeline::incremental_pipeline::LanguageExtractor;
use crate::pipeline::sandbox_validator::Language;
use crate::text::{
    alphabetic, append, append_chars, char_views, chars_of, contains_char, contains_str, count,
    count_char, ends_with, find, first_occurrence, has_infix, has_prefix, has_suffix, is_alphabetic,
    lines, push_char, split_lines, starts_with_str, string_of_range, text_lines, total_len, trim,
    trim_end, trimmed, trimmed_end,
};

verus! {

broadcast use vstd::seq::group_seq_axioms;

// ============================================================================
// SPECIFICATIONS: TYPES
// ============================================================================

/// A trimmed line that opens an interface or an enum.
pub open spec fn ts_starts_braced_type(t: Seq<char>) -> bool {
    has_prefix(t, "interface "@) || has_prefix(t, "export interface "@) || has_prefix(t, "enum "@)
        || has_prefix(t, "export enum "@)
}

/// A trimmed line that opens a constant declaration.
pub open spec fn ts_starts_const(t: Seq<char>) -> bool {
    has_prefix(t, "const "@) || has_prefix(t, "export const "@)
}

/// A trimmed line that opens a type alias, or an `as const` declaration.
pub open spec fn ts_starts_alias(t: Seq<char>) -> bool {
    has_prefix(t, "type "@) || has_prefix(t, "export type "@) || (ts_starts_const(t) && has_infix(
        t,
        " as const"@,
    ))
}

/// Where a scan at line `i` goes after a block of text `b`: past as many
/// lines as `b` has newlines (at least one).
pub open spec fn ts_skip(i: int, b: Seq<char>, len: int) -> int {
    skip_to(i, count_char(b, '\n') as int, len)
}

/// The types stage of the lines from `i` on.
pub open spec fn ts_types_from(ls: Seq<Seq<char>>, i: int) -> Seq<char>
    decreases ls.len() - i,
{
    if i < 0 || i >= ls.len() {
        Seq::empty()
    } else {
        let t = trim(ls[i]);
        if has_prefix(t, "import "@) {
            let b = statement_block(ls, i);
            b + seq!['\n'] + ts_types_from(ls, ts_skip(i, b, ls.len() as int))
        } else if ts_starts_braced_type(t) {
            let b = brace_block(ls, i);
            b + seq!['\n', '\n'] + ts_types_from(ls, ts_skip(i, b, ls.len() as int))
        } else if ts_starts_alias(t) {
            let b = statement_block(ls, i);
            b + seq!['\n', '\n'] + ts_types_from(ls, ts_skip(i, b, ls.len() as int))
        } else {
            ts_types_from(ls, i + 1)
        }
    }
}

/// The types stage of TypeScript code.
pub open spec fn ts_types(code: Seq<char>) -> Seq<char> {
    ts_types_from(lines(code), 0)
}

// ============================================================================
// SPECIFICATIONS: STUBS
// ============================================================================

/// A trimmed line of a class that may begin a method: it has a `(` and
/// begins with a modifier, `constructor`, or a letter.
pub open spec fn ts_method_like(t: Seq<char>) -> bool {
    &&& t.contains('(')
    &&& {
        ||| has_prefix(t, "async "@)
        ||| has_prefix(t, "public "@)
        ||| has_prefix(t, "private "@)
        ||| has_prefix(t, "protected "@)
        ||| has_prefix(t, "static "@)
        ||| has_prefix(t, "constructor"@)
        ||| t.len() > 0 && alphabetic(t[0])
    }
}

/// A trimmed class line whose method body opens on it: method-like, not
/// ending with `,`, with no `:` and with a `{`.
pub open spec fn ts_opens_method(t: Seq<char>) -> bool {
    ts_method_like(t) && !has_suffix(t, seq![',']) && !t.contains(':') && t.contains('{')
}

/// A method signature line with its body replaced by a TODO error.
pub open spec fn ts_stub_method_line(line: Seq<char>) -> Seq<char> {
    match first_occurrence(line, seq!['{']) {
        Some(p) => line.subrange(0, p) + "{ throw new Error('TODO'); }\n"@,
        None => Seq::empty(),
    }
}

/// One line of stubbing a class; the state is whether a method body is
/// being skipped, its brace depth, and the output so far.
pub open spec fn ts_class_step(st: (bool, int, Seq<char>), line: Seq<char>) -> (bool, int, Seq<char>) {
    let t = trim(line);
    if !st.0 && ts_opens_method(t) {
        (true, 1, st.2 + ts_stub_method_line(line))
    } else if st.0 {
        let d = st.1 + balance(line);
        (d != 0, d, st.2)
    } else {
        (st.0, st.1, st.2 + line + seq!['\n'])
    }
}

/// The class-stubbing state after the first `n` lines.
pub open spec fn ts_class_state(ls: Seq<Seq<char>>, n: int) -> (bool, int, Seq<char>)
    decreases n,
{
    if n <= 0 || n > ls.len() {
        (false, 0, Seq::empty())
    } else {
        ts_class_step(ts_class_state(ls, n - 1), ls[n - 1])
    }
}

/// A class with each method body that opens on its signature line
/// replaced by a TODO error, trimmed at the end.
pub open spec fn ts_stub_class(block: Seq<char>) -> Seq<char> {
    trim_end(ts_class_state(lines(block), lines(block).len() as int).2)
}

/// A function with its body replaced by a TODO error.
pub open spec fn ts_stub_function(block: Seq<char>) -> Seq<char> {
    match first_occurrence(block, seq!['{']) {
        Some(p) => block.subrange(0, p) + "{ throw new Error('TODO'); }"@,
        None => block,
    }
}

/// An arrow function with its body replaced by a TODO error.
pub open spec fn ts_stub_arrow(block: Seq<char>) -> Seq<char> {
    match first_occurrence(block, "=>"@) {
        Some(p) => block.subrange(0, p + 2) + " { throw new Error('TODO'); };"@,
        None => block,
    }
}

/// A trimmed line that opens a class.
pub open spec fn ts_starts_class(t: Seq<char>) -> bool {
    has_prefix(t, "class "@) || has_prefix(t, "export class "@) || has_prefix(t, "abstract class "@)
        || has_prefix(t, "export abstract class "@)
}

/// A trimmed line that opens a function.
pub open spec fn ts_starts_function(t: Seq<char>) -> bool {
    has_prefix(t, "function "@) || has_prefix(t, "export function "@) || has_prefix(t, "async function "@)
        || has_prefix(t, "export async function "@)
}

/// The stubbed classes and functions from line `i` on.
pub open spec fn ts_stubs_from(ls: Seq<Seq<char>>, i: int) -> Seq<char>
    decreases ls.len() - i,
{
    if i < 0 || i >= ls.len() {
        Seq::empty()
    } else {
        let t = trim(ls[i]);
        let b = brace_block(ls, i);
        if ts_starts_class(t) {
            ts_stub_class(b) + seq!['\n', '\n'] + ts_stubs_from(ls, ts_skip(i, b, ls.len() as int))
        } else if ts_starts_function(t) {
            ts_stub_function(b) + seq!['\n', '\n'] + ts_stubs_from(ls, ts_skip(i, b, ls.len() as int))
        } else if ts_starts_const(t) && !has_infix(t, " as const"@) && has_infix(b, "=>"@) {
            ts_stub_arrow(b) + seq!['\n', '\n'] + ts_stubs_from(ls, ts_skip(i, b, ls.len() as int))
        } else {
            ts_stubs_from(ls, i + 1)
        }
    }
}

/// The stubs stage of TypeScript code: the types stage, then the stubbed
/// classes, functions and arrow functions.
pub open spec fn ts_stubs(code: Seq<char>) -> Seq<char> {
    ts_types(code) + ts_stubs_from(lines(code), 0)
}

// ============================================================================
// EXTRACTOR
// ============================================================================

/// TypeScript/JavaScript code extractor.
#[derive(Debug, Clone, Copy)]
pub struct TypeScriptExtractor;

/// Appends `v[from..to]` to `s`.
fn append_range(s: &mut String, v: &[char], from: usize, to: usize)
    requires
        from <= to <= v@.len(),
    ensures
        final(s)@ == old(s)@ + v@.subrange(from as int, to as int),
{
    let part = string_of_range(v, from, to);
    append(s, part.as_str());
}

impl TypeScriptExtractor {
    /// Extract Stage 1: Types and imports only (TypeScript).
    fn extract_types_impl(code: &str) -> (r: String)
        ensures
            r@ == ts_types(code@),
    {
        let ls = text_lines(code);
        let ghost v = char_views(ls@);
        let mut out = String::new();
        let mut i: usize = 0;
        while i < ls.len()
            invariant
                v == char_views(ls@),
                v == lines(code@),
                total_len(v) <= usize::MAX,
                i <= ls@.len(),
                out@ + ts_types_from(v, i as int) == ts_types(code@),
            decreases ls.len() - i,
        {
            let line = ls[i].as_slice();
            let t = trimmed(line);
            proof {
                assert(v[i as int] == line@);
            }
            let ghost before = out@;
            let braced = starts_with_str(&t, "interface ") || starts_with_str(&t, "export interface ")
                || starts_with_str(&t, "enum ") || starts_with_str(&t, "export enum ");
            let is_const = starts_with_str(&t, "const ") || starts_with_str(&t, "export const ");
            let alias = starts_with_str(&t, "type ") || starts_with_str(&t, "export type ") || (is_const
                && contains_str(&t, " as const"));
            if starts_with_str(&t, "import ") {
                let (block, _) = collect_statement(ls.as_slice(), i);
                append_chars(&mut out, &block);
                push_char(&mut out, '\n');
                let next = step_past(i, count(&block, '\n'), ls.len());
                assert(out@ + ts_types_from(v, next as int) =~= before + ts_types_from(v, i as int));
                i = next;
            } else if braced || alias {
                let block = if braced {
                    collect_brace_block(ls.as_slice(), i).0
                } else {
                    collect_statement(ls.as_slice(), i).0
                };
                append_chars(&mut out, &block);
                push_char(&mut out, '\n');
                push_char(&mut out, '\n');
                let next = step_past(i, count(&block, '\n'), ls.len());
                assert(out@ + ts_types_from(v, next as int) =~= before + ts_types_from(v, i as int));
                i = next;
            } else {
                i = i + 1;
            }
        }
        assert(out@ =~= ts_types(code@));
        out
    }

    /// One line of stubbing a class.
    fn class_step(st: (bool, i128, Vec<char>), line: &[char]) -> (r: (bool, i128, Vec<char>))
        requires
            -0x1_0000_0000_0000_0000 <= st.1 + balance(line@) <= 0x1_0000_0000_0000_0000,
        ensures
            (r.0, r.1 as int, r.2@) == ts_class_step((st.0, st.1 as int, st.2@), line@),
    {
        let (in_body, depth, mut out) = st;
        let t = trimmed(line);
        let comma: Vec<char> = vec![','];
        assert(comma@ =~= seq![',']);
        let letter = t.len() > 0 && is_alphabetic(t[0]);
        let method_like = contains_char(&t, '(') && (starts_with_str(&t, "async ") || starts_with_str(
            &t,
            "public ",
        ) || starts_with_str(&t, "private ") || starts_with_str(&t, "protected ") || starts_with_str(
            &t,
            "static ",
        ) || starts_with_str(&t, "constructor") || letter);
        let opens = method_like && !ends_with(&t, &comma) && !contains_char(&t, ':') && contains_char(&t, '{');
        if !in_body && opens {
            let brace: Vec<char> = vec!['{'];
            assert(brace@ =~= seq!['{']);
            let mut text = String::new();
            match find(line, &brace) {
                Some(p) => {
                    proof {
                        crate::text::lemma_first_occurrence_from(line@, brace@, 0);
                    }
                    append_range(&mut text, line, 0, p);
                    append(&mut text, "{ throw new Error('TODO'); }\n");
                },
                None => {},
            }
            let tc = chars_of(text.as_str());
            crate::pipeline::blocks::push_chars(&mut out, &tc);
            assert(tc@ =~= ts_stub_method_line(line@));
            (true, 1, out)
        } else if in_body {
            let d = depth + line_balance(line);
            (d != 0, d, out)
        } else {
            push_line(&mut out, line);
            (in_body, depth, out)
        }
    }

    /// A class with its method bodies stubbed.
    fn stub_class(class_block: &[char]) -> (r: Vec<char>)
        ensures
            r@ == ts_stub_class(class_block@),
    {
        let len = class_block.len();
        proof {
            crate::text::lemma_lines_total_len(class_block@);
            assert(class_block@.len() == len);
        }
        let ls = split_lines(class_block);
        let ghost v = char_views(ls@);
        let mut st: (bool, i128, Vec<char>) = (false, 0, Vec::new());
        let mut n: usize = 0;
        proof {
            assert(v.subrange(0, 0) =~= Seq::<Seq<char>>::empty());
        }
        while n < ls.len()
            invariant
                v == char_views(ls@),
                v == lines(class_block@),
                total_len(v) <= usize::MAX,
                n <= ls@.len(),
                (st.0, st.1 as int, st.2@) == ts_class_state(v, n as int),
                -(total_len(v.subrange(0, n as int)) as int) - 1 <= st.1 <= total_len(v.subrange(0, n as int)) + 1,
            decreases ls.len() - n,
        {
            let line = ls[n].as_slice();
            proof {
                assert(v[n as int] == line@);
                crate::pipeline::blocks::lemma_balance_bound(line@);
                crate::pipeline::blocks::lemma_total_len_push(v, 0, n as int);
                crate::text::lemma_total_len_subrange(v, 0, n + 1);
            }
            st = Self::class_step(st, line);
            n = n + 1;
        }
        trimmed_end(&st.2)
    }

    /// A function with its body stubbed.
    fn stub_function(fn_block: &[char]) -> (r: String)
        ensures
            r@ == ts_stub_function(fn_block@),
    {
        let brace: Vec<char> = vec!['{'];
        assert(brace@ =~= seq!['{']);
        let mut r = String::new();
        match find(fn_block, &brace) {
            Some(p) => {
                proof {
                    crate::text::lemma_first_occurrence_from(fn_block@, brace@, 0);
                }
                append_range(&mut r, fn_block, 0, p);
                append(&mut r, "{ throw new Error('TODO'); }");
            },
            None => {
                append_chars(&mut r, fn_block);
            },
        }
        r
    }

    /// An arrow function with its body stubbed.
    fn stub_arrow_function(arrow_block: &[char]) -> (r: String)
        ensures
            r@ == ts_stub_arrow(arrow_block@),
    {
        let arrow = chars_of("=>");
        let mut r = String::new();
        match find(arrow_block, &arrow) {
            Some(p) => {
                proof {
                    reveal_strlit("=>");
                    crate::text::lemma_first_occurrence_from(arrow_block@, arrow@, 0);
                    assert(arrow@.len() == 2);
                    assert(crate::text::occurs_at(arrow_block@, arrow@, p as int));
                    assert(arrow_block@.len() == arrow_block.len());
                }
                append_range(&mut r, arrow_block, 0, p + 2);
                append(&mut r, " { throw new Error('TODO'); };");
            },
            None => {
                append_chars(&mut r, arrow_block);
            },
        }
        r
    }

    /// Extract Stage 2: Types + function/class stubs (TypeScript).
    fn extract_stubs_impl(code: &str) -> (r: String)
        ensures
            r@ == ts_stubs(code@),
    {
        let mut out = Self::extract_types_impl(code);
        let ghost types = out@;
        let ls = text_lines(code);
        let ghost v = char_views(ls@);
        let mut i: usize = 0;
        while i < ls.len()
            invariant
                v == char_views(ls@),
                v == lines(code@),
                total_len(v) <= usize::MAX,
                i <= ls@.len(),
                types == ts_types(code@),
                out@ + ts_stubs_from(v, i as int) == types + ts_stubs_from(v, 0),
            decreases ls.len() - i,
        {
            let line = ls[i].as_slice();
            let t = trimmed(line);
            proof {
                assert(v[i as int] == line@);
            }
            let ghost before = out@;
            let class = starts_with_str(&t, "class ") || starts_with_str(&t, "export class ")
                || starts_with_str(&t, "abstract class ") || starts_with_str(&t, "export abstract class ");
            let function = starts_with_str(&t, "function ") || starts_with_str(&t, "export function ")
                || starts_with_str(&t, "async function ") || starts_with_str(&t, "export async function ");
            let arrow_candidate = (starts_with_str(&t, "export const ") || starts_with_str(&t, "const "))
                && !contains_str(&t, " as const");
            if class || function || arrow_candidate {
                let (block, _) = collect_brace_block(ls.as_slice(), i);
                if class {
                    let stubbed = Self::stub_class(&block);
                    append_chars(&mut out, &stubbed);
                } else if function {
                    let stubbed = Self::stub_function(&block);
                    append(&mut out, stubbed.as_str());
                } else if contains_str(&block, "=>") {
                    let stubbed = Self::stub_arrow_function(&block);
                    append(&mut out, stubbed.as_str());
                }
                if class || function || contains_str(&block, "=>") {
                    push_char(&mut out, '\n');
                    push_char(&mut out, '\n');
                    let next = step_past(i, count(&block, '\n'), ls.len());
                    assert(out@ + ts_stubs_from(v, next as int) =~= before + ts_stubs_from(v, i as int));
                    i = next;
                } else {
                    assert(out@ + ts_stubs_from(v, i + 1) =~= before + ts_stubs_from(v, i as int));
                    i = i + 1;
                }
            } else {
                assert(out@ + ts_stubs_from(v, i + 1) =~= before + ts_stubs_from(v, i as int));
                i = i + 1;
            }
        }
        assert(out@ =~= ts_stubs(code@));
        out
    }
}

impl LanguageExtractor for TypeScriptExtractor {
    open spec fn language_of(&self) -> Language {
        Language::TypeScript
    }

    open spec fn stub_body_of(&self) -> Seq<char> {
        "throw new Error('TODO');"@
    }

    open spec fn types_of(&self, code: Seq<char>) -> Seq<char> {
        ts_types(code)
    }

    open spec fn stubs_of(&self, code: Seq<char>) -> Seq<char> {
        ts_stubs(code)
    }

    fn language(&self) -> (r: Language) {
        Language::TypeScript
    }

    fn stub_body(&self) -> (r: &'static str) {
        "throw new Error('TODO');"
    }

    fn extract_types(&self, code: &str) -> (r: String) {
        TypeScriptExtractor::extract_types_impl(code)
    }

    fn extract_stubs(&self, code: &str) -> (r: String) {
        TypeScriptExtractor::extract_stubs_impl(code)
    }
}

} // verus!
