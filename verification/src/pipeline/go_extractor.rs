//! Stage extraction for Go code.
//!
//! The types stage keeps the package clause, imports, type definitions and
//! const and var declarations; the stubs stage adds every function with its
//! body replaced by a panic.
use vstd::prelude::*;
use crate::pipeline::blocks::{brace_block, collect_brace_block, skip_to, step_past};
use crate::pipeline::incremental_pipeline::LanguageExtractor;
use crate::pipeline::sandbox_validator::Language;
use crate::text::{
    append, append_chars, char_views, contains_char, count, count_char, find, first_occurrence,
    has_prefix, lines, push_char, starts_with_str, string_of_range, text_lines, total_len, trim,
    trimmed,
};

verus! {

broadcast use vstd::seq::group_seq_axioms;

// ============================================================================
// SPECIFICATIONS
// ============================================================================

/// A trimmed line that opens a declaration that may span a parenthesised
/// group: an import, const or var declaration.
pub open spec fn go_starts_group(t: Seq<char>) -> bool {
    has_prefix(t, "import "@) || has_prefix(t, "const "@) || has_prefix(t, "var "@)
}

/// The types stage of the lines from `i` on.
pub open spec fn go_types_from(ls: Seq<Seq<char>>, i: int) -> Seq<char>
    decreases ls.len() - i,
{
    if i < 0 || i >= ls.len() {
        Seq::empty()
    } else {
        let t = trim(ls[i]);
        if has_prefix(t, "package "@) {
            ls[i] + seq!['\n', '\n'] + go_types_from(ls, i + 1)
        } else if go_starts_group(t) && !t.contains('(') {
            ls[i] + seq!['\n'] + go_types_from(ls, i + 1)
        } else if go_starts_group(t) || has_prefix(t, "type "@) {
            let b = brace_block(ls, i);
            b + seq!['\n', '\n'] + go_types_from(ls, skip_to(i, count_char(b, '\n') as int, ls.len() as int))
        } else {
            go_types_from(ls, i + 1)
        }
    }
}

/// The types stage of Go code.
pub open spec fn go_types(code: Seq<char>) -> Seq<char> {
    go_types_from(lines(code), 0)
}

/// A function block with its body replaced by a panic: the block up to its
/// first `{`, or the whole block when it has none.
pub open spec fn go_stub_block(b: Seq<char>) -> Seq<char> {
    match first_occurrence(b, seq!['{']) {
        Some(p) => b.subrange(0, p) + "{\n\tpanic(\"TODO\")\n}\n\n"@,
        None => b + seq!['\n', '\n'],
    }
}

/// The function stubs of the lines from `i` on.
pub open spec fn go_stubs_from(ls: Seq<Seq<char>>, i: int) -> Seq<char>
    decreases ls.len() - i,
{
    if i < 0 || i >= ls.len() {
        Seq::empty()
    } else if has_prefix(trim(ls[i]), "func "@) {
        let b = brace_block(ls, i);
        go_stub_block(b) + go_stubs_from(ls, skip_to(i, count_char(b, '\n') as int, ls.len() as int))
    } else {
        go_stubs_from(ls, i + 1)
    }
}

/// The stubs stage of Go code: the types stage, then each function stubbed.
pub open spec fn go_stubs(code: Seq<char>) -> Seq<char> {
    go_types(code) + go_stubs_from(lines(code), 0)
}

// ============================================================================
// EXTRACTOR
// ============================================================================

/// Go code extractor.
#[derive(Debug, Clone, Copy)]
pub struct GoExtractor;

impl GoExtractor {
    /// Extract Stage 1: Package, imports, and type definitions (Go).
    fn extract_types_impl(code: &str) -> (r: String)
        ensures
            r@ == go_types(code@),
    {
        let ls = text_lines(code);
        let ghost v = char_views(ls@);
        let mut out = String::new();
        let mut i: usize = 0;
        while i < ls.len()
            invariant
                v == char_views(ls@),
                v == lines(code@),
                total_len(v) <= usize::MAX,
                i <= ls@.len(),
                out@ + go_types_from(v, i as int) == go_types(code@),
            decreases ls.len() - i,
        {
            let line = ls[i].as_slice();
            let t = trimmed(line);
            proof {
                assert(v[i as int] == line@);
            }
            let ghost before = out@;
            let group = starts_with_str(&t, "import ") || starts_with_str(&t, "const ") || starts_with_str(
                &t,
                "var ",
            );
            if starts_with_str(&t, "package ") {
                append_chars(&mut out, line);
                push_char(&mut out, '\n');
                push_char(&mut out, '\n');
                assert(out@ + go_types_from(v, i + 1) =~= before + go_types_from(v, i as int));
                i = i + 1;
            } else if group && !contains_char(&t, '(') {
                append_chars(&mut out, line);
                push_char(&mut out, '\n');
                assert(out@ + go_types_from(v, i + 1) =~= before + go_types_from(v, i as int));
                i = i + 1;
            } else if group || starts_with_str(&t, "type ") {
                let (block, _) = collect_brace_block(ls.as_slice(), i);
                append_chars(&mut out, &block);
                push_char(&mut out, '\n');
                push_char(&mut out, '\n');
                let next = step_past(i, count(&block, '\n'), ls.len());
                assert(out@ + go_types_from(v, next as int) =~= before + go_types_from(v, i as int));
                i = next;
            } else {
                i = i + 1;
            }
        }
        assert(out@ =~= go_types(code@));
        out
    }

    /// Extract Stage 2: Types + function stubs (Go).
    fn extract_stubs_impl(code: &str) -> (r: String)
        ensures
            r@ == go_stubs(code@),
    {
        let mut out = Self::extract_types_impl(code);
        let ghost types = out@;
        let ls = text_lines(code);
        let ghost v = char_views(ls@);
        let mut i: usize = 0;
        while i < ls.len()
            invariant
                v == char_views(ls@),
                v == lines(code@),
                total_len(v) <= usize::MAX,
                i <= ls@.len(),
                types == go_types(code@),
                out@ + go_stubs_from(v, i as int) == types + go_stubs_from(v, 0),
            decreases ls.len() - i,
        {
            let line = ls[i].as_slice();
            let t = trimmed(line);
            proof {
                assert(v[i as int] == line@);
            }
            let ghost before = out@;
            if starts_with_str(&t, "func ") {
                let (block, _) = collect_brace_block(ls.as_slice(), i);
                let brace: Vec<char> = vec!['{'];
                assert(brace@ =~= seq!['{']);
                match find(&block, &brace) {
                    Some(p) => {
                        proof {
                            crate::text::lemma_first_occurrence_from(block@, brace@, 0);
                        }
                        let sig = string_of_range(&block, 0, p);
                        append(&mut out, sig.as_str());
                        append(&mut out, "{\n\tpanic(\"TODO\")\n}\n\n");
                    },
                    None => {
                        append_chars(&mut out, &block);
                        push_char(&mut out, '\n');
                        push_char(&mut out, '\n');
                    },
                }
                let next = step_past(i, count(&block, '\n'), ls.len());
                assert(out@ + go_stubs_from(v, next as int) =~= before + go_stubs_from(v, i as int));
                i = next;
            } else {
                i = i + 1;
            }
        }
        assert(out@ =~= go_stubs(code@));
        out
    }
}

impl LanguageExtractor for GoExtractor {
    open spec fn language_of(&self) -> Language {
        Language::Go
    }

    open spec fn stub_body_of(&self) -> Seq<char> {
        "panic(\"TODO\")"@
    }

    open spec fn types_of(&self, code: Seq<char>) -> Seq<char> {
        go_types(code)
    }

    open spec fn stubs_of(&self, code: Seq<char>) -> Seq<char> {
        go_stubs(code)
    }

    fn language(&self) -> (r: Language) {
        Language::Go
    }

    fn stub_body(&self) -> (r: &'static str) {
        "panic(\"TODO\")"
    }

    fn extract_types(&self, code: &str) -> (r: String) {
        GoExtractor::extract_types_impl(code)
    }

    fn extract_stubs(&self, code: &str) -> (r: String) {
        GoExtractor::extract_stubs_impl(code)
    }
}

} // verus!
