//! Stage extraction for Python code.
//!
//! The types stage keeps imports, type aliases, dataclass decorators and
//! the header lines of type-like classes; the stubs stage adds each other
//! class header and every function with its body replaced by
//! `raise NotImplementedError()`.
use vstd::prelude::*;
use crate::pipeline::incremental_pipeline::LanguageExtractor;
use crate::pipeline::sandbox_validator::Language;
use crate::text::{
    lemma_encode_utf8_concat, utf8_width,
    append, append_chars, char_views, contains_char, contains_str, has_infix, has_prefix, lead_white,
    lines, push_char, repeat, repeat_char, starts_with_str, string_of, text_lines, trim, trim_start,
    trimmed, trimmed_start,
};

verus! {

broadcast use vstd::seq::group_seq_axioms;

// ============================================================================
// SPECIFICATIONS
// ============================================================================

/// A trimmed line that the types stage keeps: an import, a type alias, a
/// dataclass decorator, or the header of a type-like class.
pub open spec fn py_type_line(t: Seq<char>) -> bool {
    ||| has_prefix(t, "import "@)
    ||| has_prefix(t, "from "@)
    ||| has_prefix(t, "type "@)
    ||| has_infix(t, ": TypeAlias"@)
    ||| has_prefix(t, "@dataclass"@)
    ||| has_prefix(t, "@dataclasses.dataclass"@)
    ||| has_prefix(t, "class "@) && (has_infix(t, "TypedDict"@) || has_infix(t, "Protocol"@) || has_infix(
        t,
        "Enum"@,
    ) || has_infix(t, "NamedTuple"@))
}

/// The kept lines from `i` on, each followed by a newline.
pub open spec fn py_types_from(ls: Seq<Seq<char>>, i: int) -> Seq<char>
    decreases ls.len() - i,
{
    if i < 0 || i >= ls.len() {
        Seq::empty()
    } else {
        (if py_type_line(trim(ls[i])) {
            ls[i] + seq!['\n']
        } else {
            Seq::empty()
        }) + py_types_from(ls, i + 1)
    }
}

/// The types stage of Python code.
pub open spec fn py_types(code: Seq<char>) -> Seq<char> {
    py_types_from(lines(code), 0)
}

/// The indentation of a line: the width in bytes of its leading white
/// space.
pub open spec fn indent_of(l: Seq<char>) -> int {
    vstd::utf8::encode_utf8(l).len() - vstd::utf8::encode_utf8(trim_start(l)).len()
}

/// A trimmed line that begins a function.
pub open spec fn py_starts_def(t: Seq<char>) -> bool {
    has_prefix(t, "def "@) || has_prefix(t, "async def "@)
}

/// A trimmed line that begins a class that is not type-like.
pub open spec fn py_plain_class(t: Seq<char>) -> bool {
    has_prefix(t, "class "@) && !has_infix(t, "TypedDict"@) && !has_infix(t, "Protocol"@) && !has_infix(
        t,
        "Enum"@,
    )
}

/// A signature `sig` extended by the lines from `j` on, without newlines,
/// until it holds a `:`; with the index of the first line not taken.
pub open spec fn py_signature(ls: Seq<Seq<char>>, j: int, sig: Seq<char>) -> (Seq<char>, int)
    decreases ls.len() - j,
{
    if sig.contains(':') || j < 0 || j >= ls.len() {
        (sig, j)
    } else {
        py_signature(ls, j + 1, sig + ls[j])
    }
}

/// The first line at or after `j` that is not blank and is indented less
/// than `body_indent`: where a function body ends.
pub open spec fn py_body_end(ls: Seq<Seq<char>>, j: int, body_indent: int) -> int
    decreases ls.len() - j,
{
    if j < 0 || j >= ls.len() {
        ls.len() as int
    } else if trim(ls[j]).len() > 0 && indent_of(ls[j]) < body_indent {
        j
    } else {
        py_body_end(ls, j + 1, body_indent)
    }
}

/// A function's signature with a stub body at the function's indentation
/// plus four.
pub open spec fn py_stub(sig: Seq<char>, indent: int) -> Seq<char> {
    sig + seq!['\n'] + repeat_char(' ', indent as nat) + "    raise NotImplementedError()\n\n"@
}

/// The stubbed functions and plain class headers from line `i` on.
pub open spec fn py_stubs_from(ls: Seq<Seq<char>>, i: int) -> Seq<char>
    decreases ls.len() - i,
{
    if i < 0 || i >= ls.len() {
        Seq::empty()
    } else {
        let t = trim(ls[i]);
        if py_starts_def(t) {
            let ind = indent_of(ls[i]);
            let (sig, j) = py_signature(ls, i + 1, ls[i]);
            let k = py_body_end(ls, j, ind + 4);
            proof {
                lemma_signature_bounds(ls, i + 1, ls[i]);
                lemma_body_end_bounds(ls, j, ind + 4);
            }
            py_stub(sig, ind) + py_stubs_from(ls, k)
        } else if py_plain_class(t) {
            ls[i] + seq!['\n'] + py_stubs_from(ls, i + 1)
        } else {
            py_stubs_from(ls, i + 1)
        }
    }
}

/// The stubs stage of Python code: the types stage, then the stubbed
/// functions and plain class headers.
pub open spec fn py_stubs(code: Seq<char>) -> Seq<char> {
    py_types(code) + py_stubs_from(lines(code), 0)
}

// ============================================================================
// LEMMAS
// ============================================================================

/// The signature takes lines from `j` on and stops within the lines.
pub proof fn lemma_signature_bounds(ls: Seq<Seq<char>>, j: int, sig: Seq<char>)
    requires
        0 <= j <= ls.len(),
    ensures
        j <= py_signature(ls, j, sig).1 <= ls.len(),
    decreases ls.len() - j,
{
    if !(sig.contains(':') || j >= ls.len()) {
        lemma_signature_bounds(ls, j + 1, sig + ls[j]);
    }
}

/// A body ends at or after where it is searched from, within the lines.
pub proof fn lemma_body_end_bounds(ls: Seq<Seq<char>>, j: int, body_indent: int)
    requires
        0 <= j <= ls.len(),
    ensures
        j <= py_body_end(ls, j, body_indent) <= ls.len(),
    decreases ls.len() - j,
{
    if j < ls.len() && !(trim(ls[j]).len() > 0 && indent_of(ls[j]) < body_indent) {
        lemma_body_end_bounds(ls, j + 1, body_indent);
    }
}

// ============================================================================
// EXECUTABLE HELPERS
// ============================================================================

/// The indentation of a line, in bytes.
fn indent_bytes(line: &[char]) -> (r: usize)
    ensures
        r == indent_of(line@),
{
    let rest = trimmed_start(line);
    let whole = utf8_width(line);
    let tail = utf8_width(&rest);
    proof {
        let k = lead_white(line@) as int;
        crate::text::lemma_lead_white_bound(line@);
        assert(line@ =~= line@.subrange(0, k) + line@.subrange(k, line@.len() as int));
        lemma_encode_utf8_concat(line@.subrange(0, k), line@.subrange(k, line@.len() as int));
    }
    whole - tail
}

// ============================================================================
// EXTRACTOR
// ============================================================================

/// Python code extractor.
#[derive(Debug, Clone, Copy)]
pub struct PythonExtractor;

impl PythonExtractor {
    /// Extract Stage 1: Imports and type definitions (Python).
    fn extract_types_impl(code: &str) -> (r: String)
        ensures
            r@ == py_types(code@),
    {
        let ls = text_lines(code);
        let ghost v = char_views(ls@);
        let mut out = String::new();
        let mut i: usize = 0;
        while i < ls.len()
            invariant
                v == char_views(ls@),
                v == lines(code@),
                i <= ls@.len(),
                out@ + py_types_from(v, i as int) == py_types(code@),
            decreases ls.len() - i,
        {
            let line = ls[i].as_slice();
            let t = trimmed(line);
            proof {
                assert(v[i as int] == line@);
            }
            let ghost before = out@;
            let type_class = starts_with_str(&t, "class ") && (contains_str(&t, "TypedDict") || contains_str(
                &t,
                "Protocol",
            ) || contains_str(&t, "Enum") || contains_str(&t, "NamedTuple"));
            if starts_with_str(&t, "import ") || starts_with_str(&t, "from ") || starts_with_str(&t, "type ")
                || contains_str(&t, ": TypeAlias") || starts_with_str(&t, "@dataclass") || starts_with_str(
                &t,
                "@dataclasses.dataclass",
            ) || type_class {
                append_chars(&mut out, line);
                push_char(&mut out, '\n');
            }
            assert(out@ + py_types_from(v, i + 1) =~= before + py_types_from(v, i as int));
            i = i + 1;
        }
        assert(out@ =~= py_types(code@));
        out
    }

    /// Extract Stage 2: Types + function/class stubs (Python).
    fn extract_stubs_impl(code: &str) -> (r: String)
        ensures
            r@ == py_stubs(code@),
    {
        let mut out = Self::extract_types_impl(code);
        let ghost types = out@;
        let ls = text_lines(code);
        let ghost v = char_views(ls@);
        let mut i: usize = 0;
        while i < ls.len()
            invariant
                v == char_views(ls@),
                v == lines(code@),
                i <= ls@.len(),
                types == py_types(code@),
                out@ + py_stubs_from(v, i as int) == types + py_stubs_from(v, 0),
            decreases ls.len() - i,
        {
            let line = ls[i].as_slice();
            let t = trimmed(line);
            proof {
                assert(v[i as int] == line@);
            }
            let ghost before = out@;
            if starts_with_str(&t, "def ") || starts_with_str(&t, "async def ") {
                let indent = indent_bytes(line);
                let mut sig: Vec<char> = Vec::new();
                crate::pipeline::blocks::push_chars(&mut sig, line);
                let mut j = i + 1;
                proof {
                    assert(sig@ =~= line@);
                    lemma_signature_bounds(v, i + 1, line@);
                }
                while j < ls.len() && !contains_char(&sig, ':')
                    invariant
                        v == char_views(ls@),
                        i < j <= ls@.len(),
                        py_signature(v, j as int, sig@) == py_signature(v, i + 1, v[i as int]),
                    decreases ls.len() - j,
                {
                    proof {
                        assert(v[j as int] == ls@[j as int]@);
                    }
                    crate::pipeline::blocks::push_chars(&mut sig, ls[j].as_slice());
                    j = j + 1;
                }
                append_chars(&mut out, &sig);
                push_char(&mut out, '\n');
                let pad = repeat(' ', indent);
                append(&mut out, pad.as_str());
                append(&mut out, "    raise NotImplementedError()\n\n");
                let ghost j0 = j;
                proof {
                    lemma_body_end_bounds(v, j as int, indent + 4);
                }
                let mut done = false;
                while j < ls.len() && !done
                    invariant
                        v == char_views(ls@),
                        j0 <= j <= ls@.len(),
                        done ==> j == py_body_end(v, j0 as int, indent + 4),
                        !done ==> py_body_end(v, j as int, indent + 4) == py_body_end(v, j0 as int, indent + 4),
                    decreases ls.len() - j, if done { 0int } else { 1int },
                {
                    let next = ls[j].as_slice();
                    proof {
                        assert(v[j as int] == next@);
                    }
                    let next_indent = indent_bytes(next);
                    if trimmed(next).len() > 0 && (next_indent < indent || next_indent - indent < 4) {
                        done = true;
                    } else {
                        j = j + 1;
                    }
                }
                proof {
                    assert(py_signature(v, i + 1, v[i as int]) == (sig@, j0 as int));
                    assert(out@ + py_stubs_from(v, j as int) =~= before + py_stubs_from(v, i as int));
                }
                i = j;
            } else {
                let plain_class = starts_with_str(&t, "class ") && !contains_str(&t, "TypedDict")
                    && !contains_str(&t, "Protocol") && !contains_str(&t, "Enum");
                if plain_class {
                    append_chars(&mut out, line);
                    push_char(&mut out, '\n');
                }
                assert(out@ + py_stubs_from(v, i + 1) =~= before + py_stubs_from(v, i as int));
                i = i + 1;
            }
        }
        assert(out@ =~= py_stubs(code@));
        out
    }
}

impl LanguageExtractor for PythonExtractor {
    open spec fn language_of(&self) -> Language {
        Language::Python
    }

    open spec fn stub_body_of(&self) -> Seq<char> {
        "raise NotImplementedError()"@
    }

    open spec fn types_of(&self, code: Seq<char>) -> Seq<char> {
        py_types(code)
    }

    open spec fn stubs_of(&self, code: Seq<char>) -> Seq<char> {
        py_stubs(code)
    }

    fn language(&self) -> (r: Language) {
        Language::Python
    }

    fn stub_body(&self) -> (r: &'static str) {
        "raise NotImplementedError()"
    }

    fn extract_types(&self, code: &str) -> (r: String) {
        PythonExtractor::extract_types_impl(code)
    }

    fn extract_stubs(&self, code: &str) -> (r: String) {
        PythonExtractor::extract_stubs_impl(code)
    }
}

} // verus!
