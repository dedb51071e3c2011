//! Stage extraction for shell scripts (minimal support).
//!
//! Shell has no types: the types stage is the leading shebang, comment and
//! blank lines; the stubs stage adds each function header with a body that
//! fails.
use vstd::prelude::*;
use crate::pipeline::incremental_pipeline::LanguageExtractor;
use crate::pipeline::sandbox_validator::Language;
use crate::text::{
    append, append_chars, char_views, contains_str, ends_with, find, first_occurrence, has_infix,
    has_prefix, has_suffix, lines, push_char, starts_with_str, string_of_range, text_lines, trim,
    trimmed,
};

verus! {

broadcast use vstd::seq::group_seq_axioms;

// ============================================================================
// SPECIFICATIONS
// ============================================================================

/// A trimmed line of the script's header: a shebang, a comment or blank.
pub open spec fn shell_header_line(t: Seq<char>) -> bool {
    has_prefix(t, "#!"@) || has_prefix(t, "# "@) || t.len() == 0
}

/// The header lines from `i` on, up to the first line that is not one.
pub open spec fn shell_header_from(ls: Seq<Seq<char>>, i: int) -> Seq<char>
    decreases ls.len() - i,
{
    if i < 0 || i >= ls.len() {
        Seq::empty()
    } else if shell_header_line(trim(ls[i])) {
        ls[i] + seq!['\n'] + shell_header_from(ls, i + 1)
    } else {
        Seq::empty()
    }
}

/// The types stage of a script: its leading header lines.
pub open spec fn shell_types(code: Seq<char>) -> Seq<char> {
    shell_header_from(lines(code), 0)
}

/// A trimmed line that declares a function: `name() {` or `function name`.
pub open spec fn shell_fn_line(t: Seq<char>) -> bool {
    (has_infix(t, "()"@) && has_suffix(t, seq!['{'])) || has_prefix(t, "function "@)
}

/// A function header with a body that fails: the line up to its first `{`,
/// or nothing when it has none.
pub open spec fn shell_stub_line(line: Seq<char>) -> Seq<char> {
    match first_occurrence(line, seq!['{']) {
        Some(p) => line.subrange(0, p) + "{ echo 'TODO' && exit 1; }\n"@,
        None => Seq::empty(),
    }
}

/// The stubbed function headers among the lines from `i` on.
pub open spec fn shell_stubs_from(ls: Seq<Seq<char>>, i: int) -> Seq<char>
    decreases ls.len() - i,
{
    if i < 0 || i >= ls.len() {
        Seq::empty()
    } else {
        (if shell_fn_line(trim(ls[i])) {
            shell_stub_line(ls[i])
        } else {
            Seq::empty()
        }) + shell_stubs_from(ls, i + 1)
    }
}

/// The stubs stage of a script: its header, then each function stubbed.
pub open spec fn shell_stubs(code: Seq<char>) -> Seq<char> {
    shell_types(code) + shell_stubs_from(lines(code), 0)
}

// ============================================================================
// EXTRACTOR
// ============================================================================

/// Shell script extractor (minimal support).
#[derive(Debug, Clone, Copy)]
pub struct ShellExtractor;

impl LanguageExtractor for ShellExtractor {
    open spec fn language_of(&self) -> Language {
        Language::Shell
    }

    open spec fn stub_body_of(&self) -> Seq<char> {
        "echo 'TODO' && exit 1"@
    }

    open spec fn types_of(&self, code: Seq<char>) -> Seq<char> {
        shell_types(code)
    }

    open spec fn stubs_of(&self, code: Seq<char>) -> Seq<char> {
        shell_stubs(code)
    }

    fn language(&self) -> (r: Language) {
        Language::Shell
    }

    fn stub_body(&self) -> (r: &'static str) {
        "echo 'TODO' && exit 1"
    }

    fn extract_types(&self, code: &str) -> (r: String) {
        let ls = text_lines(code);
        let ghost v = char_views(ls@);
        let mut out = String::new();
        let mut i: usize = 0;
        let mut done = false;
        while i < ls.len() && !done
            invariant
                v == char_views(ls@),
                v == lines(code@),
                i <= ls@.len(),
                done ==> out@ == shell_types(code@),
                !done ==> out@ + shell_header_from(v, i as int) == shell_types(code@),
            decreases ls.len() - i,
        {
            let line = ls[i].as_slice();
            let t = trimmed(line);
            proof {
                assert(v[i as int] == line@);
            }
            let ghost before = out@;
            if starts_with_str(&t, "#!") || starts_with_str(&t, "# ") || t.len() == 0 {
                append_chars(&mut out, line);
                push_char(&mut out, '\n');
                assert(out@ + shell_header_from(v, i + 1) =~= before + shell_header_from(v, i as int));
            } else {
                assert(out@ =~= out@ + shell_header_from(v, i as int));
                done = true;
            }
            i = i + 1;
        }
        assert(!done ==> out@ =~= out@ + shell_header_from(v, i as int));
        out
    }

    fn extract_stubs(&self, code: &str) -> (r: String) {
        let mut out = self.extract_types(code);
        let ghost types = out@;
        let ls = text_lines(code);
        let ghost v = char_views(ls@);
        let mut i: usize = 0;
        while i < ls.len()
            invariant
                v == char_views(ls@),
                v == lines(code@),
                i <= ls@.len(),
                types == shell_types(code@),
                out@ + shell_stubs_from(v, i as int) == types + shell_stubs_from(v, 0),
            decreases ls.len() - i,
        {
            let line = ls[i].as_slice();
            let t = trimmed(line);
            proof {
                assert(v[i as int] == line@);
            }
            let ghost before = out@;
            let open_brace: Vec<char> = vec!['{'];
            assert(open_brace@ =~= seq!['{']);
            if (contains_str(&t, "()") && ends_with(&t, &open_brace)) || starts_with_str(&t, "function ") {
                match find(line, &open_brace) {
                    Some(p) => {
                        proof {
                            crate::text::lemma_first_occurrence_from(line@, open_brace@, 0);
                        }
                        let head = string_of_range(line, 0, p);
                        append(&mut out, head.as_str());
                        append(&mut out, "{ echo 'TODO' && exit 1; }\n");
                    },
                    None => {},
                }
            }
            assert(out@ + shell_stubs_from(v, i + 1) =~= before + shell_stubs_from(v, i as int));
            i = i + 1;
        }
        assert(out@ =~= shell_stubs(code@));
        out
    }
}

} // verus!
