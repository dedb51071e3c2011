//! Repair analysis: from a validator's error messages to the code lines
//! they point at, the problem patterns those lines show, concrete fixes,
//! and a focused prompt that shows a model only the problem areas.
//!
//! Confidences are percentages (0 to 100).
use vstd::prelude::*;
use crate::pattern::{captures, group, group_at, is_match, opt_views, regex_captures, regex_matches};
use crate::pipeline::output_parsers::{parse_number, parse_u32};
use crate::pipeline::repair_engine::{repairable, template_repair, SurgicalRepair};
use crate::pipeline::sandbox_validator::Language;
use crate::text::{
    append, append_chars, char_views, chars_of, contains_char, contains_str, count, count_char, decimal, find,
    first_occurrence, has_infix, has_prefix, occurs_at, join, lines, lowercase_of, push_char, push_decimal, repeat, repeat_char,
    join_strings, slice_range, split_lines, starts_with_str, str_eq, string_of, utf8_width, to_lowercase, to_owned, trim, trim_start, trimmed,
    trimmed_start, views, TextLike,
};

verus! {

// ============================================================================
// PATTERNS
// ============================================================================

/// TypeScript location: `main.ts(34,5)`.
pub const TS_LOCATION_PAREN: &'static str = "(\\w+\\.tsx?)\\((\\d+),(\\d+)\\)";
/// TypeScript location: `main.ts:34` or `main.ts:34:5`.
pub const TS_LOCATION_COLON: &'static str = "(\\w+\\.tsx?):(\\d+)(?::(\\d+))?";
/// Rust location: `src/main.rs:42`.
pub const RUST_LOCATION: &'static str = "(\\S+\\.rs):(\\d+)(?::(\\d+))?";
/// Python traceback location: `File "main.py", line 42`.
pub const PYTHON_LOCATION: &'static str = "File \"([^\"]+\\.py)\", line (\\d+)";
/// Go location: `main.go:42`.
pub const GO_LOCATION: &'static str = "(\\w+\\.go):(\\d+)(?::(\\d+))?";
/// TypeScript error code: `TS1005`.
pub const TS_ERROR_CODE: &'static str = "TS(\\d+)";
/// Rust error code: `E0382`.
pub const RUST_ERROR_CODE: &'static str = "E(\\d{4})";
/// A template expression: `${...}`.
pub const TEMPLATE_EXPRESSION: &'static str = "\\$\\{[^}]+\\}";
/// A promise type: `Promise<`.
pub const PROMISE_TYPE: &'static str = "Promise\\s*<";

// ============================================================================
// ERROR PATTERNS
// ============================================================================

/// The kinds of problem a faulty line can show.
#[derive(Debug, Clone, Copy, PartialEq, Eq, Structural)]
pub enum PatternKind {
    /// A template literal `${...}` written without backticks.
    TemplateLiteralNoBackticks,
    /// A promise returned but not awaited.
    MissingAwait,
    /// A TypeScript TS1005 caused by a template literal without backticks.
    Ts1005TemplateLiteral,
    /// A Rust value moved or borrowed wrongly.
    RustMoveError,
    /// A Python string interpolation without the `f` prefix.
    PythonMissingFstring,
}

/// The identifier of a kind of problem.
pub open spec fn kind_id(k: PatternKind) -> Seq<char> {
    match k {
        PatternKind::TemplateLiteralNoBackticks => "TEMPLATE_LITERAL_NO_BACKTICKS"@,
        PatternKind::MissingAwait => "MISSING_AWAIT"@,
        PatternKind::Ts1005TemplateLiteral => "TS1005_TEMPLATE_LITERAL"@,
        PatternKind::RustMoveError => "RUST_MOVE_ERROR"@,
        PatternKind::PythonMissingFstring => "PYTHON_MISSING_FSTRING"@,
    }
}

/// How sure the detection of a kind of problem is, in percent.
pub open spec fn kind_confidence(k: PatternKind) -> u32 {
    match k {
        PatternKind::TemplateLiteralNoBackticks => 95,
        PatternKind::MissingAwait => 80,
        PatternKind::Ts1005TemplateLiteral => 90,
        PatternKind::RustMoveError => 85,
        PatternKind::PythonMissingFstring => 75,
    }
}

/// A detected problem pattern.
#[derive(Debug, Clone)]
pub struct ErrorPattern {
    /// Pattern identifier.
    pub id: &'static str,
    /// Human-readable description.
    pub description: String,
    /// Instruction for fixing.
    pub fix_instruction: String,
    /// Example of correct code.
    pub example_fix: Option<String>,
    /// Confidence, in percent.
    pub confidence: u32,
}

// ============================================================================
// ERROR CONTEXT
// ============================================================================

/// The context of one error: where it is, the code around it, and the
/// problem detected there.
#[derive(Debug, Clone)]
pub struct ErrorContext {
    /// Original error message.
    pub error_message: String,
    /// File name, if detected.
    pub file: Option<String>,
    /// Line number where the error occurred.
    pub line: Option<u32>,
    /// Column number, if available.
    pub column: Option<u32>,
    /// The code line at that position.
    pub code_line: Option<String>,
    /// Numbered lines before, for context.
    pub lines_before: Vec<(u32, String)>,
    /// Numbered lines after, for context.
    pub lines_after: Vec<(u32, String)>,
    /// Error code (e.g. `TS1005`, `E0382`).
    pub error_code: Option<String>,
    /// Detected problem pattern.
    pub detected_pattern: Option<ErrorPattern>,
}

/// A number right-aligned in four columns (wider numbers as they are).
pub open spec fn pad4(n: nat) -> Seq<char> {
    let d = decimal(n);
    if d.len() < 4 {
        repeat_char(' ', (4 - d.len()) as nat) + d
    } else {
        d
    }
}

/// The first line of a message, or the message when it has none.
pub open spec fn first_line(m: Seq<char>) -> Seq<char> {
    if lines(m).len() > 0 {
        lines(m)[0]
    } else {
        m
    }
}

/// Numbered lines as shown around an error: `    NNNN │ text`, each on its
/// own line.
pub open spec fn numbered_block(ls: Seq<(u32, Seq<char>)>) -> Seq<char>
    decreases ls.len(),
{
    if ls.len() == 0 {
        seq![]
    } else {
        numbered_block(ls.drop_last()) + "    "@ + pad4(ls.last().0 as nat) + " │ "@ + ls.last().1 + "\n"@
    }
}

/// Numbered lines viewed as (number, text).
pub open spec fn numbered_views(v: Seq<(u32, String)>) -> Seq<(u32, Seq<char>)> {
    v.map_values(|e: (u32, String)| (e.0, e.1@))
}

/// The text of an optional string.
pub open spec fn opt_text(o: Option<String>) -> Option<Seq<char>> {
    match o {
        Some(s) => Some(s@),
        None => None,
    }
}

/// The location line of an error context: `>>> ERROR at file:line[:col]`.
pub open spec fn header_text(c: ErrorContext) -> Seq<char> {
    match (c.file, c.line) {
        (Some(f), Some(l)) => ">>> ERROR at "@ + f@ + ":"@ + decimal(l as nat) + match c.column {
            Some(k) => ":"@ + decimal(k as nat),
            None => seq![],
        } + "\n"@,
        _ => seq![],
    }
}

/// The code and message lines of an error context.
pub open spec fn code_message_text(c: ErrorContext) -> Seq<char> {
    let code = match c.error_code {
        Some(k) => "    Code: "@ + k@ + "\n"@,
        None => seq![],
    };
    code + "    Message: "@ + first_line(c.error_message@) + "\n"@ + "\n"@
}

/// The faulty line of an error context, with a caret under its column.
pub open spec fn faulty_text(c: ErrorContext) -> Seq<char> {
    match (c.line, c.code_line) {
        (Some(n), Some(cl)) => "  → "@ + pad4(n as nat) + " │ "@ + cl@ + "\n"@ + match c.column {
            Some(k) => repeat_char(' ', 10 + k as nat) + "^\n"@,
            None => seq![],
        },
        _ => seq![],
    }
}

/// The problem lines of an error context.
pub open spec fn problem_text(c: ErrorContext) -> Seq<char> {
    match c.detected_pattern {
        Some(p) => "\n"@ + "    PROBLEM: "@ + p.description@ + "\n"@ + "    FIX: "@ + p.fix_instruction@ + "\n"@
            + match p.example_fix {
            Some(e) => "    EXAMPLE: "@ + e@ + "\n"@,
            None => seq![],
        },
        None => seq![],
    }
}

/// How an error context is shown in a prompt: the location, the code and
/// message, the lines before, the faulty line with a caret under its
/// column, the lines after, and the problem with its fix.
pub open spec fn context_text(c: ErrorContext) -> Seq<char> {
    header_text(c) + code_message_text(c) + numbered_block(numbered_views(c.lines_before@)) + faulty_text(c)
        + numbered_block(numbered_views(c.lines_after@)) + problem_text(c)
}

fn push_pad4(s: &mut String, n: u32)
    ensures
        final(s)@ == old(s)@ + pad4(n as nat),
{
    let d = crate::text::to_decimal(n as u64);
    let dc = chars_of(d.as_str());
    if dc.len() < 4 {
        let pad = repeat(' ', 4 - dc.len());
        append(s, pad.as_str());
    }
    append(s, d.as_str());
}

fn push_numbered(s: &mut String, ls: &Vec<(u32, String)>)
    ensures
        final(s)@ == old(s)@ + numbered_block(numbered_views(ls@)),
{
    let ghost s0 = s@;
    let mut j: usize = 0;
    while j < ls.len()
        invariant
            0 <= j <= ls@.len(),
            s@ == s0 + numbered_block(numbered_views(ls@.take(j as int))),
        decreases ls@.len() - j,
    {
        proof {
            assert(numbered_views(ls@.take(j + 1)).drop_last() =~= numbered_views(ls@.take(j as int)));
            assert(numbered_views(ls@.take(j + 1)).last() == (ls@[j as int].0, ls@[j as int].1@));
        }
        append(s, "    ");
        push_pad4(s, ls[j].0);
        append(s, " │ ");
        append(s, ls[j].1.as_str());
        append(s, "\n");
        assert(s@ =~= s0 + numbered_block(numbered_views(ls@.take(j + 1))));
        j = j + 1;
    }
    assert(ls@.take(ls@.len() as int) =~= ls@);
}

fn first_line_of(m: &str) -> (r: String)
    ensures
        r@ == first_line(m@),
{
    let cs = chars_of(m);
    let ls = split_lines(&cs);
    if ls.len() > 0 {
        assert(ls@[0]@ == lines(m@)[0]);
        string_of(&ls[0])
    } else {
        to_owned(m)
    }
}

impl ErrorContext {
    fn push_header(&self, out: &mut String)
        ensures
            final(out)@ == old(out)@ + header_text(*self),
    {
        match (&self.file, self.line) {
            (Some(f), Some(l)) => {
                append(out, ">>> ERROR at ");
                append(out, f.as_str());
                append(out, ":");
                push_decimal(out, l as u64);
                match self.column {
                    Some(k) => {
                        append(out, ":");
                        push_decimal(out, k as u64);
                    },
                    None => {},
                }
                append(out, "\n");
            },
            _ => {},
        }
        assert(out@ =~= old(out)@ + header_text(*self));
    }

    fn push_code_message(&self, out: &mut String)
        ensures
            final(out)@ == old(out)@ + code_message_text(*self),
    {
        match &self.error_code {
            Some(k) => {
                append(out, "    Code: ");
                append(out, k.as_str());
                append(out, "\n");
            },
            None => {},
        }
        append(out, "    Message: ");
        let first = first_line_of(self.error_message.as_str());
        append(out, first.as_str());
        append(out, "\n");
        append(out, "\n");
        assert(out@ =~= old(out)@ + code_message_text(*self));
    }

    fn push_faulty(&self, out: &mut String)
        ensures
            final(out)@ == old(out)@ + faulty_text(*self),
    {
        match (self.line, &self.code_line) {
            (Some(n), Some(cl)) => {
                append(out, "  → ");
                push_pad4(out, n);
                append(out, " │ ");
                append(out, cl.as_str());
                append(out, "\n");
                match self.column {
                    Some(k) => {
                        let ten = repeat(' ', 10);
                        let more = repeat(' ', k as usize);
                        append(out, ten.as_str());
                        append(out, more.as_str());
                        assert(repeat_char(' ', 10) + repeat_char(' ', k as nat) =~= repeat_char(' ', 10 + k as nat));
                        append(out, "^\n");
                    },
                    None => {},
                }
            },
            _ => {},
        }
        assert(out@ =~= old(out)@ + faulty_text(*self));
    }

    fn push_problem(&self, out: &mut String)
        ensures
            final(out)@ == old(out)@ + problem_text(*self),
    {
        match &self.detected_pattern {
            Some(p) => {
                append(out, "\n");
                append(out, "    PROBLEM: ");
                append(out, p.description.as_str());
                append(out, "\n");
                append(out, "    FIX: ");
                append(out, p.fix_instruction.as_str());
                append(out, "\n");
                match &p.example_fix {
                    Some(e) => {
                        append(out, "    EXAMPLE: ");
                        append(out, e.as_str());
                        append(out, "\n");
                    },
                    None => {},
                }
            },
            None => {},
        }
        assert(out@ =~= old(out)@ + problem_text(*self));
    }

    /// How the context is shown in a prompt.
    pub fn format_for_prompt(&self) -> (r: String)
        ensures
            r@ == context_text(*self),
    {
        let mut out = String::new();
        self.push_header(&mut out);
        self.push_code_message(&mut out);
        push_numbered(&mut out, &self.lines_before);
        self.push_faulty(&mut out);
        push_numbered(&mut out, &self.lines_after);
        self.push_problem(&mut out);
        assert(out@ =~= context_text(*self));
        out
    }
}


// ============================================================================
// ERROR CONTEXT EXTRACTOR
// ============================================================================

/// The text of group `i` of a match, empty when it did not take part.
pub open spec fn group_text(m: Seq<Option<Seq<char>>>, i: int) -> Seq<char> {
    match group(m, i) {
        Some(t) => t,
        None => seq![],
    }
}

/// The number in group `i` of a match, when it took part and parses.
pub open spec fn number_in(m: Seq<Option<Seq<char>>>, i: int) -> Option<u32> {
    match group(m, i) {
        Some(t) => parse_u32(t),
        None => None,
    }
}

/// A location read from a match: file, line, and column when the pattern
/// has one.
pub open spec fn location_in(m: Seq<Option<Seq<char>>>, with_column: bool) -> (Option<Seq<char>>, Option<u32>, Option<u32>) {
    (Some(group_text(m, 1)), number_in(m, 2), if with_column { number_in(m, 3) } else { None })
}

/// Where an error message points: the first of the TypeScript, Rust,
/// Python and Go location forms that it holds.
pub open spec fn error_location(e: Seq<char>) -> (Option<Seq<char>>, Option<u32>, Option<u32>) {
    match regex_captures(TS_LOCATION_PAREN@, e) {
        Some(m) => location_in(m, true),
        None => match regex_captures(TS_LOCATION_COLON@, e) {
            Some(m) => location_in(m, true),
            None => match regex_captures(RUST_LOCATION@, e) {
                Some(m) => location_in(m, true),
                None => match regex_captures(PYTHON_LOCATION@, e) {
                    Some(m) => location_in(m, false),
                    None => match regex_captures(GO_LOCATION@, e) {
                        Some(m) => location_in(m, true),
                        None => (None, None, None),
                    },
                },
            },
        },
    }
}

/// The error code an error message holds: `TS` and digits, else `E` and
/// four digits.
pub open spec fn error_code_of(e: Seq<char>) -> Option<Seq<char>> {
    match regex_captures(TS_ERROR_CODE@, e) {
        Some(m) => Some("TS"@ + group_text(m, 1)),
        None => match regex_captures(RUST_ERROR_CODE@, e) {
            Some(m) => Some("E"@ + group_text(m, 1)),
            None => None,
        },
    }
}

/// The code line with the given (1-based) number, if there is one.
pub open spec fn line_at(ls: Seq<Seq<char>>, line: Option<u32>) -> Option<Seq<char>> {
    match line {
        Some(n) => if 1 <= n <= ls.len() {
            Some(ls[n - 1])
        } else {
            None
        },
        None => None,
    }
}

/// The numbered lines at offsets `from..=to` around line `target`, those
/// that exist.
pub open spec fn lines_around(ls: Seq<Seq<char>>, target: int, from: int, to: int) -> Seq<(u32, Seq<char>)>
    decreases to - from + 1,
{
    if from > to {
        seq![]
    } else {
        let n = target + from;
        let rest = lines_around(ls, target, from + 1, to);
        if 1 <= n <= ls.len() && n <= u32::MAX {
            seq![(n as u32, ls[n - 1])] + rest
        } else {
            rest
        }
    }
}

/// The numbered lines at offsets `from..=to` around the error's line, or
/// none without a line.
pub open spec fn context_around(ls: Seq<Seq<char>>, line: Option<u32>, from: int, to: int) -> Seq<(u32, Seq<char>)> {
    match line {
        Some(n) => lines_around(ls, n as int, from, to),
        None => seq![],
    }
}

/// Whether a `${` stands outside backticks, scanning from `i` with the
/// quote state so far (a quote of one kind inside another does not count).
pub open spec fn unquoted_template_from(cs: Seq<char>, i: int, bt: bool, dq: bool, sq: bool) -> bool
    decreases cs.len() - i,
{
    if i < 0 || i >= cs.len() {
        false
    } else {
        let c = cs[i];
        let bt2 = if c == '`' && !dq && !sq { !bt } else { bt };
        let dq2 = if c == '"' && !bt && !sq { !dq } else { dq };
        let sq2 = if c == '\'' && !bt && !dq { !sq } else { sq };
        if i + 1 < cs.len() && c == '$' && cs[i + 1] == '{' && !bt2 {
            true
        } else {
            unquoted_template_from(cs, i + 1, bt2, dq2, sq2)
        }
    }
}

/// Whether a `${` of the line stands outside backticks.
pub open spec fn unquoted_template(cs: Seq<char>) -> bool {
    unquoted_template_from(cs, 0, false, false, false)
}

/// Whether a character is a quote.
pub open spec fn is_quote(c: char) -> bool {
    c == '"' || c == '\''
}

/// The text without leading quotes.
pub open spec fn strip_lead_quotes(s: Seq<char>) -> Seq<char>
    decreases s.len(),
{
    if s.len() > 0 && is_quote(s[0]) {
        strip_lead_quotes(s.drop_first())
    } else {
        s
    }
}

/// The text without trailing quotes.
pub open spec fn strip_trail_quotes(s: Seq<char>) -> Seq<char>
    decreases s.len(),
{
    if s.len() > 0 && is_quote(s.last()) {
        strip_trail_quotes(s.drop_last())
    } else {
        s
    }
}

/// The last index of `c` in `s`.
pub open spec fn last_index(s: Seq<char>, c: char) -> Option<int>
    decreases s.len(),
{
    if s.len() == 0 {
        None
    } else if s.last() == c {
        Some(s.len() - 1)
    } else {
        last_index(s.drop_last(), c)
    }
}

/// The generic advice when no `Error(...)` call can be rewritten.
pub open spec fn generic_backtick_advice() -> Seq<char> {
    "Wrap the string containing ${} with backticks (`), not quotes"@
}

/// A suggested fix for a line missing backticks: its `Error(...)` call
/// rewritten as ``throw new Error(`...`)`` with the quotes around the
/// argument dropped, when it has one whose argument does not start with a
/// backtick; otherwise the generic advice.
pub open spec fn backtick_suggestion(cl: Seq<char>) -> Seq<char> {
    let t = trim(cl);
    match first_occurrence(t, "Error("@) {
        Some(start) => {
            let after = t.skip(start + 6);
            match last_index(after, ')') {
                Some(end) => {
                    let content = after.take(end);
                    if !(content.len() > 0 && content[0] == '`') {
                        "throw new Error(`"@ + strip_trail_quotes(strip_lead_quotes(content)) + "`)"@
                    } else {
                        generic_backtick_advice()
                    }
                },
                None => generic_backtick_advice(),
            }
        },
        None => generic_backtick_advice(),
    }
}

/// The problem a faulty line shows, given the error's message and code.
pub open spec fn detected_kind(cl: Seq<char>, error: Seq<char>, code: Option<Seq<char>>) -> Option<PatternKind> {
    let lc = lowercase_of(error);
    if regex_matches(TEMPLATE_EXPRESSION@, cl) && (count_char(cl, '`') == 0 || unquoted_template(cl)) {
        Some(PatternKind::TemplateLiteralNoBackticks)
    } else if has_infix(lc, "promise"@) && (has_infix(lc, "not assignable"@) || has_infix(lc, "is not a function"@))
        && (has_infix(cl, "Promise"@) || regex_matches(PROMISE_TYPE@, cl)) {
        Some(PatternKind::MissingAwait)
    } else if code == Some("TS1005"@) && has_infix(cl, "${"@) && !cl.contains('`') {
        Some(PatternKind::Ts1005TemplateLiteral)
    } else if code == Some("E0382"@) || code == Some("E0505"@) {
        Some(PatternKind::RustMoveError)
    } else if cl.contains('{') && cl.contains('}') && !(trim_start(cl).len() > 0 && trim_start(cl)[0] == 'f') && (
    cl.contains('"') || cl.contains('\'')) {
        Some(PatternKind::PythonMissingFstring)
    } else {
        None
    }
}

/// The description of a kind of problem.
pub open spec fn kind_description(k: PatternKind) -> Seq<char> {
    match k {
        PatternKind::TemplateLiteralNoBackticks => "Template literal ${...} used without backticks"@,
        PatternKind::MissingAwait => "Promise returned but not awaited"@,
        PatternKind::Ts1005TemplateLiteral => "TS1005 caused by template literal without backticks"@,
        PatternKind::RustMoveError => "Value moved or borrowed incorrectly"@,
        PatternKind::PythonMissingFstring => "String interpolation without f-prefix"@,
    }
}

/// The fix instruction for a kind of problem.
pub open spec fn kind_instruction(k: PatternKind) -> Seq<char> {
    match k {
        PatternKind::TemplateLiteralNoBackticks => "Wrap the string with BACKTICKS (`) not quotes"@,
        PatternKind::MissingAwait => "Add 'await' before the Promise-returning expression"@,
        PatternKind::Ts1005TemplateLiteral => "The ${} syntax requires backticks around the string"@,
        PatternKind::RustMoveError => "Clone the value before using, or use references"@,
        PatternKind::PythonMissingFstring => "Add 'f' prefix before the string"@,
    }
}

/// The example fix for a kind of problem on a line.
pub open spec fn kind_example(k: PatternKind, cl: Seq<char>) -> Option<Seq<char>> {
    match k {
        PatternKind::TemplateLiteralNoBackticks => Some(backtick_suggestion(cl)),
        PatternKind::MissingAwait => None,
        PatternKind::Ts1005TemplateLiteral => Some(backtick_suggestion(cl)),
        PatternKind::RustMoveError => Some("Use .clone() or Arc::clone(&val)"@),
        PatternKind::PythonMissingFstring => Some("f\"text {variable}\""@),
    }
}

/// A pattern describes a kind of problem on a line.
pub open spec fn pattern_of(p: ErrorPattern, k: PatternKind, cl: Seq<char>) -> bool {
    &&& p.id@ == kind_id(k)
    &&& p.description@ == kind_description(k)
    &&& p.fix_instruction@ == kind_instruction(k)
    &&& opt_text(p.example_fix) == kind_example(k, cl)
    &&& p.confidence == kind_confidence(k)
}

/// The context extracted for an error in some code.
pub open spec fn extracted(c: ErrorContext, code: Seq<char>, error: Seq<char>) -> bool {
    let ls = lines(code);
    let loc = error_location(error);
    let ec = error_code_of(error);
    &&& c.error_message@ == error
    &&& opt_text(c.file) == loc.0
    &&& c.line == loc.1
    &&& c.column == loc.2
    &&& opt_text(c.code_line) == line_at(ls, loc.1)
    &&& numbered_views(c.lines_before@) == context_around(ls, loc.1, -2, -1)
    &&& numbered_views(c.lines_after@) == context_around(ls, loc.1, 1, 2)
    &&& opt_text(c.error_code) == ec
    &&& match line_at(ls, loc.1) {
        Some(cl) => match detected_kind(cl, error, ec) {
            Some(k) => c.detected_pattern matches Some(p) && pattern_of(p, k, cl),
            None => c.detected_pattern is None,
        },
        None => c.detected_pattern is None,
    }
}

fn capture_location(pattern: &str, error: &str, with_column: bool) -> (r: Option<(Option<String>, Option<u32>, Option<u32>)>)
    ensures
        match regex_captures(pattern@, error@) {
            Some(m) => r matches Some(l) && (opt_text(l.0), l.1, l.2) == location_in(m, with_column),
            None => r is None,
        },
{
    match captures(pattern, error) {
        Some(m) => {
            let file = match group_at(&m, 1) {
                Some(f) => f.clone(),
                None => String::new(),
            };
            let line = match group_at(&m, 2) {
                Some(t) => parse_number(t.as_str()),
                None => None,
            };
            let column = if with_column {
                match group_at(&m, 3) {
                    Some(t) => parse_number(t.as_str()),
                    None => None,
                }
            } else {
                None
            };
            Some((Some(file), line, column))
        },
        None => None,
    }
}

fn location(error: &str) -> (r: (Option<String>, Option<u32>, Option<u32>))
    ensures
        (opt_text(r.0), r.1, r.2) == error_location(error@),
{
    if let Some(l) = capture_location(TS_LOCATION_PAREN, error, true) {
        return l;
    }
    if let Some(l) = capture_location(TS_LOCATION_COLON, error, true) {
        return l;
    }
    if let Some(l) = capture_location(RUST_LOCATION, error, true) {
        return l;
    }
    if let Some(l) = capture_location(PYTHON_LOCATION, error, false) {
        return l;
    }
    if let Some(l) = capture_location(GO_LOCATION, error, true) {
        return l;
    }
    (None, None, None)
}

fn error_code(error: &str) -> (r: Option<String>)
    ensures
        opt_text(r) == error_code_of(error@),
{
    match captures(TS_ERROR_CODE, error) {
        Some(m) => {
            let mut code = to_owned("TS");
            match group_at(&m, 1) {
                Some(d) => append(&mut code, d.as_str()),
                None => {},
            }
            assert(code@ =~= "TS"@ + group_text(opt_views(m@), 1));
            return Some(code);
        },
        None => {},
    }
    match captures(RUST_ERROR_CODE, error) {
        Some(m) => {
            let mut code = to_owned("E");
            match group_at(&m, 1) {
                Some(d) => append(&mut code, d.as_str()),
                None => {},
            }
            assert(code@ =~= "E"@ + group_text(opt_views(m@), 1));
            Some(code)
        },
        None => None,
    }
}

fn context_lines(ls: &Vec<Vec<char>>, target: u32, from: i64, to: i64) -> (r: Vec<(u32, String)>)
    requires
        -2 <= from,
        to <= 2,
    ensures
        numbered_views(r@) == lines_around(char_views(ls@), target as int, from as int, to as int),
    decreases to - from + 1,
{
    if from > to {
        return Vec::new();
    }
    let mut rest = context_lines(ls, target, from + 1, to);
    let n: i64 = target as i64 + from;
    let len: usize = ls.len();
    if 1 <= n && (n as u64) <= (len as u64) && n <= u32::MAX as i64 {
        let line = string_of(&ls[(n - 1) as usize]);
        let ghost lv = line@;
        let ghost rv = rest@;
        let mut r: Vec<(u32, String)> = Vec::new();
        r.push((n as u32, line));
        r.append(&mut rest);
        proof {
            assert(lv == char_views(ls@)[n - 1]);
            assert(numbered_views(r@) =~= seq![(n as u32, lv)] + numbered_views(rv));
        }
        r
    } else {
        rest
    }
}

fn has_unquoted_template_literal(cs: &[char]) -> (r: bool)
    ensures
        r == unquoted_template(cs@),
{
    let mut bt = false;
    let mut dq = false;
    let mut sq = false;
    let mut i: usize = 0;
    while i < cs.len()
        invariant
            0 <= i <= cs@.len(),
            unquoted_template(cs@) == unquoted_template_from(cs@, i as int, bt, dq, sq),
        decreases cs@.len() - i,
    {
        let c = cs[i];
        if c == '`' && !dq && !sq {
            bt = !bt;
        } else if c == '"' && !bt && !sq {
            dq = !dq;
        } else if c == '\'' && !bt && !dq {
            sq = !sq;
        }
        if i + 1 < cs.len() && c == '$' && cs[i + 1] == '{' && !bt {
            return true;
        }
        i = i + 1;
    }
    false
}

fn strip_quotes(s: &[char]) -> (r: Vec<char>)
    ensures
        r@ == strip_trail_quotes(strip_lead_quotes(s@)),
{
    let mut a: usize = 0;
    assert(s@.skip(0) =~= s@);
    while a < s.len() && (s[a] == '"' || s[a] == '\'')
        invariant
            0 <= a <= s@.len(),
            strip_lead_quotes(s@) == strip_lead_quotes(s@.skip(a as int)),
        decreases s@.len() - a,
    {
        assert(s@.skip(a as int).drop_first() =~= s@.skip(a + 1));
        a = a + 1;
    }
    assert(strip_lead_quotes(s@.skip(a as int)) == s@.skip(a as int));
    let mut b: usize = s.len();
    assert(s@.subrange(a as int, b as int) =~= s@.skip(a as int));
    while b > a && (s[b - 1] == '"' || s[b - 1] == '\'')
        invariant
            a <= b <= s@.len(),
            strip_trail_quotes(s@.skip(a as int)) == strip_trail_quotes(s@.subrange(a as int, b as int)),
        decreases b - a,
    {
        assert(s@.subrange(a as int, b as int).drop_last() =~= s@.subrange(a as int, b - 1));
        b = b - 1;
    }
    slice_range(s, a, b)
}

fn last_index_exec(s: &[char], c: char) -> (r: Option<usize>)
    ensures
        match last_index(s@, c) {
            Some(i) => r matches Some(k) && k as int == i,
            None => r is None,
        },
        r matches Some(i) ==> i < s@.len(),
{
    let mut j = s.len();
    assert(s@.take(j as int) =~= s@);
    while j > 0
        invariant
            j <= s@.len(),
            last_index(s@, c) == last_index(s@.take(j as int), c),
        decreases j,
    {
        assert(s@.take(j as int).drop_last() =~= s@.take(j - 1));
        if s[j - 1] == c {
            return Some(j - 1);
        }
        j = j - 1;
    }
    None
}

fn backtick_suggestion_exec(cl: &[char]) -> (r: String)
    ensures
        r@ == backtick_suggestion(cl@),
{
    let t = trimmed(cl);
    let needle = chars_of("Error(");
    match find(&t, &needle) {
        Some(start) => {
            proof {
                crate::text::lemma_first_occurrence_from(t@, needle@, 0);
                reveal_strlit("Error(");
            }
            let tl: usize = t.len();
            assert(start + 6 <= tl);
            let from: usize = start + 6;
            let after = slice_range(&t, from, tl);
            assert(after@ =~= t@.skip(start + 6));
            match last_index_exec(&after, ')') {
                Some(end) => {
                    let content = slice_range(&after, 0, end);
                    assert(content@ =~= after@.take(end as int));
                    if !(content.len() > 0 && content[0] == '`') {
                        let inner = strip_quotes(&content);
                        let mut r = to_owned("throw new Error(`");
                        append_chars(&mut r, &inner);
                        append(&mut r, "`)");
                        r
                    } else {
                        to_owned("Wrap the string containing ${} with backticks (`), not quotes")
                    }
                },
                None => to_owned("Wrap the string containing ${} with backticks (`), not quotes"),
            }
        },
        None => to_owned("Wrap the string containing ${} with backticks (`), not quotes"),
    }
}

fn make_pattern(k: PatternKind, cl: &[char]) -> (r: ErrorPattern)
    ensures
        pattern_of(r, k, cl@),
{
    match k {
        PatternKind::TemplateLiteralNoBackticks => ErrorPattern {
            id: "TEMPLATE_LITERAL_NO_BACKTICKS",
            description: to_owned("Template literal ${...} used without backticks"),
            fix_instruction: to_owned("Wrap the string with BACKTICKS (`) not quotes"),
            example_fix: Some(backtick_suggestion_exec(cl)),
            confidence: 95,
        },
        PatternKind::MissingAwait => ErrorPattern {
            id: "MISSING_AWAIT",
            description: to_owned("Promise returned but not awaited"),
            fix_instruction: to_owned("Add 'await' before the Promise-returning expression"),
            example_fix: None,
            confidence: 80,
        },
        PatternKind::Ts1005TemplateLiteral => ErrorPattern {
            id: "TS1005_TEMPLATE_LITERAL",
            description: to_owned("TS1005 caused by template literal without backticks"),
            fix_instruction: to_owned("The ${} syntax requires backticks around the string"),
            example_fix: Some(backtick_suggestion_exec(cl)),
            confidence: 90,
        },
        PatternKind::RustMoveError => ErrorPattern {
            id: "RUST_MOVE_ERROR",
            description: to_owned("Value moved or borrowed incorrectly"),
            fix_instruction: to_owned("Clone the value before using, or use references"),
            example_fix: Some(to_owned("Use .clone() or Arc::clone(&val)")),
            confidence: 85,
        },
        PatternKind::PythonMissingFstring => ErrorPattern {
            id: "PYTHON_MISSING_FSTRING",
            description: to_owned("String interpolation without f-prefix"),
            fix_instruction: to_owned("Add 'f' prefix before the string"),
            example_fix: Some(to_owned("f\"text {variable}\"")),
            confidence: 75,
        },
    }
}

fn opt_is(code: &Option<String>, text: &str) -> (r: bool)
    ensures
        r == (opt_text(*code) == Some(text@)),
{
    match code {
        Some(c) => crate::text::str_eq(c.as_str(), text),
        None => false,
    }
}

fn detect_kind(cl: &[char], error: &str, code: &Option<String>) -> (r: Option<PatternKind>)
    ensures
        r == detected_kind(cl@, error@, opt_text(*code)),
{
    let line = string_of(cl);
    let lc_text = to_lowercase(error);
    let lc = chars_of(lc_text.as_str());
    if is_match(TEMPLATE_EXPRESSION, line.as_str()) && (count(cl, '`') == 0 || has_unquoted_template_literal(cl)) {
        return Some(PatternKind::TemplateLiteralNoBackticks);
    }
    if contains_str(&lc, "promise") && (contains_str(&lc, "not assignable") || contains_str(&lc, "is not a function"))
        && (contains_str(cl, "Promise") || is_match(PROMISE_TYPE, line.as_str())) {
        return Some(PatternKind::MissingAwait);
    }
    if opt_is(code, "TS1005") && contains_str(cl, "${") && !contains_char(cl, '`') {
        return Some(PatternKind::Ts1005TemplateLiteral);
    }
    if opt_is(code, "E0382") || opt_is(code, "E0505") {
        return Some(PatternKind::RustMoveError);
    }
    let ts = trimmed_start(cl);
    if contains_char(cl, '{') && contains_char(cl, '}') && !(ts.len() > 0 && ts[0] == 'f') && (contains_char(cl, '"')
        || contains_char(cl, '\'')) {
        return Some(PatternKind::PythonMissingFstring);
    }
    None
}

/// Extracts error contexts from code, given error messages.
#[derive(Debug, Clone, Copy)]
pub struct ErrorContextExtractor;

impl Default for ErrorContextExtractor {
    fn default() -> (r: Self) {
        ErrorContextExtractor
    }
}

impl ErrorContextExtractor {
    /// An extractor.
    pub fn new() -> (r: Self) {
        ErrorContextExtractor
    }

    /// The context of one error in the code: its location, code and
    /// message, the faulty line with two lines on either side, and the
    /// problem detected on that line.
    pub fn extract(&self, code: &str, error: &str) -> (r: Option<ErrorContext>)
        ensures
            r matches Some(c) && extracted(c, code@, error@),
    {
        let cs = chars_of(code);
        let ls = split_lines(&cs);
        let ghost lv = lines(code@);
        let (file, line, column) = location(error);
        let error_code = error_code(error);
        let code_line: Option<Vec<char>> = match line {
            Some(n) => if 1 <= n && (n as usize) <= ls.len() {
                Some(ls[(n - 1) as usize].clone())
            } else {
                None
            },
            None => None,
        };
        let lines_before = match line {
            Some(n) => context_lines(&ls, n, -2, -1),
            None => Vec::new(),
        };
        let lines_after = match line {
            Some(n) => context_lines(&ls, n, 1, 2),
            None => Vec::new(),
        };
        let detected_pattern = match &code_line {
            Some(cl) => match detect_kind(cl, error, &error_code) {
                Some(k) => Some(make_pattern(k, cl)),
                None => None,
            },
            None => None,
        };
        let code_text = match &code_line {
            Some(cl) => Some(string_of(cl)),
            None => None,
        };
        proof {
            assert(char_views(ls@) == lv);
            match line {
                Some(n) => {
                    if 1 <= n && n <= ls@.len() {
                        assert(ls@[n - 1]@ == lv[n - 1]);
                    }
                },
                None => {},
            }
        }
        let c = ErrorContext {
            error_message: to_owned(error),
            file,
            line,
            column,
            code_line: code_text,
            lines_before,
            lines_after,
            error_code,
            detected_pattern,
        };
        proof {
            let loc = error_location(error@);
            assert(c.error_message@ == error@);
            assert(opt_text(c.file) == loc.0);
            assert(c.line == loc.1);
            assert(c.column == loc.2);
            assert(opt_text(c.code_line) == line_at(lv, loc.1));
            assert(numbered_views(c.lines_before@) == context_around(lv, loc.1, -2, -1));
            assert(numbered_views(c.lines_after@) == context_around(lv, loc.1, 1, 2));
            assert(opt_text(c.error_code) == error_code_of(error@));
        }
        Some(c)
    }

    /// The contexts of all errors, in order.
    pub fn extract_all(&self, code: &str, errors: &[String]) -> (r: Vec<ErrorContext>)
        ensures
            r@.len() == errors@.len(),
            forall|i: int| 0 <= i < r@.len() ==> extracted(#[trigger] r@[i], code@, errors@[i]@),
    {
        let mut r: Vec<ErrorContext> = Vec::new();
        let mut j: usize = 0;
        while j < errors.len()
            invariant
                0 <= j <= errors@.len(),
                r@.len() == j,
                forall|i: int| 0 <= i < j ==> extracted(#[trigger] r@[i], code@, errors@[i]@),
            decreases errors@.len() - j,
        {
            match self.extract(code, errors[j].as_str()) {
                Some(c) => {
                    r.push(c);
                },
                None => {},
            }
            j = j + 1;
        }
        r
    }
}


// ============================================================================
// REPAIR SUGGESTIONS
// ============================================================================

/// An error constructor whose argument is unquoted text holding `${...}`.
pub const UNQUOTED_ERROR_TEMPLATE: &'static str = "Error\\(([^`\"'][^)]*\\$\\{[^}]+\\}[^)]*)\\)";
/// An error constructor whose argument is a double-quoted text holding `${...}`.
pub const DOUBLE_QUOTED_ERROR_TEMPLATE: &'static str = "Error\\(\"([^\"]*\\$\\{[^}]+\\}[^\"]*)\"\\)";
/// An error constructor whose argument is a single-quoted text holding `${...}`.
pub const SINGLE_QUOTED_ERROR_TEMPLATE: &'static str = "Error\\('([^']*\\$\\{[^}]+\\}[^']*)'\\)";

/// A concrete repair suggestion.
#[derive(Debug, Clone)]
pub struct RepairSuggestion {
    /// Which line to fix.
    pub line: Option<u32>,
    /// Original code.
    pub original: String,
    /// Suggested replacement.
    pub suggested: String,
    /// Explanation.
    pub explanation: String,
    /// Confidence, in percent.
    pub confidence: u32,
}

/// A suggestion as plain values: line, original, suggested, explanation
/// and confidence.
pub open spec fn sview(s: RepairSuggestion) -> (Option<u32>, Seq<char>, Seq<char>, Seq<char>, u32) {
    (s.line, s.original@, s.suggested@, s.explanation@, s.confidence)
}

/// Suggestions as plain values.
pub open spec fn sviews(v: Seq<RepairSuggestion>) -> Seq<(Option<u32>, Seq<char>, Seq<char>, Seq<char>, u32)> {
    v.map_values(|s: RepairSuggestion| sview(s))
}

/// Every non-overlapping occurrence of `pat` in `s`, from left to right,
/// replaced by `rep`.
pub open spec fn replace_all(s: Seq<char>, pat: Seq<char>, rep: Seq<char>) -> Seq<char>
    decreases s.len(),
{
    if pat.len() == 0 {
        s
    } else {
        match first_occurrence(s, pat) {
            Some(i) => if 0 <= i && i + pat.len() <= s.len() {
                s.take(i) + rep + replace_all(s.skip(i + pat.len()), pat, rep)
            } else {
                s
            },
            None => s,
        }
    }
}

/// `s` with every `pat` replaced by `rep`.
fn replace_all_exec(s: &[char], pat: &[char], rep: &[char]) -> (r: Vec<char>)
    requires
        pat@.len() > 0,
    ensures
        r@ == replace_all(s@, pat@, rep@),
{
    let mut out: Vec<char> = Vec::new();
    let mut pos: usize = 0;
    assert(s@.skip(0) =~= s@);
    while pos < s.len()
        invariant
            pos <= s@.len(),
            pat@.len() > 0,
            out@ + replace_all(s@.skip(pos as int), pat@, rep@) == replace_all(s@, pat@, rep@),
        decreases s@.len() - pos,
    {
        let rest = slice_range(s, pos, s.len());
        assert(rest@ =~= s@.skip(pos as int));
        match find(&rest, pat) {
            Some(i) => {
                proof {
                    crate::text::lemma_first_occurrence_from(rest@, pat@, 0);
                }
                let ghost before = out@;
                let head = slice_range(&rest, 0, i);
                crate::pipeline::blocks::push_chars(&mut out, &head);
                crate::pipeline::blocks::push_chars(&mut out, rep);
                proof {
                    assert(rest@.skip(i + pat@.len()) =~= s@.skip(pos + i + pat@.len()));
                    assert(out@ =~= before + rest@.take(i as int) + rep@);
                }
                pos = pos + i + pat.len();
            },
            None => {
                crate::pipeline::blocks::push_chars(&mut out, &rest);
                assert(s@.skip(s@.len() as int) =~= Seq::<char>::empty());
                assert(replace_all(s@.skip(s@.len() as int), pat@, rep@) == Seq::<char>::empty()) by {
                    reveal_with_fuel(replace_all, 2);
                }
                pos = s.len();
            },
        }
    }
    assert(s@.skip(pos as int) =~= Seq::<char>::empty());
    assert(replace_all(Seq::<char>::empty(), pat@, rep@) == Seq::<char>::empty());
    out
}

/// The line with the first applicable pattern's error constructor
/// rewritten with backticks, where the pattern's captured argument `g`
/// appears as `Error(<open>g<close>)`.
pub open spec fn requoted_error(line: Seq<char>, pattern: Seq<char>, open: Seq<char>, close: Seq<char>, otherwise: Seq<char>) -> Seq<char> {
    match regex_captures(pattern, line) {
        Some(m) => replace_all(
            line,
            "Error("@ + open + group_text(m, 1) + close + ")"@,
            "Error(`"@ + group_text(m, 1) + "`)"@,
        ),
        None => otherwise,
    }
}

/// A line with the template literal of its error constructor wrapped in
/// backticks: tried for an unquoted argument, then a double-quoted one,
/// then a single-quoted one, each on the original line, the last that
/// applies winning.
pub open spec fn template_fix_text(line: Seq<char>) -> Seq<char> {
    let r1 = requoted_error(line, UNQUOTED_ERROR_TEMPLATE@, seq![], seq![], line);
    let r2 = requoted_error(line, DOUBLE_QUOTED_ERROR_TEMPLATE@, "\""@, "\""@, r1);
    requoted_error(line, SINGLE_QUOTED_ERROR_TEMPLATE@, "'"@, "'"@, r2)
}

fn requote_error(line: &str, pattern: &str, open: &str, close: &str, otherwise: Vec<char>) -> (r: Vec<char>)
    ensures
        r@ == requoted_error(line@, pattern@, open@, close@, otherwise@),
{
    match captures(pattern, line) {
        Some(m) => {
            let g = match group_at(&m, 1) {
                Some(t) => t.clone(),
                None => String::new(),
            };
            let mut from = to_owned("Error(");
            append(&mut from, open);
            append(&mut from, g.as_str());
            append(&mut from, close);
            append(&mut from, ")");
            let mut to = to_owned("Error(`");
            append(&mut to, g.as_str());
            append(&mut to, "`)");
            let lc = chars_of(line);
            let fc = chars_of(from.as_str());
            let tc = chars_of(to.as_str());
            proof {
                reveal_strlit("Error(");
            }
            assert(fc@.len() > 0);
            replace_all_exec(&lc, &fc, &tc)
        },
        None => otherwise,
    }
}

fn fix_template_literal(line: &str) -> (r: String)
    ensures
        r@ == template_fix_text(line@),
{
    let r1 = requote_error(line, UNQUOTED_ERROR_TEMPLATE, "", "", chars_of(line));
    proof {
        reveal_strlit("");
    }
    let r2 = requote_error(line, DOUBLE_QUOTED_ERROR_TEMPLATE, "\"", "\"", r1);
    let r3 = requote_error(line, SINGLE_QUOTED_ERROR_TEMPLATE, "'", "'", r2);
    string_of(&r3)
}

/// A line with `await` added: after ` = ` in a `const` or `let`
/// declaration, or after `return`, unless already awaited; otherwise the
/// line as it is.
pub open spec fn await_text(line: Seq<char>) -> Seq<char> {
    let t = trim(line);
    let declared = if has_prefix(t, "const "@) || has_prefix(t, "let "@) {
        match first_occurrence(t, " = "@) {
            Some(eq) => if !has_prefix(trim_start(t.skip(eq + 3)), "await "@) {
                Some(t.take(eq + 3) + "await "@ + t.skip(eq + 3))
            } else {
                None
            },
            None => None,
        }
    } else {
        None
    };
    match declared {
        Some(x) => x,
        None => if has_prefix(t, "return "@) && !has_prefix(trim_start(t.skip(7)), "await "@) {
            "return await "@ + t.skip(7)
        } else {
            line
        },
    }
}

fn add_await(line: &str) -> (r: String)
    ensures
        r@ == await_text(line@),
{
    let lc = chars_of(line);
    let t = trimmed(&lc);
    proof {
        reveal_strlit("const ");
        reveal_strlit("let ");
        reveal_strlit(" = ");
        reveal_strlit("return ");
    }
    if starts_with_str(&t, "const ") || starts_with_str(&t, "let ") {
        let eqp = chars_of(" = ");
        match find(&t, &eqp) {
            Some(eq) => {
                proof {
                    crate::text::lemma_first_occurrence_from(t@, eqp@, 0);
                }
                assert(occurs_at(t@, eqp@, eq as int));
                assert(eqp@.len() == 3);
                let tl: usize = t.len();
                assert(eq + 3 <= tl);
                let after = slice_range(&t, eq + 3, tl);
                let after_start = trimmed_start(&after);
                if !starts_with_str(&after_start, "await ") {
                    let before = slice_range(&t, 0, eq + 3);
                    let mut r = string_of(&before);
                    append(&mut r, "await ");
                    append_chars(&mut r, &after);
                    assert(after@ =~= t@.skip(eq + 3));
                    assert(before@ =~= t@.take(eq + 3));
                    return r;
                }
                assert(after@ =~= t@.skip(eq + 3));
            },
            None => {},
        }
    }
    if starts_with_str(&t, "return ") {
        let after = slice_range(&t, 7, t.len());
        assert(after@ =~= t@.skip(7));
        let after_start = trimmed_start(&after);
        if !starts_with_str(&after_start, "await ") {
            let mut r = to_owned("return await ");
            append_chars(&mut r, &after);
            return r;
        }
    }
    to_owned(line)
}

/// The explanation of a template-literal suggestion.
pub open spec fn template_explanation() -> Seq<char> {
    "Template literals with ${} require backticks, not quotes"@
}

/// The explanation of an await suggestion.
pub open spec fn await_explanation() -> Seq<char> {
    "Promise-returning functions must be awaited"@
}

/// The suggestion for an error context: for a template literal without
/// backticks (or its TS1005 form) the line with backticks added, for a
/// missing await the line awaited; none for other problems or without a
/// code line.
pub open spec fn suggestion_for(c: ErrorContext) -> Option<(Option<u32>, Seq<char>, Seq<char>, Seq<char>, u32)> {
    match (c.detected_pattern, c.code_line) {
        (Some(p), Some(cl)) => if p.id@ == "TEMPLATE_LITERAL_NO_BACKTICKS"@ || p.id@ == "TS1005_TEMPLATE_LITERAL"@ {
            Some((c.line, cl@, template_fix_text(cl@), template_explanation(), p.confidence))
        } else if p.id@ == "MISSING_AWAIT"@ {
            Some((c.line, cl@, await_text(cl@), await_explanation(), p.confidence))
        } else {
            None
        },
        _ => None,
    }
}

/// The suggestions for error contexts, those that have one, in order.
pub open spec fn suggestions_for(cs: Seq<ErrorContext>) -> Seq<(Option<u32>, Seq<char>, Seq<char>, Seq<char>, u32)>
    decreases cs.len(),
{
    if cs.len() == 0 {
        Seq::empty()
    } else {
        suggestions_for(cs.drop_last()) + match suggestion_for(cs.last()) {
            Some(x) => seq![x],
            None => Seq::empty(),
        }
    }
}

/// Whether a suggestion is sure enough to apply without a model: at least
/// ninety percent confident, with a line and a replacement.
pub open spec fn auto_applicable(s: (Option<u32>, Seq<char>, Seq<char>, Seq<char>, u32)) -> bool {
    s.4 >= 90 && s.0 is Some && s.2.len() > 0
}

impl RepairSuggestion {
    /// The suggestions for all contexts that have one, in order.
    pub fn from_contexts(contexts: &[ErrorContext]) -> (r: Vec<Self>)
        ensures
            sviews(r@) == suggestions_for(contexts@),
    {
        let mut r: Vec<Self> = Vec::new();
        let mut i: usize = 0;
        while i < contexts.len()
            invariant
                i <= contexts@.len(),
                sviews(r@) == suggestions_for(contexts@.take(i as int)),
            decreases contexts.len() - i,
        {
            let ghost before = sviews(r@);
            proof {
                assert(contexts@.take(i + 1).drop_last() =~= contexts@.take(i as int));
                assert(contexts@.take(i + 1).last() == contexts@[i as int]);
            }
            match Self::from_context(&contexts[i]) {
                Some(sg) => {
                    r.push(sg);
                    assert(sviews(r@) =~= before + seq![sview(r@.last())]);
                },
                None => {
                    assert(sviews(r@) =~= before + Seq::empty());
                },
            }
            i = i + 1;
        }
        assert(contexts@.take(contexts@.len() as int) =~= contexts@);
        r
    }

    /// Whether this suggestion can be applied automatically.
    pub fn can_auto_apply(&self) -> (b: bool)
        ensures
            b == auto_applicable(sview(*self)),
    {
        self.confidence >= 90 && self.line.is_some() && chars_of(self.suggested.as_str()).len() > 0
    }

    /// The suggestion for a single context, if its problem has one.
    pub fn from_context(ctx: &ErrorContext) -> (r: Option<Self>)
        ensures
            match suggestion_for(*ctx) {
                Some(x) => r matches Some(s) && sview(s) == x,
                None => r is None,
            },
    {
        let pattern = match &ctx.detected_pattern {
            Some(p) => p,
            None => return None,
        };
        let code_line = match &ctx.code_line {
            Some(cl) => cl,
            None => return None,
        };
        if str_eq(pattern.id, "TEMPLATE_LITERAL_NO_BACKTICKS") || str_eq(pattern.id, "TS1005_TEMPLATE_LITERAL") {
            Some(RepairSuggestion {
                line: ctx.line,
                original: code_line.clone(),
                suggested: fix_template_literal(code_line.as_str()),
                explanation: to_owned("Template literals with ${} require backticks, not quotes"),
                confidence: pattern.confidence,
            })
        } else if str_eq(pattern.id, "MISSING_AWAIT") {
            Some(RepairSuggestion {
                line: ctx.line,
                original: code_line.clone(),
                suggested: add_await(code_line.as_str()),
                explanation: to_owned("Promise-returning functions must be awaited"),
                confidence: pattern.confidence,
            })
        } else {
            None
        }
    }
}


// ============================================================================
// APPLYING SUGGESTIONS
// ============================================================================

/// The width in bytes of a line's leading white space.
pub open spec fn indent_width(line: Seq<char>) -> nat {
    (vstd::utf8::encode_utf8(line).len() - vstd::utf8::encode_utf8(trim_start(line)).len()) as nat
}

/// The lines after one suggestion is tried, and whether it was applied: an
/// automatically applicable suggestion replaces its (1-based) line when
/// that line, trimmed, is the suggestion's original, trimmed; the new line
/// is the trimmed replacement behind as many spaces as the old line's
/// leading white space has bytes.
pub open spec fn apply_one(
    ls: Seq<Seq<char>>,
    s: (Option<u32>, Seq<char>, Seq<char>, Seq<char>, u32),
) -> (Seq<Seq<char>>, bool) {
    match s.0 {
        Some(k) => if auto_applicable(s) && 1 <= k <= ls.len() && trim(ls[k - 1]) == trim(s.1) {
            (ls.update(k - 1, repeat_char(' ', indent_width(ls[k - 1])) + trim(s.2)), true)
        } else {
            (ls, false)
        },
        None => (ls, false),
    }
}

/// The lines after the suggestions are tried in order, and how many were
/// applied.
pub open spec fn apply_all(
    ls: Seq<Seq<char>>,
    ss: Seq<(Option<u32>, Seq<char>, Seq<char>, Seq<char>, u32)>,
) -> (Seq<Seq<char>>, nat)
    decreases ss.len(),
{
    if ss.len() == 0 {
        (ls, 0)
    } else {
        let prev = apply_all(ls, ss.drop_last());
        let step = apply_one(prev.0, ss.last());
        (step.0, prev.1 + if step.1 { 1nat } else { 0nat })
    }
}

/// The code with the suggestions applied, its lines joined by newlines,
/// when at least one was applied.
pub open spec fn surgical_result(code: Seq<char>, ss: Seq<(Option<u32>, Seq<char>, Seq<char>, Seq<char>, u32)>) -> Option<
    Seq<char>,
> {
    let r = apply_all(lines(code), ss);
    if r.1 > 0 {
        Some(join(r.0, "\n"@))
    } else {
        None
    }
}

/// Tries one suggestion on the lines.
fn apply_suggestion(lines_v: &mut Vec<String>, sg: &RepairSuggestion) -> (applied: bool)
    ensures
        (views(final(lines_v)@), applied) == apply_one(views(old(lines_v)@), sview(*sg)),
{
    let ghost lv = views(lines_v@);
    if !sg.can_auto_apply() {
        return false;
    }
    let k = match sg.line {
        Some(k) => k,
        None => return false,
    };
    if k < 1 || (k as usize) > lines_v.len() {
        return false;
    }
    let idx = (k - 1) as usize;
    let current = chars_of(lines_v[idx].as_str());
    let cur_trim = string_of(&trimmed(&current));
    let orig = chars_of(sg.original.as_str());
    let orig_trim = string_of(&trimmed(&orig));
    assert(lv[idx as int] == current@);
    if !str_eq(cur_trim.as_str(), orig_trim.as_str()) {
        return false;
    }
    let start = trimmed_start(&current);
    proof {
        let l = current@;
        let w = crate::text::lead_white(l) as int;
        crate::text::lemma_lead_white_bound(l);
        assert(l =~= l.subrange(0, w) + trim_start(l));
        crate::text::lemma_encode_utf8_concat(l.subrange(0, w), trim_start(l));
    }
    let width = utf8_width(&current) - utf8_width(&start);
    let mut new_line = repeat(' ', width);
    let sugg = chars_of(sg.suggested.as_str());
    append_chars(&mut new_line, &trimmed(&sugg));
    lines_v.set(idx, new_line);
    assert(views(lines_v@) =~= lv.update(idx as int, repeat_char(' ', indent_width(lv[idx as int])) + trim(sg.suggested@)));
    true
}

impl SurgicalRepair {
    /// Apply the automatically applicable suggestions to the code: the
    /// code with them applied when at least one was, nothing otherwise.
    pub fn apply(code: &str, suggestions: &[RepairSuggestion]) -> (r: Option<String>)
        ensures
            match surgical_result(code@, sviews(suggestions@)) {
                Some(t) => r matches Some(x) && x@ == t,
                None => r is None,
            },
    {
        let cs = chars_of(code);
        let ls = split_lines(&cs);
        let mut lines_v: Vec<String> = Vec::new();
        let mut i: usize = 0;
        while i < ls.len()
            invariant
                i <= ls@.len(),
                views(lines_v@) == char_views(ls@).take(i as int),
            decreases ls.len() - i,
        {
            let ghost before = views(lines_v@);
            lines_v.push(string_of(ls[i].as_slice()));
            assert(views(lines_v@) =~= before.push(char_views(ls@)[i as int]));
            assert(char_views(ls@).take(i + 1) =~= char_views(ls@).take(i as int).push(char_views(ls@)[i as int]));
            i = i + 1;
        }
        assert(char_views(ls@).take(ls@.len() as int) =~= char_views(ls@));
        let ghost ss = sviews(suggestions@);
        let mut applied: usize = 0;
        let mut j: usize = 0;
        while j < suggestions.len()
            invariant
                j <= suggestions@.len(),
                ss == sviews(suggestions@),
                applied <= j,
                (views(lines_v@), applied as nat) == apply_all(lines(code@), ss.take(j as int)),
            decreases suggestions.len() - j,
        {
            proof {
                assert(ss.take(j + 1).drop_last() =~= ss.take(j as int));
                assert(ss.take(j + 1).last() == sview(suggestions@[j as int]));
            }
            if apply_suggestion(&mut lines_v, &suggestions[j]) {
                applied = applied + 1;
            }
            j = j + 1;
        }
        assert(ss.take(ss.len() as int) =~= ss);
        if applied > 0 {
            Some(join_strings(lines_v.as_slice(), "\n"))
        } else {
            None
        }
    }
}


// ============================================================================
// FOCUSED PROMPTS
// ============================================================================

/// A suggestion as plain values.
pub type SuggestionView = (Option<u32>, Seq<char>, Seq<char>, Seq<char>, u32);

/// What a prompt shows of an error context: its line, and its text.
pub open spec fn ctx_summary(c: ErrorContext) -> (Option<u32>, Seq<char>) {
    (c.line, context_text(c))
}

/// What a prompt shows of error contexts.
pub open spec fn ctx_summaries(v: Seq<ErrorContext>) -> Seq<(Option<u32>, Seq<char>)> {
    v.map_values(|c: ErrorContext| ctx_summary(c))
}

/// The first suggestion for a line, if any.
pub open spec fn first_for_line(ss: Seq<SuggestionView>, line: Option<u32>) -> Option<SuggestionView>
    decreases ss.len(),
{
    if ss.len() == 0 {
        None
    } else if ss[0].0 == line {
        Some(ss[0])
    } else {
        first_for_line(ss.drop_first(), line)
    }
}

/// The repair suggestion shown under an error.
pub open spec fn suggestion_block(o: Option<SuggestionView>) -> Seq<char> {
    match o {
        Some(s) => "\n"@ + "    REPAIR SUGGESTION:\n"@ + "    Current:  "@ + trim(s.1) + "\n"@ + "    Fix to:   "@ + trim(s.2)
            + "\n"@ + "    Why: "@ + s.3 + "\n"@,
        None => Seq::empty(),
    }
}

/// The errors of a prompt, numbered from one, each with its suggestion.
pub open spec fn errors_text(cs: Seq<(Option<u32>, Seq<char>)>, ss: Seq<SuggestionView>) -> Seq<char>
    decreases cs.len(),
{
    if cs.len() == 0 {
        Seq::empty()
    } else {
        errors_text(cs.drop_last(), ss) + "--- Error "@ + decimal(cs.len()) + " ---\n"@ + cs.last().1 + suggestion_block(
            first_for_line(ss, cs.last().0),
        ) + "\n\n"@
    }
}

/// The syntax rules a prompt recalls for a language.
pub open spec fn rules_text(l: Language) -> Seq<char> {
    match l {
        Language::TypeScript | Language::JavaScript => "TypeScript/JavaScript:\n"@
            + "  - Template literals: `text ${var}` (BACKTICKS required)\n"@
            + "  - WRONG: \"text ${var}\" or 'text ${var}' or Error(text ${var})\n"@
            + "  - RIGHT: `text ${var}` or Error(`text ${var}`)\n"@,
        Language::Python => "Python:\n"@ + "  - f-strings: f\"text {var}\" (f prefix required)\n"@
            + "  - WRONG: \"text {var}\"\n"@ + "  - RIGHT: f\"text {var}\"\n"@,
        Language::Rust => "Rust:\n"@ + "  - format!: format!(\"text {}\", var)\n"@ + "  - Clone before move: val.clone()\n"@
            + "  - Arc clone: Arc::clone(&val)\n"@,
        Language::Go => "Go:\n"@ + "  - fmt.Sprintf: fmt.Sprintf(\"text %v\", var)\n"@,
        _ => Seq::empty(),
    }
}

/// The task as a prompt shows it: its first five lines.
pub open spec fn task_block(task: Option<Seq<char>>) -> Seq<char> {
    match task {
        Some(t) => "TASK: "@ + join(lines(t).take(if lines(t).len() < 5 { lines(t).len() as int } else { 5 }), "\n"@)
            + "\n\n"@,
        None => Seq::empty(),
    }
}

/// The instructions closing a prompt.
pub open spec fn instructions_text() -> Seq<char> {
    "\n=== INSTRUCTIONS ===\n\n"@ + "1. Fix ONLY the errors shown above\n"@ + "2. Apply the repair suggestions where provided\n"@
        + "3. Return the COMPLETE corrected code\n"@ + "4. NO markdown, NO explanations\n"@
}

/// The full code at the end of a prompt.
pub open spec fn code_block(code: Option<Seq<char>>) -> Seq<char> {
    match code {
        Some(c) => "\n=== YOUR CODE (fix and return complete) ===\n\n"@ + c,
        None => Seq::empty(),
    }
}

/// A focused repair prompt: the header, the task, each error with its
/// suggestion, the language's syntax rules, the instructions, and the
/// full code.
pub open spec fn focused_prompt_text(
    task: Option<Seq<char>>,
    cs: Seq<(Option<u32>, Seq<char>)>,
    ss: Seq<SuggestionView>,
    l: Language,
    code: Option<Seq<char>>,
) -> Seq<char> {
    "=== CODE REPAIR REQUIRED ===\n\n"@ + task_block(task) + "=== ERRORS TO FIX ===\n\n"@ + errors_text(cs, ss)
        + "=== SYNTAX RULES ===\n\n"@ + rules_text(l) + instructions_text() + code_block(code)
}

/// The fixes of a minimal prompt: each suggestion with a line.
pub open spec fn minimal_fixes_text(ss: Seq<SuggestionView>) -> Seq<char>
    decreases ss.len(),
{
    if ss.len() == 0 {
        Seq::empty()
    } else {
        minimal_fixes_text(ss.drop_last()) + minimal_fix(ss.last())
    }
}

/// One fix of a minimal prompt, for a suggestion with a line.
pub open spec fn minimal_fix(s: SuggestionView) -> Seq<char> {
    match s.0 {
        Some(l) => "Line "@ + decimal(l as nat) + ": Change\n"@ + "  FROM: "@ + trim(s.1) + "\n"@ + "  TO:   "@ + trim(s.2)
            + "\n"@ + "  ("@ + s.3 + "))\n\n"@,
        None => Seq::empty(),
    }
}

/// A minimal prompt: just the fixes needed.
pub open spec fn minimal_fix_prompt_text(ss: Seq<SuggestionView>) -> Seq<char> {
    "FIX THESE SPECIFIC ISSUES:\n\n"@ + minimal_fixes_text(ss) + "Apply these fixes and return the complete corrected code.\n"@
}

fn copy_option(o: &Option<String>) -> (r: Option<String>)
    ensures
        r == *o,
{
    match o {
        Some(s) => Some(s.clone()),
        None => None,
    }
}

fn copy_numbered(v: &Vec<(u32, String)>) -> (r: Vec<(u32, String)>)
    ensures
        numbered_views(r@) == numbered_views(v@),
{
    let mut r: Vec<(u32, String)> = Vec::new();
    let mut i: usize = 0;
    while i < v.len()
        invariant
            i <= v@.len(),
            numbered_views(r@) == numbered_views(v@).take(i as int),
        decreases v.len() - i,
    {
        let ghost before = numbered_views(r@);
        r.push((v[i].0, v[i].1.clone()));
        assert(numbered_views(r@) =~= before.push((v@[i as int].0, v@[i as int].1@)));
        assert(numbered_views(v@).take(i + 1) =~= numbered_views(v@).take(i as int).push(numbered_views(v@)[i as int]));
        i = i + 1;
    }
    assert(numbered_views(v@).take(v@.len() as int) =~= numbered_views(v@));
    r
}

fn copy_pattern(p: &Option<ErrorPattern>) -> (r: Option<ErrorPattern>)
    ensures
        r == *p,
{
    match p {
        Some(p) => Some(ErrorPattern {
            id: p.id,
            description: p.description.clone(),
            fix_instruction: p.fix_instruction.clone(),
            example_fix: copy_option(&p.example_fix),
            confidence: p.confidence,
        }),
        None => None,
    }
}

fn copy_context(c: &ErrorContext) -> (r: ErrorContext)
    ensures
        ctx_summary(r) == ctx_summary(*c),
{
    let r = ErrorContext {
        error_message: c.error_message.clone(),
        file: copy_option(&c.file),
        line: c.line,
        column: c.column,
        code_line: copy_option(&c.code_line),
        lines_before: copy_numbered(&c.lines_before),
        lines_after: copy_numbered(&c.lines_after),
        error_code: copy_option(&c.error_code),
        detected_pattern: copy_pattern(&c.detected_pattern),
    };
    assert(context_text(r) == context_text(*c));
    r
}

fn copy_contexts(v: &[ErrorContext]) -> (r: Vec<ErrorContext>)
    ensures
        ctx_summaries(r@) == ctx_summaries(v@),
{
    let mut r: Vec<ErrorContext> = Vec::new();
    let mut i: usize = 0;
    while i < v.len()
        invariant
            i <= v@.len(),
            ctx_summaries(r@) == ctx_summaries(v@).take(i as int),
        decreases v.len() - i,
    {
        let ghost before = ctx_summaries(r@);
        r.push(copy_context(&v[i]));
        assert(ctx_summaries(r@) =~= before.push(ctx_summary(v@[i as int])));
        assert(ctx_summaries(v@).take(i + 1) =~= ctx_summaries(v@).take(i as int).push(ctx_summaries(v@)[i as int]));
        i = i + 1;
    }
    assert(ctx_summaries(v@).take(v@.len() as int) =~= ctx_summaries(v@));
    r
}

fn copy_suggestions(v: &[RepairSuggestion]) -> (r: Vec<RepairSuggestion>)
    ensures
        sviews(r@) == sviews(v@),
{
    let mut r: Vec<RepairSuggestion> = Vec::new();
    let mut i: usize = 0;
    while i < v.len()
        invariant
            i <= v@.len(),
            sviews(r@) == sviews(v@).take(i as int),
        decreases v.len() - i,
    {
        let ghost before = sviews(r@);
        r.push(RepairSuggestion {
            line: v[i].line,
            original: v[i].original.clone(),
            suggested: v[i].suggested.clone(),
            explanation: v[i].explanation.clone(),
            confidence: v[i].confidence,
        });
        assert(sviews(r@) =~= before.push(sview(v@[i as int])));
        assert(sviews(v@).take(i + 1) =~= sviews(v@).take(i as int).push(sviews(v@)[i as int]));
        i = i + 1;
    }
    assert(sviews(v@).take(v@.len() as int) =~= sviews(v@));
    r
}

/// Builds focused prompts that show only the problem areas.
#[derive(Debug)]
pub struct FocusedPromptBuilder {
    contexts: Vec<ErrorContext>,
    suggestions: Vec<RepairSuggestion>,
    full_code: Option<String>,
    language: Language,
    task_description: Option<String>,
}

fn push_minimal_fix(prompt: &mut String, s: &RepairSuggestion)
    ensures
        final(prompt)@ == old(prompt)@ + minimal_fix(sview(*s)),
{
    match s.line {
        Some(line) => {
            append(prompt, "Line ");
            push_decimal(prompt, line as u64);
            append(prompt, ": Change\n");
            append(prompt, "  FROM: ");
            append_chars(prompt, &trimmed(&chars_of(s.original.as_str())));
            append(prompt, "\n");
            append(prompt, "  TO:   ");
            append_chars(prompt, &trimmed(&chars_of(s.suggested.as_str())));
            append(prompt, "\n");
            append(prompt, "  (");
            append(prompt, s.explanation.as_str());
            append(prompt, "))\n\n");
        },
        None => {},
    }
    assert(prompt@ =~= old(prompt)@ + minimal_fix(sview(*s)));
}

impl FocusedPromptBuilder {
    /// What the builder shows of its error contexts.
    pub closed spec fn shown_contexts(&self) -> Seq<(Option<u32>, Seq<char>)> {
        ctx_summaries(self.contexts@)
    }

    /// The builder's suggestions.
    pub closed spec fn shown_suggestions(&self) -> Seq<SuggestionView> {
        sviews(self.suggestions@)
    }

    /// The builder's full code, if set.
    pub closed spec fn shown_code(&self) -> Option<Seq<char>> {
        opt_text(self.full_code)
    }

    /// The builder's language.
    pub closed spec fn shown_language(&self) -> Language {
        self.language
    }

    /// The builder's task, if set.
    pub closed spec fn shown_task(&self) -> Option<Seq<char>> {
        opt_text(self.task_description)
    }

    /// A builder with nothing set, for TypeScript.
    pub fn new() -> (r: Self)
        ensures
            r.shown_contexts().len() == 0,
            r.shown_suggestions().len() == 0,
            r.shown_code() is None,
            r.shown_language() == Language::TypeScript,
            r.shown_task() is None,
    {
        let r = FocusedPromptBuilder {
            contexts: Vec::new(),
            suggestions: Vec::new(),
            full_code: None,
            language: Language::TypeScript,
            task_description: None,
        };
        assert(r.shown_contexts() =~= Seq::<(Option<u32>, Seq<char>)>::empty());
        assert(r.shown_suggestions() =~= Seq::<SuggestionView>::empty());
        r
    }

    /// Set the error contexts.
    pub fn with_contexts(self, contexts: &[ErrorContext]) -> (r: Self)
        ensures
            r.shown_contexts() == ctx_summaries(contexts@),
            r.shown_suggestions() == self.shown_suggestions(),
            r.shown_code() == self.shown_code(),
            r.shown_language() == self.shown_language(),
            r.shown_task() == self.shown_task(),
    {
        FocusedPromptBuilder { contexts: copy_contexts(contexts), ..self }
    }

    /// Set the repair suggestions.
    pub fn with_suggestions(self, suggestions: &[RepairSuggestion]) -> (r: Self)
        ensures
            r.shown_contexts() == self.shown_contexts(),
            r.shown_suggestions() == sviews(suggestions@),
            r.shown_code() == self.shown_code(),
            r.shown_language() == self.shown_language(),
            r.shown_task() == self.shown_task(),
    {
        FocusedPromptBuilder { suggestions: copy_suggestions(suggestions), ..self }
    }

    /// Set the full code.
    pub fn with_code(self, code: &str) -> (r: Self)
        ensures
            r.shown_contexts() == self.shown_contexts(),
            r.shown_suggestions() == self.shown_suggestions(),
            r.shown_code() == Some(code@),
            r.shown_language() == self.shown_language(),
            r.shown_task() == self.shown_task(),
    {
        FocusedPromptBuilder { full_code: Some(to_owned(code)), ..self }
    }

    /// Set the language.
    pub fn with_language(self, lang: Language) -> (r: Self)
        ensures
            r.shown_contexts() == self.shown_contexts(),
            r.shown_suggestions() == self.shown_suggestions(),
            r.shown_code() == self.shown_code(),
            r.shown_language() == lang,
            r.shown_task() == self.shown_task(),
    {
        FocusedPromptBuilder { language: lang, ..self }
    }

    /// Set the task description.
    pub fn with_task(self, task: &str) -> (r: Self)
        ensures
            r.shown_contexts() == self.shown_contexts(),
            r.shown_suggestions() == self.shown_suggestions(),
            r.shown_code() == self.shown_code(),
            r.shown_language() == self.shown_language(),
            r.shown_task() == Some(task@),
    {
        FocusedPromptBuilder { task_description: Some(to_owned(task)), ..self }
    }

    /// The index of the first suggestion for a line.
    fn suggestion_for_line(&self, line: Option<u32>) -> (r: Option<usize>)
        ensures
            match first_for_line(self.shown_suggestions(), line) {
                Some(s) => r matches Some(i) && i < self.suggestions@.len() && sview(self.suggestions@[i as int]) == s,
                None => r is None,
            },
    {
        let ghost ss = sviews(self.suggestions@);
        let mut i: usize = 0;
        assert(ss.skip(0) =~= ss);
        while i < self.suggestions.len()
            invariant
                i <= self.suggestions@.len(),
                ss == sviews(self.suggestions@),
                first_for_line(ss, line) == first_for_line(ss.skip(i as int), line),
            decreases self.suggestions.len() - i,
        {
            assert(ss.skip(i as int).drop_first() =~= ss.skip(i + 1));
            assert(ss.skip(i as int)[0] == ss[i as int]);
            if self.suggestions[i].line == line {
                return Some(i);
            }
            i = i + 1;
        }
        None
    }

    fn push_suggestion(&self, prompt: &mut String, line: Option<u32>)
        ensures
            final(prompt)@ == old(prompt)@ + suggestion_block(first_for_line(self.shown_suggestions(), line)),
    {
        match self.suggestion_for_line(line) {
            Some(i) => {
                let s = &self.suggestions[i];
                append(prompt, "\n");
                append(prompt, "    REPAIR SUGGESTION:\n");
                append(prompt, "    Current:  ");
                append_chars(prompt, &trimmed(&chars_of(s.original.as_str())));
                append(prompt, "\n");
                append(prompt, "    Fix to:   ");
                append_chars(prompt, &trimmed(&chars_of(s.suggested.as_str())));
                append(prompt, "\n");
                append(prompt, "    Why: ");
                append(prompt, s.explanation.as_str());
                append(prompt, "\n");
                assert(prompt@ =~= old(prompt)@ + suggestion_block(first_for_line(self.shown_suggestions(), line)));
            },
            None => {
                assert(prompt@ =~= old(prompt)@ + suggestion_block(first_for_line(self.shown_suggestions(), line)));
            },
        }
    }

    fn push_error_entry(&self, prompt: &mut String, i: usize)
        requires
            i < self.contexts.len(),
        ensures
            final(prompt)@ == old(prompt)@ + ("--- Error "@ + decimal((i + 1) as nat) + " ---\n"@ + context_text(
                self.contexts@[i as int],
            ) + suggestion_block(first_for_line(self.shown_suggestions(), self.contexts@[i as int].line)) + "\n\n"@),
    {
        append(prompt, "--- Error ");
        let n: usize = i + 1;
        push_decimal(prompt, n as u64);
        append(prompt, " ---\n");
        let text = self.contexts[i].format_for_prompt();
        append(prompt, text.as_str());
        self.push_suggestion(prompt, self.contexts[i].line);
        append(prompt, "\n\n");
        assert(prompt@ =~= old(prompt)@ + ("--- Error "@ + decimal((i + 1) as nat) + " ---\n"@ + context_text(
            self.contexts@[i as int],
        ) + suggestion_block(first_for_line(self.shown_suggestions(), self.contexts@[i as int].line)) + "\n\n"@));
    }

    fn push_errors(&self, prompt: &mut String)
        ensures
            final(prompt)@ == old(prompt)@ + errors_text(self.shown_contexts(), self.shown_suggestions()),
    {
        let ghost cs = self.shown_contexts();
        let ghost p0 = prompt@;
        let mut i: usize = 0;
        while i < self.contexts.len()
            invariant
                i <= self.contexts@.len(),
                cs == self.shown_contexts(),
                cs.len() == self.contexts@.len(),
                prompt@ == p0 + errors_text(cs.take(i as int), self.shown_suggestions()),
            decreases self.contexts.len() - i,
        {
            let ghost before = prompt@;
            self.push_error_entry(prompt, i);
            proof {
                let ss = self.shown_suggestions();
                let t = cs.take(i + 1);
                assert(t.drop_last() =~= cs.take(i as int));
                assert(t.last() == ctx_summary(self.contexts@[i as int]));
                assert(errors_text(t, ss) == errors_text(cs.take(i as int), ss) + ("--- Error "@ + decimal(
                    (i + 1) as nat,
                ) + " ---\n"@ + context_text(self.contexts@[i as int]) + suggestion_block(
                    first_for_line(ss, self.contexts@[i as int].line),
                ) + "\n\n"@));
                assert(prompt@ =~= p0 + errors_text(t, ss));
            }
            i = i + 1;
        }
        assert(cs.take(cs.len() as int) =~= cs);
    }

    fn push_rules(&self, prompt: &mut String)
        ensures
            final(prompt)@ == old(prompt)@ + rules_text(self.shown_language()),
    {
        match self.language {
            Language::TypeScript | Language::JavaScript => {
                append(prompt, "TypeScript/JavaScript:\n");
                append(prompt, "  - Template literals: `text ${var}` (BACKTICKS required)\n");
                append(prompt, "  - WRONG: \"text ${var}\" or 'text ${var}' or Error(text ${var})\n");
                append(prompt, "  - RIGHT: `text ${var}` or Error(`text ${var}`)\n");
            },
            Language::Python => {
                append(prompt, "Python:\n");
                append(prompt, "  - f-strings: f\"text {var}\" (f prefix required)\n");
                append(prompt, "  - WRONG: \"text {var}\"\n");
                append(prompt, "  - RIGHT: f\"text {var}\"\n");
            },
            Language::Rust => {
                append(prompt, "Rust:\n");
                append(prompt, "  - format!: format!(\"text {}\", var)\n");
                append(prompt, "  - Clone before move: val.clone()\n");
                append(prompt, "  - Arc clone: Arc::clone(&val)\n");
            },
            Language::Go => {
                append(prompt, "Go:\n");
                append(prompt, "  - fmt.Sprintf: fmt.Sprintf(\"text %v\", var)\n");
            },
            _ => {},
        }
        assert(prompt@ =~= old(prompt)@ + rules_text(self.shown_language()));
    }

    fn push_task(&self, prompt: &mut String)
        ensures
            final(prompt)@ == old(prompt)@ + task_block(self.shown_task()),
    {
        match &self.task_description {
            Some(task) => {
                let tc = chars_of(task.as_str());
                let ls = split_lines(&tc);
                let n: usize = if ls.len() < 5 { ls.len() } else { 5 };
                let mut first: Vec<String> = Vec::new();
                let mut i: usize = 0;
                while i < n
                    invariant
                        i <= n <= ls@.len(),
                        views(first@) == char_views(ls@).take(i as int),
                    decreases n - i,
                {
                    let ghost before = views(first@);
                    first.push(string_of(ls[i].as_slice()));
                    assert(views(first@) =~= before.push(char_views(ls@)[i as int]));
                    assert(char_views(ls@).take(i + 1) =~= char_views(ls@).take(i as int).push(char_views(ls@)[i as int]));
                    i = i + 1;
                }
                let brief = join_strings(first.as_slice(), "\n");
                append(prompt, "TASK: ");
                append(prompt, brief.as_str());
                append(prompt, "\n\n");
                assert(prompt@ =~= old(prompt)@ + task_block(self.shown_task()));
            },
            None => {
                assert(prompt@ =~= old(prompt)@ + task_block(self.shown_task()));
            },
        }
    }

    /// Build the focused prompt.
    pub fn build(&self) -> (r: String)
        ensures
            r@ == focused_prompt_text(
                self.shown_task(),
                self.shown_contexts(),
                self.shown_suggestions(),
                self.shown_language(),
                self.shown_code(),
            ),
    {
        let mut prompt = String::new();
        append(&mut prompt, "=== CODE REPAIR REQUIRED ===\n\n");
        self.push_task(&mut prompt);
        append(&mut prompt, "=== ERRORS TO FIX ===\n\n");
        self.push_errors(&mut prompt);
        append(&mut prompt, "=== SYNTAX RULES ===\n\n");
        self.push_rules(&mut prompt);
        let ghost before = prompt@;
        append(&mut prompt, "\n=== INSTRUCTIONS ===\n\n");
        append(&mut prompt, "1. Fix ONLY the errors shown above\n");
        append(&mut prompt, "2. Apply the repair suggestions where provided\n");
        append(&mut prompt, "3. Return the COMPLETE corrected code\n");
        append(&mut prompt, "4. NO markdown, NO explanations\n");
        assert(prompt@ =~= before + instructions_text());
        let ghost before2 = prompt@;
        match &self.full_code {
            Some(code) => {
                append(&mut prompt, "\n=== YOUR CODE (fix and return complete) ===\n\n");
                append(&mut prompt, code.as_str());
            },
            None => {},
        }
        assert(prompt@ =~= before2 + code_block(self.shown_code()));
        assert(prompt@ =~= focused_prompt_text(
            self.shown_task(),
            self.shown_contexts(),
            self.shown_suggestions(),
            self.shown_language(),
            self.shown_code(),
        ));
        prompt
    }

    /// Build a minimal prompt with just the fixes needed.
    pub fn build_minimal(&self) -> (r: String)
        ensures
            r@ == minimal_fix_prompt_text(self.shown_suggestions()),
    {
        let ghost ss = self.shown_suggestions();
        let mut prompt = to_owned("FIX THESE SPECIFIC ISSUES:\n\n");
        let ghost p0 = prompt@;
        let mut i: usize = 0;
        while i < self.suggestions.len()
            invariant
                i <= self.suggestions@.len(),
                ss == self.shown_suggestions(),
                ss == sviews(self.suggestions@),
                prompt@ == p0 + minimal_fixes_text(ss.take(i as int)),
            decreases self.suggestions.len() - i,
        {
            proof {
                assert(ss.take(i + 1).drop_last() =~= ss.take(i as int));
                assert(ss.take(i + 1).last() == sview(self.suggestions@[i as int]));
            }
            push_minimal_fix(&mut prompt, &self.suggestions[i]);
            assert(prompt@ =~= p0 + minimal_fixes_text(ss.take(i + 1)));
            i = i + 1;
        }
        assert(ss.take(ss.len() as int) =~= ss);
        append(&mut prompt, "Apply these fixes and return the complete corrected code.\n");
        prompt
    }
}


// ============================================================================
// THE REPAIR ENGINE
// ============================================================================

/// The sum of the suggestions' confidences.
pub open spec fn confidence_sum(ss: Seq<SuggestionView>) -> nat
    decreases ss.len(),
{
    if ss.len() == 0 {
        0
    } else {
        confidence_sum(ss.drop_last()) + ss.last().4 as nat
    }
}

/// The mean confidence of the suggestions, rounded down; zero without
/// suggestions.
pub open spec fn mean_confidence(ss: Seq<SuggestionView>) -> nat {
    if ss.len() == 0 {
        0
    } else {
        confidence_sum(ss) / ss.len()
    }
}

/// Whether the suggestions are, on average, at least ninety percent sure.
pub open spec fn sure_enough(ss: Seq<SuggestionView>) -> bool {
    ss.len() > 0 && confidence_sum(ss) >= 90 * ss.len()
}

/// How many suggestions can be applied automatically.
pub open spec fn auto_count(ss: Seq<SuggestionView>) -> nat
    decreases ss.len(),
{
    if ss.len() == 0 {
        0
    } else {
        auto_count(ss.drop_last()) + if auto_applicable(ss.last()) { 1nat } else { 0nat }
    }
}

/// The surgical repair of an analysis and the number of fixes it counts:
/// when the suggestions are sure enough and there is code, the suggestions
/// applied directly (counting those applicable), or else, for TypeScript
/// and JavaScript, the template-literal repair when it changed some line
/// (and no line's repair got stuck); nothing otherwise.
pub open spec fn surgical_outcome(code: Seq<char>, ss: Seq<SuggestionView>, l: Language) -> (Option<Seq<char>>, nat) {
    if sure_enough(ss) && code.len() > 0 {
        match surgical_result(code, ss) {
            Some(t) => (Some(t), auto_count(ss)),
            None => if (l == Language::TypeScript || l == Language::JavaScript) && repairable(code)
                && template_repair(code).1 > 0 {
                (Some(template_repair(code).0), template_repair(code).1)
            } else {
                (None, 0)
            },
        }
    } else {
        (None, 0)
    }
}

/// The result of a repair analysis.
#[derive(Debug)]
pub struct RepairAnalysis {
    /// Extracted error contexts.
    pub contexts: Vec<ErrorContext>,
    /// Generated repair suggestions.
    pub suggestions: Vec<RepairSuggestion>,
    /// The prompt built for a model.
    pub prompt: String,
    /// The suggestions' mean confidence, in percent.
    pub confidence: u32,
    /// Whether any repair was suggested.
    pub has_suggestions: bool,
    /// The code repaired surgically, if high-confidence fixes applied.
    pub surgical_fix: Option<String>,
    /// The number of fixes the surgical repair counts.
    pub surgical_fix_count: usize,
}

/// The main entry point of the repair engine.
#[derive(Debug, Clone, Copy)]
pub struct RepairEngine {
    extractor: ErrorContextExtractor,
}

fn opt_str_view(o: Option<&str>) -> (r: Option<String>)
    ensures
        opt_text(r) == match o {
            Some(t) => Some(t@),
            None => None::<Seq<char>>,
        },
{
    match o {
        Some(t) => Some(to_owned(t)),
        None => None,
    }
}

impl RepairEngine {
    /// An engine.
    pub fn new() -> (r: Self) {
        RepairEngine { extractor: ErrorContextExtractor::new() }
    }

    fn confidence_of(suggestions: &Vec<RepairSuggestion>) -> (r: u32)
        ensures
            r == mean_confidence(sviews(suggestions@)),
    {
        let ghost ss = sviews(suggestions@);
        let mut sum: u128 = 0;
        let mut i: usize = 0;
        while i < suggestions.len()
            invariant
                i <= suggestions@.len(),
                ss == sviews(suggestions@),
                sum == confidence_sum(ss.take(i as int)),
                sum <= i * 0xffff_ffff,
            decreases suggestions.len() - i,
        {
            proof {
                assert(ss.take(i + 1).drop_last() =~= ss.take(i as int));
                assert(ss.take(i + 1).last() == sview(suggestions@[i as int]));
                assert(i * 0xffff_ffff + 0xffff_ffff == (i + 1) * 0xffff_ffff) by (nonlinear_arith);
                assert(i * 0xffff_ffff <= 0xffff_ffff_ffff_ffff * 0xffff_ffff) by (nonlinear_arith)
                    requires
                        i <= 0xffff_ffff_ffff_ffff,
                ;
            }
            sum = sum + suggestions[i].confidence as u128;
            i = i + 1;
        }
        assert(ss.take(ss.len() as int) =~= ss);
        if suggestions.len() == 0 {
            0
        } else {
            let n = suggestions.len() as u128;
            let mean = sum / n;
            assert(mean <= 0xffff_ffff) by (nonlinear_arith)
                requires
                    sum <= n * 0xffff_ffff,
                    n > 0,
                    mean == sum / n,
            ;
            mean as u32
        }
    }

    fn auto_count_of(suggestions: &Vec<RepairSuggestion>) -> (r: usize)
        ensures
            r == auto_count(sviews(suggestions@)),
    {
        let ghost ss = sviews(suggestions@);
        let mut n: usize = 0;
        let mut i: usize = 0;
        while i < suggestions.len()
            invariant
                i <= suggestions@.len(),
                ss == sviews(suggestions@),
                n <= i,
                n == auto_count(ss.take(i as int)),
            decreases suggestions.len() - i,
        {
            proof {
                assert(ss.take(i + 1).drop_last() =~= ss.take(i as int));
                assert(ss.take(i + 1).last() == sview(suggestions@[i as int]));
            }
            if suggestions[i].can_auto_apply() {
                n = n + 1;
            }
            i = i + 1;
        }
        assert(ss.take(ss.len() as int) =~= ss);
        n
    }

    fn surgical(code: &str, suggestions: &Vec<RepairSuggestion>, confidence_ok: bool, language: Language) -> (r: (
        Option<String>,
        usize,
    ))
        requires
            confidence_ok == sure_enough(sviews(suggestions@)),
        ensures
            (opt_text(r.0), r.1 as nat) == surgical_outcome(code@, sviews(suggestions@), language),
    {
        if !(confidence_ok && chars_of(code).len() > 0) {
            return (None, 0);
        }
        match SurgicalRepair::apply(code, suggestions.as_slice()) {
            Some(fixed) => (Some(fixed), Self::auto_count_of(suggestions)),
            None => match language {
                Language::TypeScript | Language::JavaScript => match SurgicalRepair::try_fix_template_literals(code) {
                    Some((fixed, count)) => if count > 0 {
                        (Some(fixed), count)
                    } else {
                        (None, 0)
                    },
                    None => (None, 0),
                },
                _ => (None, 0),
            },
        }
    }

    /// Analyze errors in some code: their contexts, the suggestions drawn
    /// from them, a focused prompt (with the task, when given), the mean
    /// confidence, and a surgical repair when one is sure enough.
    pub fn analyze(&self, code: &str, errors: &[String], language: Language, task: Option<&str>) -> (r: RepairAnalysis)
        ensures
            r.contexts@.len() == errors@.len(),
            forall|i: int| 0 <= i < errors@.len() ==> extracted(#[trigger] r.contexts@[i], code@, errors@[i]@),
            sviews(r.suggestions@) == suggestions_for(r.contexts@),
            r.prompt@ == focused_prompt_text(
                match task {
                    Some(t) => Some(t@),
                    None => None,
                },
                ctx_summaries(r.contexts@),
                sviews(r.suggestions@),
                language,
                Some(code@),
            ),
            r.confidence == mean_confidence(sviews(r.suggestions@)),
            r.has_suggestions == (r.suggestions@.len() > 0),
            (opt_text(r.surgical_fix), r.surgical_fix_count as nat) == surgical_outcome(
                code@,
                sviews(r.suggestions@),
                language,
            ),
    {
        let contexts = self.extractor.extract_all(code, errors);
        let suggestions = RepairSuggestion::from_contexts(contexts.as_slice());
        let builder = FocusedPromptBuilder::new().with_contexts(contexts.as_slice()).with_suggestions(
            suggestions.as_slice(),
        ).with_code(code).with_language(language);
        let builder = match task {
            Some(t) => builder.with_task(t),
            None => builder,
        };
        let prompt = builder.build();
        let confidence = Self::confidence_of(&suggestions);
        let ghost ss = sviews(suggestions@);
        let n = suggestions.len();
        let confidence_ok = n > 0 && confidence_total_at_least(&suggestions, n);
        let (surgical_fix, surgical_fix_count) = Self::surgical(code, &suggestions, confidence_ok, language);
        let has = suggestions.len() > 0;
        RepairAnalysis {
            contexts,
            suggestions,
            prompt,
            confidence,
            has_suggestions: has,
            surgical_fix,
            surgical_fix_count,
        }
    }
}

/// Whether the confidences of the suggestions add up to at least ninety
/// times their number.
fn confidence_total_at_least(suggestions: &Vec<RepairSuggestion>, n: usize) -> (r: bool)
    requires
        n == suggestions@.len(),
    ensures
        r == (confidence_sum(sviews(suggestions@)) >= 90 * n),
{
    let ghost ss = sviews(suggestions@);
    let mut sum: u128 = 0;
    let mut i: usize = 0;
    while i < suggestions.len()
        invariant
            i <= suggestions@.len(),
            ss == sviews(suggestions@),
            sum == confidence_sum(ss.take(i as int)),
            sum <= i * 0xffff_ffff,
        decreases suggestions.len() - i,
    {
        proof {
            assert(ss.take(i + 1).drop_last() =~= ss.take(i as int));
            assert(ss.take(i + 1).last() == sview(suggestions@[i as int]));
            assert(i * 0xffff_ffff + 0xffff_ffff == (i + 1) * 0xffff_ffff) by (nonlinear_arith);
            assert(i * 0xffff_ffff <= 0xffff_ffff_ffff_ffff * 0xffff_ffff) by (nonlinear_arith)
                requires
                    i <= 0xffff_ffff_ffff_ffff,
            ;
        }
        sum = sum + suggestions[i].confidence as u128;
        i = i + 1;
    }
    assert(ss.take(ss.len() as int) =~= ss);
    sum >= 90 * (n as u128)
}


impl Default for FocusedPromptBuilder {
    fn default() -> (r: Self)
        ensures
            r.shown_contexts().len() == 0,
            r.shown_suggestions().len() == 0,
            r.shown_code() is None,
            r.shown_language() == Language::TypeScript,
            r.shown_task() is None,
    {
        FocusedPromptBuilder::new()
    }
}

impl Default for RepairEngine {
    fn default() -> (r: Self) {
        RepairEngine::new()
    }
}

} // verus!
