//! Documentation lookup for validation errors: the topics to look up for
//! each error, and how a documentation server's answers are read. The
//! requests themselves are sent by the application.
use vstd::prelude::*;
use crate::text::{
    append, chars_of, find, first_occurrence, has_infix, is_white, lemma_first_occurrence_from, slice_range,
    str_eq, string_of, to_owned, trim_start, views, TextLike,
};

verus! {

broadcast use vstd::seq::group_seq_axioms;

// ============================================================================
// CONFIGURATION
// ============================================================================

/// Configuration for documentation queries.
#[derive(Debug, Clone)]
pub struct MCPDocConfig {
    /// MCP server URL
    pub url: String,
    /// API key header name
    pub api_key_header: String,
    /// API key value
    pub api_key: String,
    /// Request timeout in ms
    pub timeout_ms: u64,
}

impl MCPDocConfig {
    /// The configuration for the Context7 server, with a bearer key.
    pub fn context7(api_key: impl TextLike) -> (r: Self)
        ensures
            r.url@ == "https://mcp.context7.com/mcp"@,
            r.api_key_header@ == "Authorization"@,
            r.api_key@ == "Bearer "@ + api_key.text(),
            r.timeout_ms == 30000,
    {
        let mut key = String::new();
        append(&mut key, "Bearer ");
        let k = api_key.into_string();
        append(&mut key, k.as_str());
        MCPDocConfig {
            url: to_owned("https://mcp.context7.com/mcp"),
            api_key_header: to_owned("Authorization"),
            api_key: key,
            timeout_ms: 30000,
        }
    }
}

// ============================================================================
// TOPICS
// ============================================================================

/// The text between the first two occurrences of `q`, if there are two.
pub open spec fn quoted_part(error: Seq<char>, q: char) -> Option<Seq<char>> {
    match first_occurrence(error, seq![q]) {
        Some(s) => match first_occurrence(error.skip(s + 1), seq![q]) {
            Some(e) => Some(error.subrange(s + 1, s + 1 + e)),
            None => None,
        },
        None => None,
    }
}

/// The topic to look up for a Rust error, if any.
pub open spec fn rust_topic(error: Seq<char>) -> Option<Seq<char>> {
    let q = quoted_part(error, '`');
    if (has_infix(error, "E0658"@) || has_infix(error, "unstable library feature"@)) && q is Some {
        Some("rust "@ + q->0 + " stable alternative"@)
    } else if (has_infix(error, "E0658"@) || has_infix(error, "unstable library feature"@)) && has_infix(
        error,
        "linked_list"@,
    ) {
        Some("rust lru cache implementation stable"@)
    } else if has_infix(error, "unresolved"@) && q is Some {
        Some(q->0 + " usage examples"@)
    } else if has_infix(error, "trait bound"@) && q is Some {
        Some("rust "@ + q->0)
    } else if has_infix(error, "no method named"@) && q is Some {
        Some("rust "@ + q->0 + " method"@)
    } else if has_infix(error, "tokio"@) {
        if has_infix(error, "Semaphore"@) {
            Some("tokio Semaphore acquire permit"@)
        } else if has_infix(error, "JoinSet"@) || has_infix(error, "JoinHandle"@) {
            Some("tokio JoinSet spawn join_next"@)
        } else {
            Some("tokio async runtime"@)
        }
    } else {
        None
    }
}

/// The topic to look up for a Python error, if any.
pub open spec fn python_topic(error: Seq<char>) -> Option<Seq<char>> {
    let q = quoted_part(error, '\'');
    if (has_infix(error, "ModuleNotFoundError"@) || has_infix(error, "ImportError"@)) && q is Some {
        Some("python "@ + q->0 + " module"@)
    } else if has_infix(error, "AttributeError"@) {
        Some("python AttributeError fix"@)
    } else {
        None
    }
}

/// The topic to look up for a TypeScript error, if any.
pub open spec fn ts_topic(error: Seq<char>) -> Option<Seq<char>> {
    let q = quoted_part(error, '\'');
    if has_infix(error, "Cannot find module"@) && q is Some {
        Some("npm "@ + q->0)
    } else {
        None
    }
}

/// The topic to look up for an error in a language, if any.
pub open spec fn error_topic(error: Seq<char>, language: Seq<char>) -> Option<Seq<char>> {
    if language == "rust"@ {
        rust_topic(error)
    } else if language == "python"@ {
        python_topic(error)
    } else if language == "typescript"@ || language == "javascript"@ {
        ts_topic(error)
    } else {
        None
    }
}

/// The distinct topics of some errors, in order of first appearance.
pub open spec fn topics_of(errors: Seq<Seq<char>>, language: Seq<char>) -> Seq<Seq<char>>
    decreases errors.len(),
{
    if errors.len() == 0 {
        Seq::empty()
    } else {
        let prev = topics_of(errors.drop_last(), language);
        match error_topic(errors.last(), language) {
            Some(t) => if prev.contains(t) { prev } else { prev.push(t) },
            None => prev,
        }
    }
}

/// The topics to look up for the errors of previous results: the distinct
/// topics in order, at most three.
pub open spec fn error_topics(errors: Seq<Seq<char>>, language: Seq<char>) -> Seq<Seq<char>> {
    let t = topics_of(errors, language);
    if t.len() > 3 { t.take(3) } else { t }
}

/// The text between the first two occurrences of `q`.
fn quoted_part_exec(error: &[char], q: char) -> (r: Option<Vec<char>>)
    ensures
        match r {
            Some(v) => quoted_part(error@, q) == Some(v@),
            None => quoted_part(error@, q) is None,
        },
{
    let qv: Vec<char> = vec![q];
    assert(qv@ =~= seq![q]);
    match find(error, &qv) {
        Some(s) => {
            proof {
                lemma_first_occurrence_from(error@, qv@, 0);
                assert(crate::text::occurs_at(error@, qv@, s as int));
                assert(error@.len() == error.len());
            }
            let rest = slice_range(error, s + 1, error.len());
            assert(rest@ =~= error@.skip(s + 1));
            match find(&rest, &qv) {
                Some(e) => {
                    proof {
                        lemma_first_occurrence_from(rest@, qv@, 0);
                    }
                    Some(slice_range(error, s + 1, s + 1 + e))
                },
                None => None,
            }
        },
        None => None,
    }
}

/// Joins texts around a quoted part.
fn around(before: &str, middle: &[char], after: &str) -> (r: String)
    ensures
        r@ == before@ + middle@ + after@,
{
    let mut s = String::new();
    append(&mut s, before);
    let m = string_of(middle);
    append(&mut s, m.as_str());
    append(&mut s, after);
    s
}

/// Whether the characters hold a pattern.
fn holds(e: &[char], p: &str) -> (b: bool)
    ensures
        b == has_infix(e@, p@),
{
    crate::text::contains_str(e, p)
}

/// Validator that looks up documentation for errors.
#[derive(Debug, Clone)]
pub struct MCPDocValidator {
    config: MCPDocConfig,
}

impl MCPDocValidator {
    /// A validator with a configuration.
    pub fn new(config: MCPDocConfig) -> (r: Self)
        ensures
            r.config() == config,
    {
        MCPDocValidator { config }
    }

    /// The validator's configuration.
    pub closed spec fn config(&self) -> MCPDocConfig {
        self.config
    }

    /// The validator's configuration.
    pub fn configuration(&self) -> (r: &MCPDocConfig)
        ensures
            *r == self.config(),
    {
        &self.config
    }

    /// Extract a searchable topic from a Rust error.
    pub fn extract_rust_topic(&self, error: &str) -> (r: Option<String>)
        ensures
            match r {
                Some(t) => rust_topic(error@) == Some(t@),
                None => rust_topic(error@) is None,
            },
    {
        proof {
            reveal_strlit("");
        }
        let e = chars_of(error);
        let q = quoted_part_exec(&e, '`');
        let unstable = holds(&e, "E0658") || holds(&e, "unstable library feature");
        match &q {
            Some(f) => {
                if unstable {
                    return Some(around("rust ", f, " stable alternative"));
                }
            },
            None => {},
        }
        if unstable && holds(&e, "linked_list") {
            return Some(to_owned("rust lru cache implementation stable"));
        }
        match &q {
            Some(f) => {
                if holds(&e, "unresolved") {
                    return Some(around("", f, " usage examples"));
                }
                if holds(&e, "trait bound") {
                    return Some(around("rust ", f, ""));
                }
                if holds(&e, "no method named") {
                    return Some(around("rust ", f, " method"));
                }
            },
            None => {},
        }
        if holds(&e, "tokio") {
            if holds(&e, "Semaphore") {
                return Some(to_owned("tokio Semaphore acquire permit"));
            }
            if holds(&e, "JoinSet") || holds(&e, "JoinHandle") {
                return Some(to_owned("tokio JoinSet spawn join_next"));
            }
            return Some(to_owned("tokio async runtime"));
        }
        None
    }

    /// Extract a searchable topic from a Python error.
    pub fn extract_python_topic(&self, error: &str) -> (r: Option<String>)
        ensures
            match r {
                Some(t) => python_topic(error@) == Some(t@),
                None => python_topic(error@) is None,
            },
    {
        let e = chars_of(error);
        let q = quoted_part_exec(&e, '\'');
        if holds(&e, "ModuleNotFoundError") || holds(&e, "ImportError") {
            match &q {
                Some(m) => {
                    return Some(around("python ", m, " module"));
                },
                None => {},
            }
        }
        if holds(&e, "AttributeError") {
            return Some(to_owned("python AttributeError fix"));
        }
        None
    }

    /// Extract a searchable topic from a TypeScript error.
    pub fn extract_ts_topic(&self, error: &str) -> (r: Option<String>)
        ensures
            match r {
                Some(t) => ts_topic(error@) == Some(t@),
                None => ts_topic(error@) is None,
            },
    {
        proof {
            reveal_strlit("");
        }
        let e = chars_of(error);
        let q = quoted_part_exec(&e, '\'');
        if holds(&e, "Cannot find module") {
            match &q {
                Some(m) => {
                    return Some(around("npm ", m, ""));
                },
                None => {},
            }
        }
        None
    }

    /// Extract a searchable topic from an error message in a language.
    pub fn extract_topic_from_error(&self, error: &str, language: &str) -> (r: Option<String>)
        ensures
            match r {
                Some(t) => error_topic(error@, language@) == Some(t@),
                None => error_topic(error@, language@) is None,
            },
    {
        if str_eq(language, "rust") {
            self.extract_rust_topic(error)
        } else if str_eq(language, "python") {
            self.extract_python_topic(error)
        } else if str_eq(language, "typescript") || str_eq(language, "javascript") {
            self.extract_ts_topic(error)
        } else {
            None
        }
    }

    /// Extract the topics for the errors of previous results: distinct, in
    /// order of first appearance, at most three.
    pub fn extract_error_topics(&self, errors: &[String], language: &str) -> (r: Vec<String>)
        ensures
            views(r@) == error_topics(views(errors@), language@),
    {
        let ghost ev = views(errors@);
        let mut topics: Vec<String> = Vec::new();
        let mut k: usize = 0;
        while k < errors.len()
            invariant
                k <= errors@.len(),
                ev == views(errors@),
                views(topics@) == topics_of(ev.take(k as int), language@),
            decreases errors.len() - k,
        {
            proof {
                assert(ev.take(k + 1).drop_last() =~= ev.take(k as int));
            }
            match self.extract_topic_from_error(errors[k].as_str(), language) {
                Some(t) => {
                    if !crate::pipeline::liaison_architect::holds_text(&topics, t.as_str()) {
                        let ghost before = views(topics@);
                        topics.push(t);
                        assert(views(topics@) =~= before.push(views(topics@).last()));
                    }
                },
                None => {},
            }
            k = k + 1;
        }
        assert(ev.take(ev.len() as int) =~= ev);
        if topics.len() > 3 {
            topics.truncate(3);
            assert(views(topics@) =~= topics_of(ev, language@).take(3));
        }
        topics
    }
}


// ============================================================================
// LIBRARIES
// ============================================================================

/// The index of the first white-space character, if any.
pub open spec fn first_white_from(s: Seq<char>, i: int) -> Option<int>
    decreases s.len() - i,
{
    if i < 0 || i >= s.len() {
        None
    } else if is_white(s[i]) {
        Some(i)
    } else {
        first_white_from(s, i + 1)
    }
}

/// The first word of a text, if it has one.
pub open spec fn first_word(q: Seq<char>) -> Option<Seq<char>> {
    let t = trim_start(q);
    if t.len() == 0 {
        None
    } else {
        match first_white_from(t, 0) {
            Some(e) => Some(t.take(e)),
            None => Some(t),
        }
    }
}

/// The library a query is about: a known library it mentions, else its
/// first word, else Rust.
pub open spec fn library_name(query: Seq<char>) -> Seq<char> {
    if has_infix(query, "tokio"@) {
        "tokio"@
    } else if has_infix(query, "serde"@) {
        "serde"@
    } else if has_infix(query, "async"@) || has_infix(query, "futures"@) {
        "futures"@
    } else {
        match first_word(query) {
            Some(w) => w,
            None => "rust"@,
        }
    }
}

/// The library identifier in a resolution answer: from its first `/` to
/// the next white space (at most fifty characters when there is none);
/// without a `/`, the usual identifier of the library.
pub open spec fn library_id(content: Seq<char>, name: Seq<char>) -> Seq<char> {
    match first_occurrence(content, "/"@) {
        Some(s) => {
            let part = content.skip(s);
            match first_white_from(part, 0) {
                Some(e) => part.take(e),
                None => if part.len() > 50 { part.take(50) } else { part },
            }
        },
        None => if name == "tokio"@ {
            "/tokio-rs/tokio"@
        } else if name == "serde"@ {
            "/serde-rs/serde"@
        } else if name == "futures"@ {
            "/rust-lang/futures-rs"@
        } else {
            "/rust/"@ + name
        },
    }
}

/// The index of the first white-space character.
fn first_white(s: &[char]) -> (r: Option<usize>)
    ensures
        match r {
            Some(i) => first_white_from(s@, 0) == Some(i as int),
            None => first_white_from(s@, 0) is None,
        },
{
    let mut i: usize = 0;
    while i < s.len()
        invariant
            i <= s@.len(),
            first_white_from(s@, 0) == first_white_from(s@, i as int),
        decreases s.len() - i,
    {
        if crate::text::is_whitespace(s[i]) {
            return Some(i);
        }
        i = i + 1;
    }
    None
}

/// The index of the first white-space character lies within the text.
proof fn lemma_first_white(s: Seq<char>, i: int)
    requires
        0 <= i,
    ensures
        first_white_from(s, i) matches Some(e) ==> i <= e < s.len(),
    decreases s.len() - i,
{
    if i < s.len() && !is_white(s[i]) {
        lemma_first_white(s, i + 1);
    }
}

/// The library a query is about.
pub fn library_name_for(query: &str) -> (r: String)
    ensures
        r@ == library_name(query@),
{
    let q = chars_of(query);
    if holds(&q, "tokio") {
        to_owned("tokio")
    } else if holds(&q, "serde") {
        to_owned("serde")
    } else if holds(&q, "async") || holds(&q, "futures") {
        to_owned("futures")
    } else {
        let t = crate::text::trimmed_start(&q);
        if t.len() == 0 {
            to_owned("rust")
        } else {
            match first_white(&t) {
                Some(e) => {
                    proof {
                        lemma_first_white(t@, 0);
                    }
                    let w = slice_range(&t, 0, e);
                    assert(w@ =~= t@.take(e as int));
                    string_of(&w)
                },
                None => string_of(&t),
            }
        }
    }
}

/// The library identifier in a resolution answer.
pub fn library_id_from(content: &str, name: &str) -> (r: String)
    ensures
        r@ == library_id(content@, name@),
{
    let c = chars_of(content);
    let slash = chars_of("/");
    match find(&c, &slash) {
        Some(s) => {
            proof {
                lemma_first_occurrence_from(c@, slash@, 0);
            }
            let part = slice_range(&c, s, c.len());
            assert(part@ =~= c@.skip(s as int));
            match first_white(&part) {
                Some(e) => {
                    proof {
                        lemma_first_white(part@, 0);
                    }
                    let w = slice_range(&part, 0, e);
                    assert(w@ =~= part@.take(e as int));
                    string_of(&w)
                },
                None => {
                    if part.len() > 50 {
                        let w = slice_range(&part, 0, 50);
                        assert(w@ =~= part@.take(50));
                        string_of(&w)
                    } else {
                        string_of(&part)
                    }
                },
            }
        },
        None => {
            if str_eq(name, "tokio") {
                to_owned("/tokio-rs/tokio")
            } else if str_eq(name, "serde") {
                to_owned("/serde-rs/serde")
            } else if str_eq(name, "futures") {
                to_owned("/rust-lang/futures-rs")
            } else {
                let mut r = String::new();
                append(&mut r, "/rust/");
                append(&mut r, name);
                r
            }
        },
    }
}

/// The recommendation given for a topic whose documentation was found.
pub fn doc_recommendation(library_id: &str, topic: &str) -> (r: String)
    ensures
        r@ == "See "@ + library_id@ + " documentation for "@ + topic@,
{
    let mut r = String::new();
    append(&mut r, "See ");
    append(&mut r, library_id);
    append(&mut r, " documentation for ");
    append(&mut r, topic);
    r
}

} // verus!
