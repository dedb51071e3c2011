//! Regular expressions, as the `regex` crate matches them. The library
//! hands patterns and texts to `regex` and works on the groups it captures.
use vstd::prelude::*;

verus! {

/// The texts of optional strings.
pub open spec fn opt_views(v: Seq<Option<String>>) -> Seq<Option<Seq<char>>> {
    v.map_values(|o: Option<String>| match o {
        Some(s) => Some(s@),
        None => None,
    })
}

/// The texts of lists of optional strings.
pub open spec fn opt_views_all(v: Seq<Vec<Option<String>>>) -> Seq<Seq<Option<Seq<char>>>> {
    v.map_values(|g: Vec<Option<String>>| opt_views(g@))
}

/// Names what `regex::Regex::captures` finds for a pattern in a text: for
/// the leftmost match, the text of each capture group (group 0 is the whole
/// match; a group that did not take part is absent). `None` when nothing
/// matches, or when the pattern does not compile.
pub uninterp spec fn regex_captures(pattern: Seq<char>, text: Seq<char>) -> Option<Seq<Option<Seq<char>>>>;

/// Names what `regex::Regex::captures_iter` yields for a pattern in a text:
/// the groups of each successive non-overlapping match, as
/// `regex_captures` gives them. Empty when the pattern does not compile.
pub uninterp spec fn regex_captures_all(pattern: Seq<char>, text: Seq<char>) -> Seq<Seq<Option<Seq<char>>>>;

/// Names what `regex::Regex::is_match` says of a pattern and a text:
/// whether the pattern matches somewhere in it. False when the pattern does
/// not compile.
pub uninterp spec fn regex_matches(pattern: Seq<char>, text: Seq<char>) -> bool;

/// Compiles `pattern` and calls `regex::Regex::captures` on `text`,
/// returning the groups' texts. The result is named by the pattern and the
/// text.
#[verifier::external_body]
pub fn captures(pattern: &str, text: &str) -> (r: Option<Vec<Option<String>>>)
    ensures
        match r {
            Some(g) => regex_captures(pattern@, text@) == Some(opt_views(g@)),
            None => regex_captures(pattern@, text@) is None,
        },
{
    let re = regex::Regex::new(pattern).ok()?;
    re.captures(text).map(|c| c.iter().map(|m| m.map(|m| m.as_str().to_string())).collect())
}

/// Compiles `pattern` and calls `regex::Regex::captures_iter` on `text`,
/// returning each match's groups' texts. The result is named by the pattern
/// and the text.
#[verifier::external_body]
pub fn captures_all(pattern: &str, text: &str) -> (r: Vec<Vec<Option<String>>>)
    ensures
        opt_views_all(r@) == regex_captures_all(pattern@, text@),
{
    match regex::Regex::new(pattern) {
        Ok(re) => re
            .captures_iter(text)
            .map(|c| c.iter().map(|m| m.map(|m| m.as_str().to_string())).collect())
            .collect(),
        Err(_) => Vec::new(),
    }
}

/// Compiles `pattern` and calls `regex::Regex::is_match` on `text`. The
/// result is named by the pattern and the text; as the crate documents,
/// there is a match exactly when `captures` finds one (and neither finds
/// one when the pattern does not compile).
#[verifier::external_body]
pub fn is_match(pattern: &str, text: &str) -> (r: bool)
    ensures
        r == regex_matches(pattern@, text@),
        r == (regex_captures(pattern@, text@) is Some),
{
    match regex::Regex::new(pattern) {
        Ok(re) => re.is_match(text),
        Err(_) => false,
    }
}

/// Group `i` of a match, if it took part.
pub open spec fn group(m: Seq<Option<Seq<char>>>, i: int) -> Option<Seq<char>> {
    if 0 <= i < m.len() {
        m[i]
    } else {
        None
    }
}

/// Group `i` of a match, if it took part.
pub fn group_at(m: &Vec<Option<String>>, i: usize) -> (r: Option<&String>)
    ensures
        match r {
            Some(x) => group(opt_views(m@), i as int) == Some(x@),
            None => group(opt_views(m@), i as int) is None,
        },
{
    if i < m.len() {
        match &m[i] {
            Some(x) => Some(x),
            None => None,
        }
    } else {
        None
    }
}

} // verus!
