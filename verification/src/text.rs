//! Character-level text utilities shared by the code-processing modules.
//!
//! Text is modelled by its view, a `Seq<char>`; every executable helper here
//! states its result over that view.
use vstd::prelude::*;
use vstd::string::*;

verus! {

broadcast use vstd::seq::group_seq_axioms;

// ============================================================================
// SPECIFICATIONS
// ============================================================================

/// `p` occurs in `s` starting at index `i`.
pub open spec fn occurs_at(s: Seq<char>, p: Seq<char>, i: int) -> bool {
    0 <= i && i + p.len() <= s.len() && s.subrange(i, i + p.len()) == p
}

/// `s` begins with `p`.
pub open spec fn has_prefix(s: Seq<char>, p: Seq<char>) -> bool {
    occurs_at(s, p, 0)
}

/// `s` ends with `p`.
pub open spec fn has_suffix(s: Seq<char>, p: Seq<char>) -> bool {
    p.len() <= s.len() && occurs_at(s, p, s.len() - p.len())
}

/// `p` occurs somewhere in `s`.
pub open spec fn has_infix(s: Seq<char>, p: Seq<char>) -> bool {
    exists|i: int| occurs_at(s, p, i)
}

/// Index of the first occurrence of `p` in `s` at or after `from`, if any.
pub open spec fn first_occurrence_from(s: Seq<char>, p: Seq<char>, from: int) -> Option<int>
    decreases s.len() + 1 - from,
{
    if from < 0 || from + p.len() > s.len() {
        None
    } else if occurs_at(s, p, from) {
        Some(from)
    } else {
        first_occurrence_from(s, p, from + 1)
    }
}

/// Index of the first occurrence of `p` in `s`, if any.
pub open spec fn first_occurrence(s: Seq<char>, p: Seq<char>) -> Option<int> {
    first_occurrence_from(s, p, 0)
}

/// Number of positions of `s` that hold `c`.
pub open spec fn count_char(s: Seq<char>, c: char) -> nat
    decreases s.len(),
{
    if s.len() == 0 {
        0
    } else {
        count_char(s.drop_last(), c) + if s.last() == c { 1nat } else { 0nat }
    }
}

/// Unicode `White_Space` characters, the set that `str::trim` removes.
pub open spec fn is_white(c: char) -> bool {
    ||| c == ' '
    ||| c == '\t'
    ||| c == '\n'
    ||| c == '\r'
    ||| c == '\x0B'
    ||| c == '\x0C'
    ||| c == '\u{85}'
    ||| c == '\u{A0}'
    ||| c == '\u{1680}'
    ||| ('\u{2000}' <= c && c <= '\u{200A}')
    ||| c == '\u{2028}'
    ||| c == '\u{2029}'
    ||| c == '\u{202F}'
    ||| c == '\u{205F}'
    ||| c == '\u{3000}'
}

/// Number of leading white characters of `s`.
pub open spec fn lead_white(s: Seq<char>) -> nat
    decreases s.len(),
{
    if s.len() > 0 && is_white(s[0]) {
        1 + lead_white(s.drop_first())
    } else {
        0
    }
}

/// Number of trailing white characters of `s`.
pub open spec fn trail_white(s: Seq<char>) -> nat
    decreases s.len(),
{
    if s.len() > 0 && is_white(s.last()) {
        1 + trail_white(s.drop_last())
    } else {
        0
    }
}

/// `s` without leading white characters.
pub open spec fn trim_start(s: Seq<char>) -> Seq<char> {
    s.subrange(lead_white(s) as int, s.len() as int)
}

/// `s` without trailing white characters.
pub open spec fn trim_end(s: Seq<char>) -> Seq<char> {
    s.subrange(0, s.len() - trail_white(s))
}

/// `s` without leading and trailing white characters.
pub open spec fn trim(s: Seq<char>) -> Seq<char> {
    trim_end(trim_start(s))
}

/// Index of the first `'\n'` in `s` at or after `from`, if any.
pub open spec fn next_newline(s: Seq<char>, from: int) -> Option<int>
    decreases s.len() - from,
{
    if from < 0 || from >= s.len() {
        None
    } else if s[from] == '\n' {
        Some(from)
    } else {
        next_newline(s, from + 1)
    }
}

/// A line body without the `'\r'` of a `"\r\n"` terminator.
pub open spec fn strip_cr(l: Seq<char>) -> Seq<char> {
    if l.len() > 0 && l.last() == '\r' {
        l.drop_last()
    } else {
        l
    }
}

/// The lines of `s[from..]`, as `str::lines` splits them: at `'\n'`, dropping
/// a `'\r'` before it, with no empty line after a final terminator.
pub open spec fn lines_from(s: Seq<char>, from: int) -> Seq<Seq<char>>
    decreases s.len() - from,
{
    if from < 0 || from >= s.len() {
        Seq::empty()
    } else {
        match next_newline(s, from) {
            None => seq![s.subrange(from, s.len() as int)],
            Some(j) => if j >= from && j < s.len() {
                seq![strip_cr(s.subrange(from, j))] + lines_from(s, j + 1)
            } else {
                Seq::empty()
            },
        }
    }
}

/// The lines of `s`, as `str::lines` splits them.
pub open spec fn lines(s: Seq<char>) -> Seq<Seq<char>> {
    lines_from(s, 0)
}

/// Concatenation of `parts`, with `sep` between consecutive ones.
pub open spec fn join(parts: Seq<Seq<char>>, sep: Seq<char>) -> Seq<char>
    decreases parts.len(),
{
    if parts.len() == 0 {
        Seq::empty()
    } else if parts.len() == 1 {
        parts[0]
    } else {
        join(parts.drop_last(), sep) + sep + parts.last()
    }
}

/// The views of a sequence of strings.
pub open spec fn views(v: Seq<String>) -> Seq<Seq<char>> {
    v.map_values(|s: String| s@)
}

/// The views of a sequence of character vectors.
pub open spec fn char_views(v: Seq<Vec<char>>) -> Seq<Seq<char>> {
    v.map_values(|s: Vec<char>| s@)
}

/// `n` copies of `c`.
pub open spec fn repeat_char(c: char, n: nat) -> Seq<char> {
    Seq::new(n, |i: int| c)
}

// ============================================================================
// TRUSTED PRIMITIVES
// ============================================================================

/// Calls `String::push`, which appends one character to the string.
#[verifier::external_body]
pub fn push_char(s: &mut String, c: char)
    ensures
        final(s)@ == old(s)@.push(c),
{
    s.push(c);
}

// ============================================================================
// CONVERSIONS
// ============================================================================

/// The characters of `s`, in order.
pub fn chars_of(s: &str) -> (v: Vec<char>)
    ensures
        v@ == s@,
{
    let mut v: Vec<char> = Vec::new();
    for c in it: s.chars()
        invariant
            it.seq() == s@,
            v@ == it.seq().take(it.index() as int),
    {
        v.push(c);
    }
    assert(v@ =~= s@);
    v
}

/// A string holding `v[from..to]`.
pub fn string_of_range(v: &[char], from: usize, to: usize) -> (s: String)
    requires
        from <= to <= v@.len(),
    ensures
        s@ == v@.subrange(from as int, to as int),
{
    let mut s = String::new();
    let mut i = from;
    while i < to
        invariant
            from <= i <= to <= v@.len(),
            s@ == v@.subrange(from as int, i as int),
        decreases to - i,
    {
        push_char(&mut s, v[i]);
        assert(v@.subrange(from as int, i + 1) =~= v@.subrange(from as int, i as int).push(v@[i as int]));
        i = i + 1;
    }
    s
}

/// A string holding the characters of `v`.
pub fn string_of(v: &[char]) -> (s: String)
    ensures
        s@ == v@,
{
    let s = string_of_range(v, 0, v.len());
    assert(v@.subrange(0, v@.len() as int) =~= v@);
    s
}

/// Appends `t` to `s`.
pub fn append(s: &mut String, t: &str)
    ensures
        final(s)@ == old(s)@ + t@,
{
    s.append(t);
}

/// Appends the characters of `v` to `s`.
pub fn append_chars(s: &mut String, v: &[char])
    ensures
        final(s)@ == old(s)@ + v@,
{
    let ghost s0 = s@;
    let mut i: usize = 0;
    while i < v.len()
        invariant
            i <= v@.len(),
            s@ == s0 + v@.subrange(0, i as int),
        decreases v.len() - i,
    {
        push_char(s, v[i]);
        assert(v@.subrange(0, i + 1) =~= v@.subrange(0, i as int).push(v@[i as int]));
        i = i + 1;
    }
    assert(v@.subrange(0, v@.len() as int) =~= v@);
}

/// A copy of `t` as a `String`.
pub fn to_owned(t: &str) -> (s: String)
    ensures
        s@ == t@,
{
    let mut s = String::new();
    append(&mut s, t);
    assert(s@ =~= t@);
    s
}

// ============================================================================
// SEARCH
// ============================================================================

/// Whether `p` occurs in `s` at index `i`.
pub fn matches_at(s: &[char], p: &[char], i: usize) -> (b: bool)
    ensures
        b == occurs_at(s@, p@, i as int),
{
    if i > s.len() || p.len() > s.len() - i {
        return false;
    }
    let end = i + p.len();
    let mut k: usize = 0;
    while k < p.len()
        invariant
            end == i + p@.len(),
            i as int + p@.len() <= s@.len(),
            k <= p@.len(),
            forall|j: int| 0 <= j < k ==> s@[i + j] == p@[j],
        decreases p.len() - k,
    {
        if s[i + k] != p[k] {
            assert(s@.subrange(i as int, i + p@.len())[k as int] != p@[k as int]);
            return false;
        }
        k = k + 1;
    }
    assert(s@.subrange(i as int, i + p@.len()) =~= p@);
    true
}

/// Whether `s` begins with `p`.
pub fn starts_with(s: &[char], p: &[char]) -> (b: bool)
    ensures
        b == has_prefix(s@, p@),
{
    matches_at(s, p, 0)
}

/// Whether `s` begins with the characters of `p`.
pub fn starts_with_str(s: &[char], p: &str) -> (b: bool)
    ensures
        b == has_prefix(s@, p@),
{
    let pc = chars_of(p);
    starts_with(s, &pc)
}

/// Whether the characters of `p` occur in `s`.
pub fn contains_str(s: &[char], p: &str) -> (b: bool)
    ensures
        b == has_infix(s@, p@),
{
    let pc = chars_of(p);
    contains(s, &pc)
}

/// Whether `s` ends with `p`.
pub fn ends_with(s: &[char], p: &[char]) -> (b: bool)
    ensures
        b == has_suffix(s@, p@),
{
    if p.len() > s.len() {
        false
    } else {
        matches_at(s, p, s.len() - p.len())
    }
}

/// First index at or after `from` where `p` occurs in `s`.
pub fn find_from(s: &[char], p: &[char], from: usize) -> (r: Option<usize>)
    ensures
        r matches Some(i) ==> first_occurrence_from(s@, p@, from as int) == Some(i as int),
        r is None ==> first_occurrence_from(s@, p@, from as int) is None,
{
    let mut i = from;
    loop
        invariant
            from <= i,
            first_occurrence_from(s@, p@, from as int) == first_occurrence_from(s@, p@, i as int),
        decreases s.len() + 1 - i,
    {
        if i > s.len() || p.len() > s.len() - i {
            return None;
        }
        if matches_at(s, p, i) {
            return Some(i);
        }
        if i == s.len() {
            assert(p@.len() > 0) by {
                if p@.len() == 0 {
                    assert(s@.subrange(i as int, i as int) =~= p@);
                }
            }
            return None;
        }
        i = i + 1;
    }
}

/// First index where `p` occurs in `s`.
pub fn find(s: &[char], p: &[char]) -> (r: Option<usize>)
    ensures
        r matches Some(i) ==> first_occurrence(s@, p@) == Some(i as int),
        r is None ==> first_occurrence(s@, p@) is None,
{
    find_from(s, p, 0)
}

/// A first occurrence is an occurrence, and no earlier one exists.
pub proof fn lemma_first_occurrence_from(s: Seq<char>, p: Seq<char>, from: int)
    requires
        0 <= from,
    ensures
        first_occurrence_from(s, p, from) matches Some(i) ==> {
            &&& from <= i
            &&& occurs_at(s, p, i)
            &&& forall|k: int| from <= k < i ==> !occurs_at(s, p, k)
        },
        first_occurrence_from(s, p, from) is None ==> forall|k: int| from <= k ==> !occurs_at(s, p, k),
    decreases s.len() + 1 - from,
{
    if from + p.len() > s.len() {
    } else if occurs_at(s, p, from) {
    } else {
        lemma_first_occurrence_from(s, p, from + 1);
    }
}

/// Whether `p` occurs in `s`.
pub fn contains(s: &[char], p: &[char]) -> (b: bool)
    ensures
        b == has_infix(s@, p@),
{
    let r = find(s, p);
    proof {
        lemma_first_occurrence_from(s@, p@, 0);
    }
    r.is_some()
}

/// Whether `c` occurs in `s`.
pub fn contains_char(s: &[char], c: char) -> (b: bool)
    ensures
        b == s@.contains(c),
{
    let mut i: usize = 0;
    while i < s.len()
        invariant
            i <= s@.len(),
            forall|j: int| 0 <= j < i ==> s@[j] != c,
        decreases s.len() - i,
    {
        if s[i] == c {
            return true;
        }
        i = i + 1;
    }
    false
}

/// Number of occurrences of `c` in `s`.
pub fn count(s: &[char], c: char) -> (n: usize)
    ensures
        n == count_char(s@, c),
        n <= s@.len(),
{
    let mut n: usize = 0;
    let mut i: usize = 0;
    while i < s.len()
        invariant
            i <= s@.len(),
            n == count_char(s@.subrange(0, i as int), c),
            n <= i,
        decreases s.len() - i,
    {
        assert(s@.subrange(0, i + 1).drop_last() =~= s@.subrange(0, i as int));
        if s[i] == c {
            n = n + 1;
        }
        i = i + 1;
    }
    assert(s@.subrange(0, s@.len() as int) =~= s@);
    n
}

// ============================================================================
// WHITESPACE AND TRIMMING
// ============================================================================

/// Whether `c` is a Unicode `White_Space` character.
pub fn is_whitespace(c: char) -> (b: bool)
    ensures
        b == is_white(c),
{
    c == ' ' || c == '\t' || c == '\n' || c == '\r' || c == '\x0B' || c == '\x0C' || c == '\u{85}'
        || c == '\u{A0}' || c == '\u{1680}' || ('\u{2000}' <= c && c <= '\u{200A}') || c == '\u{2028}'
        || c == '\u{2029}' || c == '\u{202F}' || c == '\u{205F}' || c == '\u{3000}'
}

/// Leading white characters split off one at a time.
pub proof fn lemma_lead_white_step(s: Seq<char>, i: int)
    requires
        0 <= i <= s.len(),
        forall|j: int| 0 <= j < i ==> is_white(s[j]),
    ensures
        lead_white(s) == i + lead_white(s.subrange(i, s.len() as int)),
    decreases i,
{
    if i > 0 {
        lemma_lead_white_step(s.drop_first(), i - 1);
        assert(s.drop_first().subrange(i - 1, s.drop_first().len() as int) =~= s.subrange(i, s.len() as int));
    } else {
        assert(s.subrange(0, s.len() as int) =~= s);
    }
}

/// Trailing white characters split off one at a time.
pub proof fn lemma_trail_white_step(s: Seq<char>, i: int)
    requires
        0 <= i <= s.len(),
        forall|j: int| s.len() - i <= j < s.len() ==> is_white(s[j]),
    ensures
        trail_white(s) == i + trail_white(s.subrange(0, s.len() - i)),
    decreases i,
{
    if i > 0 {
        lemma_trail_white_step(s.drop_last(), i - 1);
        assert(s.drop_last().subrange(0, s.drop_last().len() - (i - 1)) =~= s.subrange(0, s.len() - i));
    } else {
        assert(s.subrange(0, s.len() as int) =~= s);
    }
}

/// The white prefix is no longer than the text.
pub proof fn lemma_lead_white_bound(s: Seq<char>)
    ensures
        lead_white(s) <= s.len(),
        forall|j: int| 0 <= j < lead_white(s) ==> is_white(s[j]),
        lead_white(s) < s.len() ==> !is_white(s[lead_white(s) as int]),
    decreases s.len(),
{
    if s.len() > 0 && is_white(s[0]) {
        lemma_lead_white_bound(s.drop_first());
        assert forall|j: int| 0 <= j < lead_white(s) implies is_white(s[j]) by {
            if j > 0 {
                assert(s[j] == s.drop_first()[j - 1]);
            }
        }
    }
}

/// The white suffix is no longer than the text.
pub proof fn lemma_trail_white_bound(s: Seq<char>)
    ensures
        trail_white(s) <= s.len(),
        forall|j: int| s.len() - trail_white(s) <= j < s.len() ==> is_white(s[j]),
        trail_white(s) < s.len() ==> !is_white(s[s.len() - trail_white(s) - 1]),
    decreases s.len(),
{
    if s.len() > 0 && is_white(s.last()) {
        lemma_trail_white_bound(s.drop_last());
        assert forall|j: int| s.len() - trail_white(s) <= j < s.len() implies is_white(s[j]) by {
            if j < s.len() - 1 {
                assert(s[j] == s.drop_last()[j]);
            }
        }
    }
}

/// Number of leading white characters of `s`.
pub fn lead_white_count(s: &[char]) -> (n: usize)
    ensures
        n == lead_white(s@),
        n <= s@.len(),
{
    let mut i: usize = 0;
    while i < s.len() && is_whitespace(s[i])
        invariant
            i <= s@.len(),
            forall|j: int| 0 <= j < i ==> is_white(s@[j]),
        decreases s.len() - i,
    {
        i = i + 1;
    }
    proof {
        lemma_lead_white_step(s@, i as int);
        let rest = s@.subrange(i as int, s@.len() as int);
        if rest.len() > 0 {
            assert(rest[0] == s@[i as int]);
        }
    }
    i
}

/// Number of trailing white characters of `s`.
pub fn trail_white_count(s: &[char]) -> (n: usize)
    ensures
        n == trail_white(s@),
        n <= s@.len(),
{
    let mut i: usize = 0;
    while i < s.len() && is_whitespace(s[s.len() - 1 - i])
        invariant
            i <= s@.len(),
            forall|j: int| s@.len() - i <= j < s@.len() ==> is_white(s@[j]),
        decreases s.len() - i,
    {
        i = i + 1;
    }
    proof {
        lemma_trail_white_step(s@, i as int);
        let rest = s@.subrange(0, s@.len() - i);
        if rest.len() > 0 {
            assert(rest.last() == s@[s@.len() - 1 - i]);
        }
    }
    i
}

/// Bounds `(a, b)` with `s[a..b]` equal to `s` trimmed on both sides.
pub fn trim_bounds(s: &[char]) -> (r: (usize, usize))
    ensures
        r.0 <= r.1 <= s@.len(),
        s@.subrange(r.0 as int, r.1 as int) == trim(s@),
        r.0 == lead_white(s@),
{
    let a = lead_white_count(s);
    let mut b = s.len();
    let ghost t = s@.subrange(a as int, s@.len() as int);
    while b > a && is_whitespace(s[b - 1])
        invariant
            a <= b <= s@.len(),
            forall|j: int| b <= j < s@.len() ==> is_white(s@[j]),
        decreases b,
    {
        b = b - 1;
    }
    proof {
        let k = s@.len() - b;
        assert(t == trim_start(s@));
        assert forall|j: int| t.len() - k <= j < t.len() implies is_white(t[j]) by {
            assert(t[j] == s@[a + j]);
        }
        lemma_trail_white_step(t, k);
        let rest = t.subrange(0, t.len() - k);
        if rest.len() > 0 {
            assert(rest.last() == s@[b - 1]);
        }
        assert(t.subrange(0, t.len() - trail_white(t)) =~= s@.subrange(a as int, b as int));
    }
    (a, b)
}

/// `s` trimmed on both sides, as characters.
pub fn trimmed(s: &[char]) -> (r: Vec<char>)
    ensures
        r@ == trim(s@),
{
    let (a, b) = trim_bounds(s);
    slice_range(s, a, b)
}

/// `s` trimmed on the left, as characters.
pub fn trimmed_start(s: &[char]) -> (r: Vec<char>)
    ensures
        r@ == trim_start(s@),
{
    let a = lead_white_count(s);
    slice_range(s, a, s.len())
}

/// `s` trimmed on the right, as characters.
pub fn trimmed_end(s: &[char]) -> (r: Vec<char>)
    ensures
        r@ == trim_end(s@),
{
    let k = trail_white_count(s);
    slice_range(s, 0, s.len() - k)
}

/// A copy of `s[from..to]`.
pub fn slice_range(s: &[char], from: usize, to: usize) -> (r: Vec<char>)
    requires
        from <= to <= s@.len(),
    ensures
        r@ == s@.subrange(from as int, to as int),
{
    let mut r: Vec<char> = Vec::new();
    let mut i = from;
    while i < to
        invariant
            from <= i <= to <= s@.len(),
            r@ == s@.subrange(from as int, i as int),
        decreases to - i,
    {
        r.push(s[i]);
        assert(s@.subrange(from as int, i + 1) =~= s@.subrange(from as int, i as int).push(s@[i as int]));
        i = i + 1;
    }
    r
}

// ============================================================================
// LINES
// ============================================================================

/// Index of the next `'\n'` at or after `from`.
pub fn find_newline(s: &[char], from: usize) -> (r: Option<usize>)
    ensures
        r matches Some(j) ==> next_newline(s@, from as int) == Some(j as int) && from <= j < s@.len(),
        r is None ==> next_newline(s@, from as int) is None,
{
    let mut i = from;
    while i < s.len()
        invariant
            from <= i,
            next_newline(s@, from as int) == next_newline(s@, i as int),
        decreases s.len() - i,
    {
        if s[i] == '\n' {
            return Some(i);
        }
        i = i + 1;
    }
    None
}

/// The next newline lies after the position it is searched from.
pub proof fn lemma_next_newline(s: Seq<char>, from: int)
    requires
        0 <= from,
    ensures
        next_newline(s, from) matches Some(j) ==> from <= j < s.len() && s[j] == '\n',
    decreases s.len() - from,
{
    if from < s.len() && s[from] != '\n' {
        lemma_next_newline(s, from + 1);
    }
}

/// The lines of `s`, as `str::lines` splits them.
pub fn split_lines(s: &[char]) -> (r: Vec<Vec<char>>)
    ensures
        char_views(r@) == lines(s@),
{
    let mut r: Vec<Vec<char>> = Vec::new();
    let mut from: usize = 0;
    while from < s.len()
        invariant
            from <= s@.len(),
            char_views(r@) + lines_from(s@, from as int) == lines(s@),
        decreases s.len() - from,
    {
        let ghost before = char_views(r@);
        match find_newline(s, from) {
            None => {
                let line = slice_range(s, from, s.len());
                r.push(line);
                assert(lines_from(s@, s@.len() as int) =~= Seq::<Seq<char>>::empty());
                assert(char_views(r@) =~= before + seq![s@.subrange(from as int, s@.len() as int)]);
                from = s.len();
            },
            Some(j) => {
                let mut end = j;
                if end > from && s[end - 1] == '\r' {
                    end = end - 1;
                }
                let line = slice_range(s, from, end);
                assert(line@ == strip_cr(s@.subrange(from as int, j as int))) by {
                    if j > from && s@[j - 1] == '\r' {
                        assert(s@.subrange(from as int, j as int).drop_last() =~= s@.subrange(from as int, j - 1));
                    }
                }
                r.push(line);
                assert(char_views(r@) =~= before + seq![line@]);
                from = j + 1;
            },
        }
    }
    assert(lines_from(s@, from as int) =~= Seq::<Seq<char>>::empty());
    assert(char_views(r@) =~= lines(s@));
    r
}

/// The lines of a text, with their total length bounded by the text's.
pub fn text_lines(code: &str) -> (r: Vec<Vec<char>>)
    ensures
        char_views(r@) == lines(code@),
        total_len(char_views(r@)) <= usize::MAX,
{
    let cs = chars_of(code);
    let len = cs.len();
    proof {
        lemma_lines_total_len(code@);
        assert(cs@.len() == len);
    }
    split_lines(&cs)
}

// ============================================================================
// UTF-8 WIDTHS
// ============================================================================

/// The UTF-8 encoding of a concatenation is the concatenation of the
/// encodings.
pub proof fn lemma_encode_utf8_concat(a: Seq<char>, b: Seq<char>)
    ensures
        vstd::utf8::encode_utf8(a + b) == vstd::utf8::encode_utf8(a) + vstd::utf8::encode_utf8(b),
    decreases a.len(),
{
    if a.len() == 0 {
        assert(a + b =~= b);
        assert(vstd::utf8::encode_utf8(a) =~= Seq::<u8>::empty());
        assert(vstd::utf8::encode_utf8(a) + vstd::utf8::encode_utf8(b) =~= vstd::utf8::encode_utf8(b));
    } else {
        lemma_encode_utf8_concat(a.drop_first(), b);
        assert((a + b).drop_first() =~= a.drop_first() + b);
        assert((a + b)[0] == a[0]);
    }
}

/// The number of UTF-8 bytes of some characters.
pub fn utf8_width(cs: &[char]) -> (r: usize)
    ensures
        r == vstd::utf8::encode_utf8(cs@).len(),
{
    let s = string_of(cs);
    let b = s.as_str().as_bytes();
    b.len()
}

// ============================================================================
// SIZES
// ============================================================================

/// The total length of some texts.
pub open spec fn total_len(ls: Seq<Seq<char>>) -> nat
    decreases ls.len(),
{
    if ls.len() == 0 {
        0
    } else {
        total_len(ls.drop_last()) + ls.last().len()
    }
}

/// The total length of two lists of texts together is the sum of theirs.
pub proof fn lemma_total_len_concat(a: Seq<Seq<char>>, b: Seq<Seq<char>>)
    ensures
        total_len(a + b) == total_len(a) + total_len(b),
    decreases b.len(),
{
    if b.len() > 0 {
        lemma_total_len_concat(a, b.drop_last());
        assert((a + b).drop_last() =~= a + b.drop_last());
    }
}

/// A contiguous part of a list of texts is no longer in total than the
/// list.
pub proof fn lemma_total_len_subrange(ls: Seq<Seq<char>>, a: int, b: int)
    requires
        0 <= a <= b <= ls.len(),
    ensures
        total_len(ls.subrange(a, b)) <= total_len(ls),
{
    assert(ls =~= ls.subrange(0, a) + ls.subrange(a, b) + ls.subrange(b, ls.len() as int));
    lemma_total_len_concat(ls.subrange(0, a) + ls.subrange(a, b), ls.subrange(b, ls.len() as int));
    lemma_total_len_concat(ls.subrange(0, a), ls.subrange(a, b));
}

/// The lines of a text are no longer in total than the text.
pub proof fn lemma_lines_total_len(s: Seq<char>)
    ensures
        total_len(lines(s)) <= s.len(),
        lines(s).len() <= s.len(),
{
    lemma_lines_from_total_len(s, 0);
}

/// The lines of `s` from `from` on are no longer in total than what is left
/// of `s`, and there are no more of them than characters left.
proof fn lemma_lines_from_total_len(s: Seq<char>, from: int)
    requires
        0 <= from,
    ensures
        from >= s.len() ==> lines_from(s, from).len() == 0 && total_len(lines_from(s, from)) == 0,
        from < s.len() ==> lines_from(s, from).len() + from <= s.len() && total_len(lines_from(s, from)) + from <= s.len(),
    decreases s.len() - from,
{
    if from < s.len() {
        lemma_next_newline(s, from);
        match next_newline(s, from) {
            None => {
                let one = seq![s.subrange(from, s.len() as int)];
                assert(one.drop_last() =~= Seq::<Seq<char>>::empty());
                assert(total_len(one.drop_last()) == 0);
                assert(total_len(one) == s.len() - from);
                assert(lines_from(s, from) == one);
            },
            Some(j) => {
                lemma_lines_from_total_len(s, j + 1);
                let x = s.subrange(from, j);
                let head = seq![strip_cr(x)];
                assert(strip_cr(x).len() <= x.len());
                assert(head.drop_last() =~= Seq::<Seq<char>>::empty());
                assert(total_len(head.drop_last()) == 0);
                assert(total_len(head) == strip_cr(x).len());
                lemma_total_len_concat(head, lines_from(s, j + 1));
                assert(lines_from(s, from) == head + lines_from(s, j + 1));
            },
        }
    }
}

/// A text has at most as many occurrences of a character as it has
/// characters.
pub proof fn lemma_count_char_le(s: Seq<char>, c: char)
    ensures
        count_char(s, c) <= s.len(),
    decreases s.len(),
{
    if s.len() > 0 {
        lemma_count_char_le(s.drop_last(), c);
    }
}

// ============================================================================
// ORDER
// ============================================================================

/// `a` comes before `b` in lexicographic order by code point, the order in
/// which Rust compares strings (their UTF-8 bytes order the same way).
pub open spec fn lex_lt(a: Seq<char>, b: Seq<char>) -> bool
    decreases a.len(),
{
    if a.len() == 0 {
        b.len() > 0
    } else if b.len() == 0 {
        false
    } else if a[0] != b[0] {
        a[0] < b[0]
    } else {
        lex_lt(a.drop_first(), b.drop_first())
    }
}

/// Nothing comes before itself.
pub proof fn lemma_lex_irreflexive(a: Seq<char>)
    ensures
        !lex_lt(a, a),
    decreases a.len(),
{
    if a.len() > 0 {
        lemma_lex_irreflexive(a.drop_first());
    }
}

/// The order is transitive.
pub proof fn lemma_lex_transitive(a: Seq<char>, b: Seq<char>, c: Seq<char>)
    requires
        lex_lt(a, b),
        lex_lt(b, c),
    ensures
        lex_lt(a, c),
    decreases a.len(),
{
    if a.len() > 0 && b.len() > 0 && c.len() > 0 && a[0] == b[0] && b[0] == c[0] {
        lemma_lex_transitive(a.drop_first(), b.drop_first(), c.drop_first());
    }
}

/// Of two different texts, one comes before the other, and not both ways.
pub proof fn lemma_lex_total(a: Seq<char>, b: Seq<char>)
    ensures
        a != b ==> lex_lt(a, b) || lex_lt(b, a),
        !(lex_lt(a, b) && lex_lt(b, a)),
    decreases a.len(),
{
    if a.len() > 0 && b.len() > 0 {
        lemma_lex_total(a.drop_first(), b.drop_first());
        if a[0] == b[0] && a.drop_first() == b.drop_first() {
            assert(a =~= seq![a[0]] + a.drop_first());
            assert(b =~= seq![b[0]] + b.drop_first());
        }
    } else if a.len() == 0 && b.len() == 0 {
        assert(a =~= b);
    }
}

/// Whether `a` comes before `b` in lexicographic order by code point.
pub fn text_less(a: &[char], b: &[char]) -> (r: bool)
    ensures
        r == lex_lt(a@, b@),
{
    let mut i: usize = 0;
    assert(a@.skip(0) =~= a@ && b@.skip(0) =~= b@);
    while i < a.len() && i < b.len()
        invariant
            i <= a@.len(),
            i <= b@.len(),
            lex_lt(a@, b@) == lex_lt(a@.skip(i as int), b@.skip(i as int)),
        decreases a.len() - i,
    {
        let x = a[i];
        let y = b[i];
        if x != y {
            proof {
                assert(a@.skip(i as int)[0] == x);
                assert(b@.skip(i as int)[0] == y);
            }
            return x < y;
        }
        proof {
            assert(a@.skip(i as int).drop_first() =~= a@.skip(i + 1));
            assert(b@.skip(i as int).drop_first() =~= b@.skip(i + 1));
        }
        i = i + 1;
    }
    i == a.len() && i < b.len()
}

/// Every element comes before every later one.
pub open spec fn strictly_sorted(s: Seq<Seq<char>>) -> bool {
    forall|i: int, j: int| 0 <= i < j < s.len() ==> lex_lt(#[trigger] s[i], #[trigger] s[j])
}

/// The distinct elements of `s`, in lexicographic order.
pub open spec fn sorted_unique(s: Seq<Seq<char>>) -> Seq<Seq<char>> {
    choose|r: Seq<Seq<char>>| strictly_sorted(r) && r.to_set() == s.to_set()
}

/// Two strictly sorted sequences with the same elements are equal.
pub proof fn lemma_sorted_unique_determined(r1: Seq<Seq<char>>, r2: Seq<Seq<char>>)
    requires
        strictly_sorted(r1),
        strictly_sorted(r2),
        r1.to_set() == r2.to_set(),
    ensures
        r1 == r2,
    decreases r1.len(),
{
    if r1.len() == 0 {
        if r2.len() > 0 {
            assert(r2.to_set().contains(r2[0]));
        }
        assert(r1 =~= r2);
    } else {
        assert(r1.to_set().contains(r1[0]));
        if r2.len() == 0 {
            assert(false);
        }
        let m1 = r1[0];
        let m2 = r2[0];
        assert(r2.to_set().contains(m1));
        assert(r1.to_set().contains(m2));
        let i1 = choose|i: int| 0 <= i < r2.len() && r2[i] == m1;
        let i2 = choose|i: int| 0 <= i < r1.len() && r1[i] == m2;
        if m1 != m2 {
            lemma_lex_total(m1, m2);
            if i2 > 0 {
                assert(lex_lt(r1[0], r1[i2]));
            }
            if i1 > 0 {
                assert(lex_lt(r2[0], r2[i1]));
            }
            lemma_lex_irreflexive(m1);
        }
        let t1 = r1.drop_first();
        let t2 = r2.drop_first();
        assert forall|x: Seq<char>| t1.to_set().contains(x) <==> t2.to_set().contains(x) by {
            if t1.to_set().contains(x) {
                let k = choose|k: int| 0 <= k < t1.len() && t1[k] == x;
                assert(r1[k + 1] == x);
                assert(lex_lt(r1[0], r1[k + 1]));
                lemma_lex_irreflexive(x);
                assert(r2.to_set().contains(x));
                let k2 = choose|k2: int| 0 <= k2 < r2.len() && r2[k2] == x;
                assert(k2 != 0);
                assert(t2[k2 - 1] == x);
            }
            if t2.to_set().contains(x) {
                let k = choose|k: int| 0 <= k < t2.len() && t2[k] == x;
                assert(r2[k + 1] == x);
                assert(lex_lt(r2[0], r2[k + 1]));
                lemma_lex_irreflexive(x);
                assert(r1.to_set().contains(x));
                let k1 = choose|k1: int| 0 <= k1 < r1.len() && r1[k1] == x;
                assert(k1 != 0);
                assert(t1[k1 - 1] == x);
            }
        }
        assert(t1.to_set() =~= t2.to_set());
        assert forall|i: int, j: int| 0 <= i < j < t1.len() implies lex_lt(#[trigger] t1[i], #[trigger] t1[j]) by {
            assert(t1[i] == r1[i + 1] && t1[j] == r1[j + 1]);
        }
        assert forall|i: int, j: int| 0 <= i < j < t2.len() implies lex_lt(#[trigger] t2[i], #[trigger] t2[j]) by {
            assert(t2[i] == r2[i + 1] && t2[j] == r2[j + 1]);
        }
        lemma_sorted_unique_determined(t1, t2);
        assert(r1 =~= seq![m1] + t1);
        assert(r2 =~= seq![m2] + t2);
    }
}

/// Inserts `x` into a strictly sorted list of texts, unless it is there.
pub fn insert_sorted(v: &mut Vec<String>, x: String)
    requires
        strictly_sorted(views(old(v)@)),
    ensures
        strictly_sorted(views(final(v)@)),
        views(final(v)@).to_set() == views(old(v)@).to_set().insert(x@),
{
    let xc = chars_of(x.as_str());
    let ghost w = views(v@);
    let mut i: usize = 0;
    while i < v.len()
        invariant
            i <= v@.len(),
            w == views(v@),
            v@ == old(v)@,
            xc@ == x@,
            strictly_sorted(w),
            forall|k: int| 0 <= k < i ==> lex_lt(#[trigger] w[k], x@),
        decreases v.len() - i,
    {
        let yc = chars_of(v[i].as_str());
        if !text_less(&yc, &xc) {
            proof { lemma_lex_total(x@, w[i as int]); }
            if str_eq(v[i].as_str(), x.as_str()) {
                assert(w.to_set().insert(x@) =~= w.to_set()) by {
                    assert(w.to_set().contains(x@)) by {
                        assert(w[i as int] == x@);
                    }
                }
                return;
            }
            let ghost xv = x@;
            v.insert(i, x);
            proof {
                let nw = views(v@);
                assert(nw =~= w.insert(i as int, xv));
                assert forall|a: int, b: int| 0 <= a < b < nw.len() implies lex_lt(#[trigger] nw[a], #[trigger] nw[b]) by {
                    if b < i {
                        assert(nw[a] == w[a] && nw[b] == w[b]);
                    } else if b == i {
                        assert(nw[a] == w[a]);
                    } else if a < i {
                        assert(nw[a] == w[a] && nw[b] == w[b - 1]);
                        if b - 1 > i {
                            assert(lex_lt(w[i as int], w[b - 1]));
                            lemma_lex_transitive(xv, w[i as int], w[b - 1]);
                        }
                        lemma_lex_transitive(w[a], xv, w[b - 1]);
                    } else if a == i {
                        assert(nw[b] == w[b - 1]);
                        if b - 1 > i {
                            assert(lex_lt(w[i as int], w[b - 1]));
                            lemma_lex_transitive(xv, w[i as int], w[b - 1]);
                        }
                    } else {
                        assert(nw[a] == w[a - 1] && nw[b] == w[b - 1]);
                    }
                }
                assert forall|y: Seq<char>| nw.to_set().contains(y) <==> w.to_set().insert(xv).contains(y) by {
                    if nw.contains(y) {
                        let k = choose|k: int| 0 <= k < nw.len() && nw[k] == y;
                        if k < i {
                            assert(w[k] == y);
                        } else if k > i {
                            assert(w[k - 1] == y);
                        }
                    }
                    if w.contains(y) {
                        let k = choose|k: int| 0 <= k < w.len() && w[k] == y;
                        if k < i {
                            assert(nw[k] == y);
                        } else {
                            assert(nw[k + 1] == y);
                        }
                    }
                    if y == xv {
                        assert(nw[i as int] == y);
                    }
                }
                assert(nw.to_set() =~= w.to_set().insert(xv));
            }
            return;
        }
        i = i + 1;
    }
    let ghost xv = x@;
    v.push(x);
    proof {
        let nw = views(v@);
        assert(nw =~= w.push(xv));
        assert forall|a: int, b: int| 0 <= a < b < nw.len() implies lex_lt(#[trigger] nw[a], #[trigger] nw[b]) by {
            assert(nw[a] == w[a]);
            if b < w.len() {
                assert(nw[b] == w[b]);
            }
        }
        assert forall|y: Seq<char>| nw.to_set().contains(y) <==> w.to_set().insert(xv).contains(y) by {
            if nw.contains(y) {
                let k = choose|k: int| 0 <= k < nw.len() && nw[k] == y;
                if k < w.len() {
                    assert(w[k] == y);
                }
            }
            if w.contains(y) {
                let k = choose|k: int| 0 <= k < w.len() && w[k] == y;
                assert(nw[k] == y);
            }
            if y == xv {
                assert(nw[w.len() as int] == y);
            }
        }
        assert(nw.to_set() =~= w.to_set().insert(xv));
    }
}

// ============================================================================
// JOINING, REPEATING, NUMBERS
// ============================================================================

/// Concatenation of `parts` with `sep` between consecutive ones.
pub fn join_strings(parts: &[String], sep: &str) -> (s: String)
    ensures
        s@ == join(views(parts@), sep@),
{
    let mut s = String::new();
    let mut i: usize = 0;
    while i < parts.len()
        invariant
            i <= parts@.len(),
            s@ == join(views(parts@.subrange(0, i as int)), sep@),
        decreases parts.len() - i,
    {
        let ghost prev = views(parts@.subrange(0, i as int));
        if i > 0 {
            append(&mut s, sep);
        }
        append(&mut s, parts[i].as_str());
        proof {
            let next = views(parts@.subrange(0, i + 1));
            assert(next.drop_last() =~= prev);
            assert(next.last() == parts@[i as int]@);
            if i == 0 {
                assert(prev.len() == 0);
                assert(s@ =~= next[0]);
            }
        }
        i = i + 1;
    }
    assert(parts@.subrange(0, parts@.len() as int) =~= parts@);
    s
}

/// A string of `n` copies of `c`.
pub fn repeat(c: char, n: usize) -> (s: String)
    ensures
        s@ == repeat_char(c, n as nat),
{
    let mut s = String::new();
    let mut i: usize = 0;
    while i < n
        invariant
            i <= n,
            s@ == repeat_char(c, i as nat),
        decreases n - i,
    {
        push_char(&mut s, c);
        assert(s@ =~= repeat_char(c, (i + 1) as nat));
        i = i + 1;
    }
    s
}

/// The decimal digit for `d`.
pub open spec fn digit(d: nat) -> char {
    if d == 0 { '0' }
    else if d == 1 { '1' }
    else if d == 2 { '2' }
    else if d == 3 { '3' }
    else if d == 4 { '4' }
    else if d == 5 { '5' }
    else if d == 6 { '6' }
    else if d == 7 { '7' }
    else if d == 8 { '8' }
    else { '9' }
}

/// Decimal representation of `n`, without leading zeros.
pub open spec fn decimal(n: nat) -> Seq<char>
    decreases n,
{
    if n < 10 {
        seq![digit(n)]
    } else {
        decimal(n / 10).push(digit(n % 10))
    }
}

fn digit_char(d: u64) -> (c: char)
    requires
        d < 10,
    ensures
        c == digit(d as nat),
{
    if d == 0 { '0' }
    else if d == 1 { '1' }
    else if d == 2 { '2' }
    else if d == 3 { '3' }
    else if d == 4 { '4' }
    else if d == 5 { '5' }
    else if d == 6 { '6' }
    else if d == 7 { '7' }
    else if d == 8 { '8' }
    else { '9' }
}

/// Appends the decimal representation of `n` to `s`.
pub fn push_decimal(s: &mut String, n: u64)
    ensures
        final(s)@ == old(s)@ + decimal(n as nat),
    decreases n,
{
    if n >= 10 {
        push_decimal(s, n / 10);
    }
    push_char(s, digit_char(n % 10));
    assert(final(s)@ =~= old(s)@ + decimal(n as nat)) by {
        if n >= 10 {
            assert(decimal(n as nat) == decimal((n / 10) as nat).push(digit((n % 10) as nat)));
        }
    }
}

/// The decimal representation of `n`.
pub fn to_decimal(n: u64) -> (s: String)
    ensures
        s@ == decimal(n as nat),
{
    let mut s = String::new();
    push_decimal(&mut s, n);
    assert(s@ =~= decimal(n as nat));
    s
}

// ============================================================================
// CASE CONVERSION (std)
// ============================================================================

/// What `str::to_lowercase` returns for a text: Unicode lowercase mapping.
pub uninterp spec fn lowercase_of(s: Seq<char>) -> Seq<char>;

/// What `str::to_uppercase` returns for a text: Unicode uppercase mapping.
pub uninterp spec fn uppercase_of(s: Seq<char>) -> Seq<char>;

/// Calls `str::to_lowercase`; its result is the Unicode lowercase mapping of
/// the argument, a function of the argument alone.
#[verifier::external_body]
pub fn to_lowercase(s: &str) -> (r: String)
    ensures
        r@ == lowercase_of(s@),
{
    s.to_lowercase()
}

/// Calls `str::to_uppercase`; its result is the Unicode uppercase mapping of
/// the argument, a function of the argument alone.
#[verifier::external_body]
pub fn to_uppercase(s: &str) -> (r: String)
    ensures
        r@ == uppercase_of(s@),
{
    s.to_uppercase()
}

/// Whether a character has the Unicode `Alphabetic` property, as
/// `char::is_alphabetic` decides; a function of the character alone.
pub uninterp spec fn alphabetic(c: char) -> bool;

/// Calls `char::is_alphabetic`.
#[verifier::external_body]
pub fn is_alphabetic(c: char) -> (b: bool)
    ensures
        b == alphabetic(c),
{
    c.is_alphabetic()
}

/// Whether two texts are equal.
pub fn str_eq(a: &str, b: &str) -> (r: bool)
    ensures
        r == (a@ == b@),
{
    let x = chars_of(a);
    let y = chars_of(b);
    if x.len() != y.len() {
        return false;
    }
    let mut i: usize = 0;
    while i < x.len()
        invariant
            x@ == a@,
            y@ == b@,
            x@.len() == y@.len(),
            i <= x@.len(),
            forall|j: int| 0 <= j < i ==> x@[j] == y@[j],
        decreases x.len() - i,
    {
        if x[i] != y[i] {
            return false;
        }
        i = i + 1;
    }
    assert(x@ =~= y@);
    true
}

// ============================================================================
// TEXT ARGUMENTS
// ============================================================================

/// A value that can be turned into an owned `String` (`&str` or `String`).
pub trait TextLike {
    /// The characters that the value stands for.
    spec fn text(&self) -> Seq<char>;

    /// The value as an owned string.
    fn into_string(self) -> (r: String)
        ensures
            r@ == self.text(),
    ;
}

impl<'a> TextLike for &'a str {
    open spec fn text(&self) -> Seq<char> {
        (*self)@
    }

    fn into_string(self) -> (r: String) {
        to_owned(self)
    }
}

impl TextLike for String {
    open spec fn text(&self) -> Seq<char> {
        self@
    }

    fn into_string(self) -> (r: String) {
        self
    }
}

impl<'a> TextLike for &'a String {
    open spec fn text(&self) -> Seq<char> {
        (*self)@
    }

    fn into_string(self) -> (r: String) {
        self.clone()
    }
}

/// A concatenation begins with its first part.
pub proof fn lemma_prefix_of_concat(a: Seq<char>, b: Seq<char>)
    ensures
        has_prefix(a + b, a),
{
    assert((a + b).subrange(0, a.len() as int) =~= a);
}

} // verus!
