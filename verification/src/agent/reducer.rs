//! Chat reducers: context window management for agent threads.
//!
//! When conversation history grows too long for the LLM's context window,
//! a reducer trims it while keeping what matters. Every reducer keeps all
//! system messages.
//!
//! | Reducer | Strategy |
//! |---------|----------|
//! | `MessageCountingReducer` | Keep the last N messages |
//! | `TokenCountingReducer` | Keep within a token budget |
//! | `SlidingWindowReducer` | Keep recent and important messages |
//! | `NoOpReducer` | Keep everything |
use vstd::prelude::*;
use crate::agent::types::{ChatMessage, ChatRole};
use crate::json::{json_as_bool, json_bool, json_get, json_member};
use crate::graph::paths::lemma_filter_subset;

verus! {

// ============================================================================
// MESSAGE SELECTIONS
// ============================================================================

/// The system messages, in order.
pub open spec fn system_part(ms: Seq<ChatMessage>) -> Seq<ChatMessage> {
    ms.filter(|m: ChatMessage| m.role == ChatRole::System)
}

/// The messages other than system messages, in order.
pub open spec fn conversation_part(ms: Seq<ChatMessage>) -> Seq<ChatMessage> {
    ms.filter(|m: ChatMessage| m.role != ChatRole::System)
}

/// Splits messages into the system messages and the others, each in order.
fn split_system(ms: &[ChatMessage]) -> (r: (Vec<ChatMessage>, Vec<ChatMessage>))
    ensures
        r.0@ == system_part(ms@),
        r.1@ == conversation_part(ms@),
{
    let mut system: Vec<ChatMessage> = Vec::new();
    let mut others: Vec<ChatMessage> = Vec::new();
    let mut i: usize = 0;
    while i < ms.len()
        invariant
            i <= ms@.len(),
            system@ == system_part(ms@.take(i as int)),
            others@ == conversation_part(ms@.take(i as int)),
        decreases ms.len() - i,
    {
        let m = ms[i].clone();
        if m.is_system() {
            system.push(m);
        } else {
            others.push(m);
        }
        proof {
            let t = ms@.take(i + 1);
            assert(t.drop_last() =~= ms@.take(i as int));
            assert(t.last() == ms@[i as int]);
            reveal(Seq::filter);
        }
        i = i + 1;
    }
    assert(ms@.take(ms@.len() as int) =~= ms@);
    (system, others)
}

/// Copies of the messages, in order.
fn copy_messages(ms: &[ChatMessage]) -> (r: Vec<ChatMessage>)
    ensures
        r@ == ms@,
{
    let mut r: Vec<ChatMessage> = Vec::new();
    let mut i: usize = 0;
    while i < ms.len()
        invariant
            i <= ms@.len(),
            r@ == ms@.take(i as int),
        decreases ms.len() - i,
    {
        r.push(ms[i].clone());
        assert(ms@.take(i + 1) =~= ms@.take(i as int).push(ms@[i as int]));
        i = i + 1;
    }
    assert(ms@.take(ms@.len() as int) =~= ms@);
    r
}

/// The messages of `ms` from index `from` on, in order.
fn messages_from(ms: Vec<ChatMessage>, from: usize) -> (r: Vec<ChatMessage>)
    requires
        from <= ms@.len(),
    ensures
        r@ == ms@.skip(from as int),
{
    let mut r: Vec<ChatMessage> = Vec::new();
    let mut rest = ms;
    let ghost orig = rest@;
    let mut i: usize = 0;
    while i < from
        invariant
            i <= from <= orig.len(),
            rest@ == orig.skip(i as int),
        decreases from - i,
    {
        rest.remove(0);
        assert(rest@ =~= orig.skip(i + 1));
        i = i + 1;
    }
    rest
}

/// Appends `b` after `a`.
fn concat_messages(a: Vec<ChatMessage>, b: Vec<ChatMessage>) -> (r: Vec<ChatMessage>)
    ensures
        r@ == a@ + b@,
{
    let mut r = a;
    let mut b = b;
    r.append(&mut b);
    r
}

// ============================================================================
// CHAT REDUCER TRAIT
// ============================================================================

/// Reduces chat history to fit a context window.
///
/// Implementations should preserve system messages (always kept), recent
/// context, and important context where they support marking it.
pub trait ChatReducer: Send + Sync {
    /// The messages are ones this reducer can handle.
    spec fn admits(&self, messages: Seq<ChatMessage>) -> bool;

    /// The reduced history for the messages.
    spec fn reduced(&self, messages: Seq<ChatMessage>) -> Seq<ChatMessage>;

    /// Whether the messages call for a reduction.
    spec fn reduction_needed(&self, messages: Seq<ChatMessage>) -> bool;

    /// Reduce the message history according to the strategy, leaving the
    /// original untouched.
    fn reduce(&self, messages: &[ChatMessage]) -> (r: Vec<ChatMessage>)
        requires
            self.admits(messages@),
        ensures
            r@ == self.reduced(messages@),
    ;

    /// Check if reduction is needed.
    fn needs_reduction(&self, messages: &[ChatMessage]) -> (b: bool)
        requires
            self.admits(messages@),
        ensures
            b == self.reduction_needed(messages@),
    ;
}

// ============================================================================
// MESSAGE COUNTING REDUCER
// ============================================================================

/// Whether the first message other than a system message is a user message.
pub open spec fn starts_with_user(ms: Seq<ChatMessage>) -> bool {
    conversation_part(ms).len() > 0 && conversation_part(ms)[0].role == ChatRole::User
}

/// How many of the last non-system messages a counting reducer keeps when
/// it reduces: `max`, one fewer when keeping pairs would otherwise start
/// the kept part on an assistant message (and more than one is kept).
pub open spec fn count_kept(ms: Seq<ChatMessage>, max: nat, pairs: bool) -> nat {
    let non = conversation_part(ms);
    if pairs && starts_with_user(ms) && max > 1 && non[non.len() - max].role == ChatRole::Assistant {
        (max - 1) as nat
    } else {
        max
    }
}

/// What a counting reducer returns: the messages unchanged when at most
/// `max` are not system messages; else the system messages followed by the
/// last kept non-system ones.
pub open spec fn count_reduced(ms: Seq<ChatMessage>, max: nat, pairs: bool) -> Seq<ChatMessage> {
    let non = conversation_part(ms);
    if non.len() <= max {
        ms
    } else {
        system_part(ms) + non.skip(non.len() - count_kept(ms, max, pairs))
    }
}

/// Keeps the last N messages while preserving system messages.
///
/// This is the simplest reducer: it counts messages regardless of size.
pub struct MessageCountingReducer {
    /// Maximum number of non-system messages to keep.
    max_messages: usize,
    /// Whether to preserve alternating user/assistant pattern.
    preserve_pairs: bool,
}

impl MessageCountingReducer {
    /// The maximum number of non-system messages kept.
    pub closed spec fn limit(&self) -> nat {
        self.max_messages as nat
    }

    /// Whether the kept part is made to start on a user message.
    pub closed spec fn keeps_pairs(&self) -> bool {
        self.preserve_pairs
    }

    /// A reducer with a message limit, preserving user/assistant pairs.
    pub fn new(max_messages: usize) -> (r: Self)
        ensures
            r.limit() == max_messages,
            r.keeps_pairs(),
    {
        MessageCountingReducer { max_messages, preserve_pairs: true }
    }

    /// The same reducer, not trying to preserve user/assistant pairs.
    pub fn without_pair_preservation(self) -> (r: Self)
        ensures
            r.limit() == self.limit(),
            !r.keeps_pairs(),
    {
        MessageCountingReducer { max_messages: self.max_messages, preserve_pairs: false }
    }

    /// Whether pairs are preserved and the first non-system message is a
    /// user message.
    fn should_start_with_user(&self, messages: &[ChatMessage]) -> (b: bool)
        ensures
            b == (self.preserve_pairs && starts_with_user(messages@)),
    {
        if !self.preserve_pairs {
            return false;
        }
        let ghost pred = |m: ChatMessage| m.role != ChatRole::System;
        let mut i: usize = 0;
        while i < messages.len()
            invariant
                i <= messages@.len(),
                self.preserve_pairs,
                pred == (|m: ChatMessage| m.role != ChatRole::System),
                conversation_part(messages@.take(i as int)).len() == 0,
            decreases messages.len() - i,
        {
            proof {
                let t = messages@.take(i + 1);
                assert(t.drop_last() =~= messages@.take(i as int));
                assert(t.last() == messages@[i as int]);
                reveal(Seq::filter);
            }
            if !messages[i].is_system() {
                proof {
                    let a = messages@.take(i + 1);
                    let b = messages@.skip(i + 1);
                    assert(messages@ =~= a + b);
                    Seq::<ChatMessage>::filter_distributes_over_add(a, b, pred);
                    assert(a.filter(pred) =~= seq![messages@[i as int]]);
                    assert(conversation_part(messages@) == a.filter(pred) + b.filter(pred));
                }
                return messages[i].is_user();
            }
            i = i + 1;
        }
        assert(messages@.take(messages@.len() as int) =~= messages@);
        false
    }
}

impl Default for MessageCountingReducer {
    fn default() -> (r: Self)
        ensures
            r.limit() == 50,
            r.keeps_pairs(),
    {
        Self::new(50)
    }
}

impl ChatReducer for MessageCountingReducer {
    open spec fn admits(&self, messages: Seq<ChatMessage>) -> bool {
        true
    }

    open spec fn reduced(&self, messages: Seq<ChatMessage>) -> Seq<ChatMessage> {
        count_reduced(messages, self.limit(), self.keeps_pairs())
    }

    open spec fn reduction_needed(&self, messages: Seq<ChatMessage>) -> bool {
        conversation_part(messages).len() > self.limit()
    }

    fn reduce(&self, messages: &[ChatMessage]) -> (r: Vec<ChatMessage>) {
        let (system, non_system) = split_system(messages);
        if non_system.len() <= self.max_messages {
            return copy_messages(messages);
        }
        let mut to_keep = self.max_messages;
        if self.preserve_pairs && self.should_start_with_user(messages) {
            let start_idx = non_system.len() - to_keep;
            if start_idx < non_system.len() {
                if non_system[start_idx].is_assistant() && to_keep > 1 {
                    to_keep = to_keep - 1;
                }
            }
        }
        let from = non_system.len() - to_keep;
        let recent = messages_from(non_system, from);
        concat_messages(system, recent)
    }

    fn needs_reduction(&self, messages: &[ChatMessage]) -> (b: bool) {
        let (_, non_system) = split_system(messages);
        non_system.len() > self.max_messages
    }
}


// ============================================================================
// TOKEN COUNTING REDUCER
// ============================================================================

/// The estimated tokens of a message: its content's length in bytes,
/// divided by the characters per token, plus one.
pub open spec fn token_estimate(m: ChatMessage, chars_per_token: nat) -> nat {
    (byte_len(m.content@) as nat / chars_per_token + 1) as nat
}

/// The length in bytes of the UTF-8 encoding of a text.
pub open spec fn byte_len(s: Seq<char>) -> usize {
    vstd::utf8::encode_utf8(s).len() as usize
}

/// The estimated tokens of all the messages.
pub open spec fn total_tokens(ms: Seq<ChatMessage>, chars_per_token: nat) -> nat
    decreases ms.len(),
{
    if ms.len() == 0 {
        0
    } else {
        total_tokens(ms.drop_last(), chars_per_token) + token_estimate(ms.last(), chars_per_token)
    }
}

/// The messages kept from the end of `ms` within `budget` tokens: walking
/// back from the last message, each is kept while it still fits, and the
/// walk stops at the first that does not.
pub open spec fn kept_within(ms: Seq<ChatMessage>, budget: nat, chars_per_token: nat) -> Seq<ChatMessage>
    decreases ms.len(),
{
    if ms.len() == 0 {
        Seq::empty()
    } else {
        let t = token_estimate(ms.last(), chars_per_token);
        if t > budget {
            Seq::empty()
        } else {
            kept_within(ms.drop_last(), (budget - t) as nat, chars_per_token).push(ms.last())
        }
    }
}

/// What a token counting reducer returns: the system messages alone when
/// they use up the budget, else the system messages followed by the
/// non-system messages kept within what is left of it.
pub open spec fn token_reduced(ms: Seq<ChatMessage>, max: nat, chars_per_token: nat) -> Seq<ChatMessage> {
    let st = total_tokens(system_part(ms), chars_per_token);
    if st >= max {
        system_part(ms)
    } else {
        system_part(ms) + kept_within(conversation_part(ms), (max - st) as nat, chars_per_token)
    }
}

/// The estimate of two sequences together is the sum of their estimates.
pub proof fn lemma_total_tokens_concat(a: Seq<ChatMessage>, b: Seq<ChatMessage>, cpt: nat)
    ensures
        total_tokens(a + b, cpt) == total_tokens(a, cpt) + total_tokens(b, cpt),
    decreases b.len(),
{
    if b.len() > 0 {
        lemma_total_tokens_concat(a, b.drop_last(), cpt);
        assert((a + b).drop_last() =~= a + b.drop_last());
        assert((a + b).last() == b.last());
    }
}

/// Filtering never raises the estimate.
pub proof fn lemma_total_tokens_filter(ms: Seq<ChatMessage>, pred: spec_fn(ChatMessage) -> bool, cpt: nat)
    ensures
        total_tokens(ms.filter(pred), cpt) <= total_tokens(ms, cpt),
    decreases ms.len(),
{
    reveal(Seq::filter);
    if ms.len() > 0 {
        lemma_total_tokens_filter(ms.drop_last(), pred, cpt);
        if pred(ms.last()) {
            assert(ms.filter(pred).drop_last() =~= ms.drop_last().filter(pred));
        }
    }
}

/// A part of a sequence, cut before or after an index, has an estimate no
/// larger than the whole.
proof fn lemma_total_tokens_split(ms: Seq<ChatMessage>, k: int, cpt: nat)
    requires
        0 <= k <= ms.len(),
    ensures
        total_tokens(ms.take(k), cpt) <= total_tokens(ms, cpt),
        total_tokens(ms.skip(k), cpt) <= total_tokens(ms, cpt),
        total_tokens(ms, cpt) == total_tokens(ms.take(k), cpt) + total_tokens(ms.skip(k), cpt),
{
    assert(ms =~= ms.take(k) + ms.skip(k));
    lemma_total_tokens_concat(ms.take(k), ms.skip(k), cpt);
}

/// Reduces messages to stay within a token budget.
///
/// Uses a simple approximation of characters per token (4 by default).
/// System messages are always preserved, and counted against the budget.
pub struct TokenCountingReducer {
    /// Maximum tokens to allow.
    max_tokens: usize,
    /// Estimated characters per token.
    chars_per_token: usize,
}

impl TokenCountingReducer {
    /// The token budget.
    pub closed spec fn budget(&self) -> nat {
        self.max_tokens as nat
    }

    /// The characters counted as one token.
    pub closed spec fn token_chars(&self) -> nat {
        self.chars_per_token as nat
    }

    /// A reducer with a token limit, counting four characters per token.
    pub fn new(max_tokens: usize) -> (r: Self)
        ensures
            r.budget() == max_tokens,
            r.token_chars() == 4,
    {
        TokenCountingReducer { max_tokens, chars_per_token: 4 }
    }

    /// The same reducer with another characters-per-token ratio.
    pub fn with_chars_per_token(self, chars: usize) -> (r: Self)
        ensures
            r.budget() == self.budget(),
            r.token_chars() == chars,
    {
        TokenCountingReducer { max_tokens: self.max_tokens, chars_per_token: chars }
    }

    /// The estimated tokens of a message.
    fn estimate_tokens(&self, message: &ChatMessage) -> (n: usize)
        requires
            self.chars_per_token > 0,
            token_estimate(*message, self.chars_per_token as nat) <= usize::MAX,
        ensures
            n == token_estimate(*message, self.chars_per_token as nat),
    {
        message.content.as_str().len() / self.chars_per_token + 1
    }

    /// The estimated tokens of all the messages.
    fn sum_tokens(&self, messages: &Vec<ChatMessage>) -> (n: usize)
        requires
            self.chars_per_token > 0,
            total_tokens(messages@, self.chars_per_token as nat) <= usize::MAX,
        ensures
            n == total_tokens(messages@, self.chars_per_token as nat),
    {
        let ghost cpt = self.chars_per_token as nat;
        let mut sum: usize = 0;
        let mut i: usize = 0;
        while i < messages.len()
            invariant
                i <= messages@.len(),
                self.chars_per_token > 0,
                cpt == self.chars_per_token as nat,
                total_tokens(messages@, cpt) <= usize::MAX,
                sum == total_tokens(messages@.take(i as int), cpt),
            decreases messages.len() - i,
        {
            proof {
                let t = messages@.take(i + 1);
                assert(t.drop_last() =~= messages@.take(i as int));
                assert(t.last() == messages@[i as int]);
                lemma_total_tokens_split(messages@, i + 1, cpt);
            }
            let n = self.estimate_tokens(&messages[i]);
            sum = sum + n;
            i = i + 1;
        }
        assert(messages@.take(messages@.len() as int) =~= messages@);
        sum
    }
}

impl ChatReducer for TokenCountingReducer {
    open spec fn admits(&self, messages: Seq<ChatMessage>) -> bool {
        self.token_chars() > 0 && total_tokens(messages, self.token_chars()) <= usize::MAX
    }

    open spec fn reduced(&self, messages: Seq<ChatMessage>) -> Seq<ChatMessage> {
        token_reduced(messages, self.budget(), self.token_chars())
    }

    open spec fn reduction_needed(&self, messages: Seq<ChatMessage>) -> bool {
        total_tokens(messages, self.token_chars()) > self.budget()
    }

    fn reduce(&self, messages: &[ChatMessage]) -> (r: Vec<ChatMessage>) {
        let ghost cpt = self.chars_per_token as nat;
        let (system, non_system) = split_system(messages);
        proof {
            lemma_total_tokens_filter(messages@, |m: ChatMessage| m.role == ChatRole::System, cpt);
            lemma_total_tokens_filter(messages@, |m: ChatMessage| m.role != ChatRole::System, cpt);
        }
        let system_tokens = self.sum_tokens(&system);
        if system_tokens >= self.max_tokens {
            return system;
        }
        let remaining_budget = self.max_tokens - system_tokens;
        let ghost non = non_system@;
        let mut kept: Vec<ChatMessage> = Vec::new();
        let mut used_tokens: usize = 0;
        let mut i: usize = non_system.len();
        proof {
            assert(non.take(non.len() as int) =~= non);
            assert(non.skip(non.len() as int) =~= Seq::<ChatMessage>::empty());
            assert(kept@ =~= non.skip(non.len() as int));
        }
        while i > 0
            invariant_except_break
                i <= non.len(),
                non == non_system@,
                self.chars_per_token > 0,
                cpt == self.chars_per_token as nat,
                total_tokens(non, cpt) <= usize::MAX,
                used_tokens == total_tokens(non.skip(i as int), cpt),
                used_tokens <= remaining_budget,
                kept@ == non.skip(i as int),
                kept_within(non, remaining_budget as nat, cpt)
                    == kept_within(non.take(i as int), (remaining_budget - used_tokens) as nat, cpt) + non.skip(i as int),
            ensures
                kept@ == kept_within(non, remaining_budget as nat, cpt),
            decreases i,
        {
            proof {
                lemma_total_tokens_split(non, i - 1, cpt);
                let s = non.skip(i - 1);
                assert(s =~= seq![non[i - 1]] + non.skip(i as int));
                lemma_total_tokens_concat(seq![non[i - 1]], non.skip(i as int), cpt);
                assert(seq![non[i - 1]].drop_last() =~= Seq::<ChatMessage>::empty());
            }
            let tokens = self.estimate_tokens(&non_system[i - 1]);
            let ghost t = non.take(i as int);
            proof {
                assert(t.last() == non[i - 1]);
                assert(t.drop_last() =~= non.take(i - 1));
            }
            if used_tokens + tokens > remaining_budget {
                proof {
                    assert(kept_within(t, (remaining_budget - used_tokens) as nat, cpt) =~= Seq::<ChatMessage>::empty());
                    assert(kept_within(non, remaining_budget as nat, cpt) =~= non.skip(i as int));
                }
                break;
            }
            kept.insert(0, non_system[i - 1].clone());
            proof {
                assert(kept@ =~= non.skip(i - 1));
                let r0 = (remaining_budget - used_tokens) as nat;
                assert(kept_within(t, r0, cpt)
                    == kept_within(non.take(i - 1), (r0 - tokens) as nat, cpt).push(non[i - 1]));
                assert(kept_within(non.take(i - 1), (r0 - tokens) as nat, cpt).push(non[i - 1]) + non.skip(i as int)
                    =~= kept_within(non.take(i - 1), (r0 - tokens) as nat, cpt) + non.skip(i - 1));
            }
            proof {
                let one = seq![non[i - 1]];
                assert(one.drop_last() =~= Seq::<ChatMessage>::empty());
                assert(total_tokens(one.drop_last(), cpt) == 0);
                assert(one.last() == non[i - 1]);
                assert(total_tokens(one, cpt) == tokens);
                assert(total_tokens(non.skip(i - 1), cpt) == tokens + used_tokens);
            }
            used_tokens = used_tokens + tokens;
            i = i - 1;
        }
        proof {
            if i == 0 {
                assert(non.skip(0) =~= non);
            }
        }
        concat_messages(system, kept)
    }

    fn needs_reduction(&self, messages: &[ChatMessage]) -> (b: bool) {
        let all = copy_messages(messages);
        self.sum_tokens(&all) > self.max_tokens
    }
}


// ============================================================================
// SLIDING WINDOW REDUCER
// ============================================================================

/// Whether a message's metadata marks it important: an `important` member
/// that is `true`.
pub open spec fn marked_important(m: ChatMessage) -> bool {
    match m.metadata {
        Some(v) => match json_member(v, "important"@) {
            Some(f) => json_bool(f) == Some(true),
            None => false,
        },
        None => false,
    }
}

/// The important non-system messages, in order.
pub open spec fn important_part(ms: Seq<ChatMessage>) -> Seq<ChatMessage> {
    ms.filter(|m: ChatMessage| m.role != ChatRole::System && marked_important(m))
}

/// The non-system messages not marked important, in order.
pub open spec fn plain_part(ms: Seq<ChatMessage>) -> Seq<ChatMessage> {
    ms.filter(|m: ChatMessage| m.role != ChatRole::System && !marked_important(m))
}

/// The smaller of two numbers.
pub open spec fn min_nat(a: nat, b: nat) -> nat {
    if a < b { a } else { b }
}

/// What a sliding window reducer returns: the system messages, then the
/// first `max_important` important messages, then as many of the latest
/// other non-system messages as the window has room for after those.
pub open spec fn sliding_reduced(ms: Seq<ChatMessage>, window: nat, max_important: nat) -> Seq<ChatMessage> {
    let imp = important_part(ms).take(min_nat(max_important, important_part(ms).len()) as int);
    let room: nat = if window > imp.len() { (window - imp.len()) as nat } else { 0 };
    let rest = plain_part(ms);
    let n = min_nat(room, rest.len());
    system_part(ms) + imp + rest.skip(rest.len() - n)
}

/// Keeps a sliding window of recent messages plus any marked as important.
///
/// Messages are marked important through their metadata:
/// `{"important": true}`.
pub struct SlidingWindowReducer {
    /// Size of the sliding window (recent messages).
    window_size: usize,
    /// Maximum important messages to preserve.
    max_important: usize,
}

impl SlidingWindowReducer {
    /// The size of the window.
    pub closed spec fn window(&self) -> nat {
        self.window_size as nat
    }

    /// The most important messages kept.
    pub closed spec fn important_limit(&self) -> nat {
        self.max_important as nat
    }

    /// A sliding window reducer keeping up to ten important messages.
    pub fn new(window_size: usize) -> (r: Self)
        ensures
            r.window() == window_size,
            r.important_limit() == 10,
    {
        SlidingWindowReducer { window_size, max_important: 10 }
    }

    /// The same reducer keeping up to `max` important messages.
    pub fn with_max_important(self, max: usize) -> (r: Self)
        ensures
            r.window() == self.window(),
            r.important_limit() == max,
    {
        SlidingWindowReducer { window_size: self.window_size, max_important: max }
    }

    /// Whether the message is marked important.
    fn is_important(&self, msg: &ChatMessage) -> (b: bool)
        ensures
            b == marked_important(*msg),
    {
        match &msg.metadata {
            Some(v) => match json_get(v, "important") {
                Some(f) => match json_as_bool(f) {
                    Some(b) => b,
                    None => false,
                },
                None => false,
            },
            None => false,
        }
    }

    /// Splits the non-system messages into the important ones and the
    /// others, each in order.
    fn split_important(&self, ms: &[ChatMessage]) -> (r: (Vec<ChatMessage>, Vec<ChatMessage>))
        ensures
            r.0@ == important_part(ms@),
            r.1@ == plain_part(ms@),
    {
        let mut important: Vec<ChatMessage> = Vec::new();
        let mut plain: Vec<ChatMessage> = Vec::new();
        let mut i: usize = 0;
        while i < ms.len()
            invariant
                i <= ms@.len(),
                important@ == important_part(ms@.take(i as int)),
                plain@ == plain_part(ms@.take(i as int)),
            decreases ms.len() - i,
        {
            if !ms[i].is_system() {
                if self.is_important(&ms[i]) {
                    important.push(ms[i].clone());
                } else {
                    plain.push(ms[i].clone());
                }
            }
            proof {
                let t = ms@.take(i + 1);
                assert(t.drop_last() =~= ms@.take(i as int));
                assert(t.last() == ms@[i as int]);
                reveal(Seq::filter);
            }
            i = i + 1;
        }
        assert(ms@.take(ms@.len() as int) =~= ms@);
        (important, plain)
    }
}

/// The first `n` messages of `ms`, or all of them when there are fewer.
fn first_messages(ms: Vec<ChatMessage>, n: usize) -> (r: Vec<ChatMessage>)
    ensures
        r@ == ms@.take(min_nat(n as nat, ms@.len()) as int),
{
    let mut r = ms;
    while r.len() > n
        invariant
            r@ == ms@.take(r@.len() as int),
            r@.len() <= ms@.len(),
            r@.len() >= min_nat(n as nat, ms@.len()),
        decreases r.len(),
    {
        let ghost before = r@;
        r.pop();
        assert(r@ =~= ms@.take(r@.len() as int));
    }
    assert(ms@.take(ms@.len() as int) =~= ms@);
    r
}

impl ChatReducer for SlidingWindowReducer {
    open spec fn admits(&self, messages: Seq<ChatMessage>) -> bool {
        true
    }

    open spec fn reduced(&self, messages: Seq<ChatMessage>) -> Seq<ChatMessage> {
        sliding_reduced(messages, self.window(), self.important_limit())
    }

    open spec fn reduction_needed(&self, messages: Seq<ChatMessage>) -> bool {
        conversation_part(messages).len() > self.window()
    }

    fn reduce(&self, messages: &[ChatMessage]) -> (r: Vec<ChatMessage>) {
        let (system, _) = split_system(messages);
        let (important_all, plain) = self.split_important(messages);
        let important = first_messages(important_all, self.max_important);
        let important_count = important.len();
        let recent_budget: usize = if self.window_size > important_count {
            self.window_size - important_count
        } else {
            0
        };
        let n: usize = if recent_budget < plain.len() { recent_budget } else { plain.len() };
        let from = plain.len() - n;
        let recent = messages_from(plain, from);
        let head = concat_messages(system, important);
        concat_messages(head, recent)
    }

    fn needs_reduction(&self, messages: &[ChatMessage]) -> (b: bool) {
        let (_, non_system) = split_system(messages);
        non_system.len() > self.window_size
    }
}

// ============================================================================
// NO-OP REDUCER
// ============================================================================

/// A reducer that returns messages unchanged.
#[derive(Debug, Clone, Copy, Default)]
pub struct NoOpReducer;

impl ChatReducer for NoOpReducer {
    open spec fn admits(&self, messages: Seq<ChatMessage>) -> bool {
        true
    }

    open spec fn reduced(&self, messages: Seq<ChatMessage>) -> Seq<ChatMessage> {
        messages
    }

    open spec fn reduction_needed(&self, messages: Seq<ChatMessage>) -> bool {
        false
    }

    fn reduce(&self, messages: &[ChatMessage]) -> (r: Vec<ChatMessage>) {
        copy_messages(messages)
    }

    fn needs_reduction(&self, messages: &[ChatMessage]) -> (b: bool) {
        false
    }
}

/// Boxed chat reducer for dynamic dispatch.
pub type BoxedChatReducer = Box<dyn ChatReducer>;


// ============================================================================
// LAWS
// ============================================================================

/// Filtering keeps a sequence whose elements all meet the predicate.
proof fn lemma_filter_all<A>(s: Seq<A>, p: spec_fn(A) -> bool)
    requires
        forall|i: int| 0 <= i < s.len() ==> p(#[trigger] s[i]),
    ensures
        s.filter(p) == s,
    decreases s.len(),
{
    reveal(Seq::filter);
    if s.len() > 0 {
        assert forall|i: int| 0 <= i < s.drop_last().len() implies p(#[trigger] s.drop_last()[i]) by {
            assert(s.drop_last()[i] == s[i]);
        }
        lemma_filter_all(s.drop_last(), p);
        assert(p(s[s.len() - 1]));
        assert(s.drop_last().push(s.last()) =~= s);
    }
}

/// Filtering empties a sequence none of whose elements meets the predicate.
proof fn lemma_filter_none<A>(s: Seq<A>, p: spec_fn(A) -> bool)
    requires
        forall|i: int| 0 <= i < s.len() ==> !p(#[trigger] s[i]),
    ensures
        s.filter(p).len() == 0,
    decreases s.len(),
{
    reveal(Seq::filter);
    if s.len() > 0 {
        assert forall|i: int| 0 <= i < s.drop_last().len() implies !p(#[trigger] s.drop_last()[i]) by {
            assert(s.drop_last()[i] == s[i]);
        }
        lemma_filter_none(s.drop_last(), p);
        assert(!p(s[s.len() - 1]));
    }
}

/// The system messages among the system messages of `ms` followed by
/// messages none of which is a system message are those of `ms`.
proof fn lemma_system_then_others(ms: Seq<ChatMessage>, rest: Seq<ChatMessage>)
    requires
        forall|i: int| 0 <= i < rest.len() ==> (#[trigger] rest[i]).role != ChatRole::System,
    ensures
        system_part(system_part(ms) + rest) == system_part(ms),
        conversation_part(system_part(ms) + rest) == rest,
{
    let is_sys = |m: ChatMessage| m.role == ChatRole::System;
    let not_sys = |m: ChatMessage| m.role != ChatRole::System;
    let sys = system_part(ms);
    lemma_filter_subset(ms, is_sys);
    lemma_filter_all(sys, is_sys);
    lemma_filter_none(sys, not_sys);
    lemma_filter_none(rest, is_sys);
    lemma_filter_all(rest, not_sys);
    Seq::<ChatMessage>::filter_distributes_over_add(sys, rest, is_sys);
    Seq::<ChatMessage>::filter_distributes_over_add(sys, rest, not_sys);
    assert(sys.filter(is_sys) + rest.filter(is_sys) =~= sys);
    assert(sys.filter(not_sys) + rest.filter(not_sys) =~= rest);
}

/// None of the non-system messages of `ms` from index `k` on is a system
/// message.
proof fn lemma_conversation_tail(ms: Seq<ChatMessage>, k: int)
    requires
        0 <= k <= conversation_part(ms).len(),
    ensures
        forall|i: int| 0 <= i < conversation_part(ms).skip(k).len()
            ==> (#[trigger] conversation_part(ms).skip(k)[i]).role != ChatRole::System,
{
    let not_sys = |m: ChatMessage| m.role != ChatRole::System;
    lemma_filter_subset(ms, not_sys);
    assert forall|i: int| 0 <= i < conversation_part(ms).skip(k).len()
        implies (#[trigger] conversation_part(ms).skip(k)[i]).role != ChatRole::System by {
        assert(conversation_part(ms).skip(k)[i] == conversation_part(ms)[k + i]);
        assert(not_sys(conversation_part(ms)[k + i]));
    }
}

/// A counting reducer keeps every system message, in order, and when it
/// reduces, keeps at most its limit of other messages, the latest ones.
pub proof fn lemma_counting_reducer_laws(ms: Seq<ChatMessage>, max: nat, pairs: bool)
    ensures
        system_part(count_reduced(ms, max, pairs)) == system_part(ms),
        conversation_part(ms).len() > max ==> conversation_part(count_reduced(ms, max, pairs)).len() <= max,
        conversation_part(ms).len() <= max ==> count_reduced(ms, max, pairs) == ms,
{
    let non = conversation_part(ms);
    if non.len() > max {
        let k = non.len() - count_kept(ms, max, pairs);
        lemma_conversation_tail(ms, k);
        lemma_system_then_others(ms, non.skip(k));
    }
}

/// The messages kept within a budget are within it.
pub proof fn lemma_kept_within_budget(ms: Seq<ChatMessage>, budget: nat, cpt: nat)
    ensures
        total_tokens(kept_within(ms, budget, cpt), cpt) <= budget,
    decreases ms.len(),
{
    if ms.len() > 0 {
        let t = token_estimate(ms.last(), cpt);
        if t <= budget {
            let k = kept_within(ms.drop_last(), (budget - t) as nat, cpt);
            lemma_kept_within_budget(ms.drop_last(), (budget - t) as nat, cpt);
            assert(k.push(ms.last()).drop_last() =~= k);
        }
    }
}

/// A token counting reducer keeps every system message; when they fit the
/// budget, what it returns fits the budget too.
pub proof fn lemma_token_reducer_laws(ms: Seq<ChatMessage>, max: nat, cpt: nat)
    ensures
        system_part(ms).is_prefix_of(token_reduced(ms, max, cpt)),
        total_tokens(system_part(ms), cpt) < max ==> total_tokens(token_reduced(ms, max, cpt), cpt) <= max,
{
    let sys = system_part(ms);
    let st = total_tokens(sys, cpt);
    if st < max {
        let kept = kept_within(conversation_part(ms), (max - st) as nat, cpt);
        lemma_kept_within_budget(conversation_part(ms), (max - st) as nat, cpt);
        lemma_total_tokens_concat(sys, kept, cpt);
        assert(sys.is_prefix_of(sys + kept)) by {
            assert(sys =~= (sys + kept).subrange(0, sys.len() as int));
        }
    } else {
        assert(sys.is_prefix_of(sys)) by {
            assert(sys =~= sys.subrange(0, sys.len() as int));
        }
    }
}

/// A sliding window reducer keeps every system message, and keeps no more
/// other messages than the larger of its window and its limit of important
/// messages.
pub proof fn lemma_sliding_reducer_laws(ms: Seq<ChatMessage>, window: nat, max_important: nat)
    ensures
        system_part(ms).is_prefix_of(sliding_reduced(ms, window, max_important)),
        sliding_reduced(ms, window, max_important).len() - system_part(ms).len()
            <= if window > max_important { window } else { max_important },
{
    let sys = system_part(ms);
    let r = sliding_reduced(ms, window, max_important);
    assert(sys =~= r.subrange(0, sys.len() as int));
}

} // verus!

verus! {

// ============================================================================
// LAW: KEPT PAIRS DO NOT START ON A REPLY
// ============================================================================

/// When a counting reducer that keeps pairs cuts a conversation that
/// starts with a user message (keeping more than one message), the kept
/// part, right after the system messages, does not start on an assistant
/// reply, as long as no two replies follow each other in the conversation.
#[verifier::spinoff_prover]
#[verifier::rlimit(30)]
pub proof fn lemma_pairs_start_on_user(ms: Seq<ChatMessage>, max: nat)
    requires
        max > 1,
        starts_with_user(ms),
        conversation_part(ms).len() > max,
        forall|i: int|
            0 <= i < conversation_part(ms).len() - 1 && (#[trigger] conversation_part(ms)[i]).role == ChatRole::Assistant
                ==> conversation_part(ms)[i + 1].role != ChatRole::Assistant,
    ensures
        count_reduced(ms, max, true)[system_part(ms).len() as int].role != ChatRole::Assistant,
{
    let non = conversation_part(ms);
    let k = count_kept(ms, max, true);
    let start = non.len() - k;
    let r = count_reduced(ms, max, true);
    assert(r == system_part(ms) + non.skip(start));
    assert(r[system_part(ms).len() as int] == non[start]);
    if non[non.len() - max].role == ChatRole::Assistant {
        assert(start == non.len() - max + 1);
        assert(non[non.len() - max].role == ChatRole::Assistant);
    }
}

} // verus!
