//! What an agent run decides around the call it makes to a model or to a
//! workflow: the conversation it sends, the input it passes, the reply it
//! records in the thread, and how streamed pieces become chunks.
use vstd::prelude::*;
use crate::agent::response::{AgentChunk, AgentResponse, ToolCall};
use crate::agent::thread::{last_with_role, non_system, starts_turn, turns, AgentThread};
use crate::agent::types::{AgentId, ChatMessage, ChatRole};
use crate::graph::workflow::WorkflowStreamEvent;
use crate::json::{json_compact, json_to_text};
use crate::text::{append, decimal, has_prefix, join, join_strings, push_char, push_decimal, to_owned, views, TextLike};

verus! {

// ============================================================================
// THREADS FOR AGENTS
// ============================================================================

/// A new thread for an agent: created by it, carrying its system prompt
/// when it has one.
pub fn new_thread(agent_id: &AgentId, system_prompt: Option<&str>) -> (r: AgentThread)
    ensures
        r.wf(),
        has_prefix(r.id@, "thread-"@),
        r.created_by matches Some(a) && a@ == agent_id@,
        r.messages@.len() == 0,
        r.meta().len() == 0,
        r.turn_count == 0,
        r.total_tokens == 0,
        match system_prompt {
            Some(p) => r.system_prompt matches Some(s) && s@ == p@,
            None => r.system_prompt is None,
        },
{
    let thread = AgentThread::for_agent(agent_id.clone());
    match system_prompt {
        Some(p) => thread.with_system_prompt(p),
        None => thread,
    }
}

// ============================================================================
// CHAT AGENT RUNS
// ============================================================================

/// The prompt a chat agent sends: its own, else the thread's.
pub open spec fn chosen_prompt(agent_prompt: Option<Seq<char>>, thread_prompt: Option<Seq<char>>) -> Option<Seq<char>> {
    match agent_prompt {
        Some(p) => Some(p),
        None => thread_prompt,
    }
}

/// The conversation a chat agent sends to its model: the system prompt
/// (the agent's, else the thread's) first when there is one, then the
/// thread's messages without its system messages.
pub fn model_messages(agent_prompt: Option<&str>, thread: &AgentThread) -> (r: Vec<ChatMessage>)
    ensures
        match chosen_prompt(
            match agent_prompt {
                Some(p) => Some(p@),
                None => None,
            },
            match thread.system_prompt {
                Some(p) => Some(p@),
                None => None,
            },
        ) {
            Some(p) => {
                &&& r@.len() >= 1
                &&& r@[0].role == ChatRole::System
                &&& r@[0].content@ == p
                &&& r@.skip(1) == non_system(thread.messages@)
            },
            None => r@ == non_system(thread.messages@),
        },
{
    let mut r: Vec<ChatMessage> = Vec::new();
    match agent_prompt {
        Some(p) => {
            r.push(ChatMessage::system(p));
        },
        None => match &thread.system_prompt {
            Some(p) => {
                r.push(ChatMessage::system(p.as_str()));
            },
            None => {},
        },
    }
    let ghost head = r@;
    let mut j: usize = 0;
    while j < thread.messages.len()
        invariant
            0 <= j <= thread.messages@.len(),
            head.len() <= 1,
            r@ == head + non_system(thread.messages@.take(j as int)),
        decreases thread.messages@.len() - j,
    {
        proof {
            assert(thread.messages@.take(j + 1).drop_last() =~= thread.messages@.take(j as int));
        }
        if !thread.messages[j].is_system() {
            r.push(thread.messages[j].clone());
            proof {
                assert(r@ =~= head + non_system(thread.messages@.take(j + 1)));
            }
        }
        j = j + 1;
    }
    assert(thread.messages@.take(thread.messages@.len() as int) =~= thread.messages@);
    assert(r@.skip(head.len() as int) =~= non_system(thread.messages@));
    r
}

fn copy_messages(v: &Vec<ChatMessage>) -> (r: Vec<ChatMessage>)
    ensures
        r@ == v@,
{
    let mut r: Vec<ChatMessage> = Vec::new();
    let mut j: usize = 0;
    while j < v.len()
        invariant
            0 <= j <= v@.len(),
            r@ == v@.take(j as int),
        decreases v@.len() - j,
    {
        r.push(v[j].clone());
        assert(r@ =~= v@.take(j + 1));
        j = j + 1;
    }
    assert(v@.take(v@.len() as int) =~= v@);
    r
}

/// Record a model's reply in the thread, with the tokens it used, and
/// answer with the whole conversation, the token count, the model and
/// whether the reply was cut off by its length limit.
pub fn chat_reply(thread: &mut AgentThread, content: String, tokens: u32, model: String, truncated: bool) -> (r: AgentResponse)
    requires
        old(thread).wf(),
        old(thread).total_tokens + tokens <= u64::MAX,
    ensures
        final(thread).wf(),
        final(thread).messages@.drop_last() == old(thread).messages@,
        final(thread).messages@.last().role == ChatRole::Assistant,
        final(thread).messages@.last().content@ == content@,
        final(thread).total_tokens == old(thread).total_tokens + tokens,
        r.content@ == content@,
        r.messages@ == final(thread).messages@,
        r.tokens_used == Some(tokens),
        r.model matches Some(m) && m@ == model@,
        r.truncated == truncated,
        r.tool_calls@.len() == 0,
{
    thread.add_response(content.as_str(), Some(tokens));
    let messages = copy_messages(&thread.messages);
    AgentResponse::with_messages(content, messages).with_tokens(tokens).with_model(model).with_truncated(truncated)
}

/// The state of a streamed chat reply: the content received so far and
/// the token count of the final piece.
pub struct ChatStream {
    content: String,
    final_tokens: Option<u32>,
}

impl ChatStream {
    /// The content received so far.
    pub closed spec fn received(&self) -> Seq<char> {
        self.content@
    }

    /// The token count the final piece reported, if it came.
    pub closed spec fn tokens(&self) -> Option<u32> {
        self.final_tokens
    }

    /// Nothing received yet.
    pub fn new() -> (r: Self)
        ensures
            r.received().len() == 0,
            r.tokens() is None,
    {
        ChatStream { content: String::new(), final_tokens: None }
    }

    /// A piece of the reply arrived: it is kept, and passed on as a chunk.
    /// The final piece's token count is remembered.
    pub fn on_piece(&mut self, content: String, done: bool, tokens: Option<u32>) -> (r: AgentChunk)
        ensures
            final(self).received() == old(self).received() + content@,
            final(self).tokens() == if done { tokens } else { old(self).tokens() },
            r.content matches Some(c) && c@ == content@,
            r.done == done,
            r.tokens_used == tokens,
            r.model is None,
            r.tool_calls@.len() == 0,
            r.error is None,
    {
        append(&mut self.content, content.as_str());
        if done {
            self.final_tokens = tokens;
        }
        AgentChunk { content: Some(content), done, tokens_used: tokens, model: None, tool_calls: Vec::new(), error: None }
    }

    /// The model failed: the stream ends with an error chunk.
    pub fn on_failure(&self, message: String) -> (r: AgentChunk)
        ensures
            r.error matches Some(e) && e@ == message@,
            r.done,
            r.content is None,
    {
        AgentChunk::error(message)
    }

    /// The stream ended: a non-empty reply joins the thread, with the final
    /// token count.
    pub fn finish(self, thread: &mut AgentThread)
        requires
            old(thread).wf(),
            self.tokens() matches Some(t) ==> old(thread).total_tokens + t <= u64::MAX,
        ensures
            final(thread).wf(),
            self.received().len() == 0 ==> *final(thread) == *old(thread),
            self.received().len() > 0 ==> {
                &&& final(thread).messages@.drop_last() == old(thread).messages@
                &&& final(thread).messages@.last().role == ChatRole::Assistant
                &&& final(thread).messages@.last().content@ == self.received()
                &&& final(thread).total_tokens == old(thread).total_tokens + match self.tokens() {
                    Some(t) => t as int,
                    None => 0int,
                }
            },
    {
        if !self.content.as_str().is_empty() {
            thread.add_response(self.content.as_str(), self.final_tokens);
        }
    }
}

// ============================================================================
// WORKFLOW AGENT RUNS
// ============================================================================

/// The input a workflow agent passes to its workflow: the content of the
/// last user message among those given, or nothing.
pub open spec fn workflow_input_text(messages: Seq<ChatMessage>) -> Seq<char> {
    match last_with_role(messages, ChatRole::User) {
        Some(i) => messages[i].content@,
        None => Seq::empty(),
    }
}

/// The input a workflow agent passes to its workflow.
pub fn workflow_input(messages: &Vec<ChatMessage>) -> (r: String)
    ensures
        r@ == workflow_input_text(messages@),
{
    let mut j = messages.len();
    assert(messages@.take(j as int) =~= messages@);
    while j > 0
        invariant
            j <= messages@.len(),
            last_with_role(messages@, ChatRole::User) == last_with_role(messages@.take(j as int), ChatRole::User),
        decreases j,
    {
        let ghost pre = messages@.take(j as int);
        assert(pre.drop_last() =~= messages@.take(j - 1));
        if messages[j - 1].is_user() {
            assert(pre.last() == messages@[j - 1]);
            return messages[j - 1].content.clone();
        }
        j = j - 1;
    }
    String::new()
}

/// The reply of a workflow agent: its outputs, one per line, or a note of
/// how many supersteps the workflow took when it yielded nothing.
pub open spec fn workflow_reply_text(outputs: Seq<Seq<char>>, superstep_count: u32) -> Seq<char> {
    if outputs.len() == 0 {
        "Workflow completed ("@ + decimal(superstep_count as nat) + " supersteps)"@
    } else {
        join(outputs, "\n"@)
    }
}

/// Record a workflow's outputs (as text) in the thread as the assistant's
/// reply, and answer with it and the whole conversation.
pub fn workflow_reply(thread: &mut AgentThread, outputs: &Vec<String>, superstep_count: u32) -> (r: AgentResponse)
    requires
        old(thread).wf(),
    ensures
        final(thread).wf(),
        final(thread).messages@.drop_last() == old(thread).messages@,
        final(thread).messages@.last().role == ChatRole::Assistant,
        final(thread).messages@.last().content@ == workflow_reply_text(views(outputs@), superstep_count),
        r.content@ == workflow_reply_text(views(outputs@), superstep_count),
        r.messages@ == final(thread).messages@,
        r.tokens_used is None,
        r.model is None,
        !r.truncated,
{
    let content = if outputs.len() == 0 {
        let mut c = to_owned("Workflow completed (");
        push_decimal(&mut c, superstep_count as u64);
        append(&mut c, " supersteps)");
        c
    } else {
        join_strings(outputs.as_slice(), "\n")
    };
    let ghost m0 = thread.messages@;
    thread.add_message(ChatMessage::assistant(content.as_str()));
    let messages = copy_messages(&thread.messages);
    AgentResponse::with_messages(content, messages)
}

/// What a streamed workflow event becomes.
pub open spec fn event_chunk_texts(e: WorkflowStreamEvent) -> Seq<Seq<char>> {
    match e {
        WorkflowStreamEvent::Started { workflow_id, .. } => seq!["[Workflow "@ + workflow_id@ + " started]\n"@],
        WorkflowStreamEvent::SuperstepStarted { superstep, .. } => seq!["[Superstep "@ + decimal(superstep as nat) + "]\n"@],
        WorkflowStreamEvent::Output { data, .. } => seq![json_compact(data)],
        WorkflowStreamEvent::Completed { duration_ms, superstep_count, .. } => seq![
            "\n[Completed in "@ + decimal(duration_ms as nat) + "ms, "@ + decimal(superstep_count as nat) + " supersteps]"@,
        ],
        _ => seq![],
    }
}

/// The state of a streamed workflow reply: the outputs received so far,
/// each followed by a newline.
pub struct WorkflowStream {
    accumulated: String,
}

impl WorkflowStream {
    /// The outputs received so far.
    pub closed spec fn received(&self) -> Seq<char> {
        self.accumulated@
    }

    /// Nothing received yet.
    pub fn new() -> (r: Self)
        ensures
            r.received().len() == 0,
    {
        WorkflowStream { accumulated: String::new() }
    }

    /// The chunks a workflow event becomes, and whether the stream stops
    /// there. Starts and supersteps become notes, outputs pass on as their
    /// JSON text (and are kept), completion becomes a note and a final
    /// chunk, and a failure an error chunk that ends the stream; other
    /// events pass silently.
    pub fn on_event(&mut self, event: &WorkflowStreamEvent) -> (r: (Vec<AgentChunk>, bool))
        ensures
            r.1 == (*event is Failed),
            match *event {
                WorkflowStreamEvent::Failed { error, .. } => {
                    &&& r.0@.len() == 1
                    &&& r.0@[0].error matches Some(e) && e@ == error@
                    &&& r.0@[0].done
                    &&& final(self).received() == old(self).received()
                },
                WorkflowStreamEvent::Completed { .. } => {
                    &&& r.0@.len() == 2
                    &&& r.0@[0].content matches Some(c) && c@ == event_chunk_texts(*event)[0]
                    &&& !r.0@[0].done
                    &&& r.0@[1].content is None && r.0@[1].done
                    &&& final(self).received() == old(self).received()
                },
                WorkflowStreamEvent::Output { data, .. } => {
                    &&& r.0@.len() == 1
                    &&& r.0@[0].content matches Some(c) && c@ == json_compact(data)
                    &&& !r.0@[0].done
                    &&& final(self).received() == old(self).received() + json_compact(data) + seq!['\n']
                },
                _ => {
                    &&& r.0@.len() == event_chunk_texts(*event).len()
                    &&& forall|i: int| 0 <= i < r.0@.len() ==> (#[trigger] r.0@[i].content matches Some(c) && c@
                        == event_chunk_texts(*event)[i] && !r.0@[i].done)
                    &&& final(self).received() == old(self).received()
                },
            },
    {
        let mut chunks: Vec<AgentChunk> = Vec::new();
        match event {
            WorkflowStreamEvent::Started { workflow_id, .. } => {
                let mut t = to_owned("[Workflow ");
                append(&mut t, workflow_id.as_str());
                append(&mut t, " started]\n");
                chunks.push(AgentChunk::content(t));
                (chunks, false)
            },
            WorkflowStreamEvent::SuperstepStarted { superstep, .. } => {
                let mut t = to_owned("[Superstep ");
                push_decimal(&mut t, *superstep as u64);
                append(&mut t, "]\n");
                chunks.push(AgentChunk::content(t));
                (chunks, false)
            },
            WorkflowStreamEvent::Output { data, .. } => {
                let t = json_to_text(data);
                append(&mut self.accumulated, t.as_str());
                push_char(&mut self.accumulated, '\n');
                chunks.push(AgentChunk::content(t));
                (chunks, false)
            },
            WorkflowStreamEvent::Completed { duration_ms, superstep_count, .. } => {
                let mut t = to_owned("\n[Completed in ");
                push_decimal(&mut t, *duration_ms);
                append(&mut t, "ms, ");
                push_decimal(&mut t, *superstep_count as u64);
                append(&mut t, " supersteps]");
                chunks.push(AgentChunk::content(t));
                chunks.push(AgentChunk::done());
                (chunks, false)
            },
            WorkflowStreamEvent::Failed { error, .. } => {
                chunks.push(AgentChunk::error(error.as_str()));
                (chunks, true)
            },
            _ => (chunks, false),
        }
    }

    /// The stream ended: the outputs received, when there are some, join
    /// the thread as the assistant's reply.
    pub fn finish(self, thread: &mut AgentThread)
        requires
            old(thread).wf(),
        ensures
            final(thread).wf(),
            self.received().len() == 0 ==> *final(thread) == *old(thread),
            self.received().len() > 0 ==> {
                &&& final(thread).messages@.drop_last() == old(thread).messages@
                &&& final(thread).messages@.last().role == ChatRole::Assistant
                &&& final(thread).messages@.last().content@ == self.received()
            },
    {
        if !self.accumulated.as_str().is_empty() {
            thread.add_message(ChatMessage::assistant(self.accumulated.as_str()));
        }
    }
}

} // verus!
