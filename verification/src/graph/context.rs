//! The context an executor runs in: sinks that collect what it sends to
//! other executors and what it yields to the workflow caller, the events it
//! emits, the errors of earlier attempts, and state shared across the
//! workflow.
use vstd::prelude::*;
use crate::clock::{now, Timestamp};
use crate::graph::executor::{log_level_name, LogLevel};
use crate::graph::types::{ExecutorError, ExecutorId, TaskId, WorkflowId};
use crate::keyed::{assoc_has, assoc_index, assoc_put, get_entry, keys_unique, put_entry, remove_entry, text_keyed};
use crate::text::{append, push_char, to_owned, TextLike};

verus! {

/// Sink for messages sent by executors.
///
/// Messages are collected in the order sent and can be retrieved for
/// routing to edges.
#[derive(Debug)]
pub struct MessageSink<T> {
    messages: Vec<T>,
}

impl<T> View for MessageSink<T> {
    type V = Seq<T>;

    closed spec fn view(&self) -> Seq<T> {
        self.messages@
    }
}

impl<T> MessageSink<T> {
    /// An empty sink.
    pub fn new() -> (r: Self)
        ensures
            r@ == Seq::<T>::empty(),
    {
        MessageSink { messages: Vec::new() }
    }

    /// Adds a message after those already collected.
    pub fn push(&mut self, message: T)
        ensures
            final(self)@ == old(self)@.push(message),
    {
        self.messages.push(message);
    }

    /// Takes all collected messages, in order, leaving the sink empty.
    pub fn drain(&mut self) -> (r: Vec<T>)
        ensures
            r@ == old(self)@,
            final(self)@ == Seq::<T>::empty(),
    {
        let mut taken: Vec<T> = Vec::new();
        std::mem::swap(&mut taken, &mut self.messages);
        taken
    }

    /// Whether no message is collected.
    pub fn is_empty(&self) -> (b: bool)
        ensures
            b == (self@.len() == 0),
    {
        self.messages.len() == 0
    }

    /// The number of collected messages.
    pub fn len(&self) -> (n: usize)
        ensures
            n == self@.len(),
    {
        self.messages.len()
    }
}

impl<T> Default for MessageSink<T> {
    fn default() -> (r: Self)
        ensures
            r@ == Seq::<T>::empty(),
    {
        Self::new()
    }
}

/// Sink for outputs yielded by executors.
///
/// Outputs are visible to the workflow caller, in the order yielded.
#[derive(Debug)]
pub struct OutputSink<T> {
    outputs: Vec<T>,
}

impl<T> View for OutputSink<T> {
    type V = Seq<T>;

    closed spec fn view(&self) -> Seq<T> {
        self.outputs@
    }
}

impl<T> OutputSink<T> {
    /// An empty sink.
    pub fn new() -> (r: Self)
        ensures
            r@ == Seq::<T>::empty(),
    {
        OutputSink { outputs: Vec::new() }
    }

    /// Adds an output after those already collected.
    pub fn push(&mut self, output: T)
        ensures
            final(self)@ == old(self)@.push(output),
    {
        self.outputs.push(output);
    }

    /// Takes all collected outputs, in order, leaving the sink empty.
    pub fn drain(&mut self) -> (r: Vec<T>)
        ensures
            r@ == old(self)@,
            final(self)@ == Seq::<T>::empty(),
    {
        let mut taken: Vec<T> = Vec::new();
        std::mem::swap(&mut taken, &mut self.outputs);
        taken
    }

    /// The collected outputs, in order.
    pub fn iter(&self) -> (r: &[T])
        ensures
            r@ == self@,
    {
        self.outputs.as_slice()
    }

    /// Whether no output is collected.
    pub fn is_empty(&self) -> (b: bool)
        ensures
            b == (self@.len() == 0),
    {
        self.outputs.len() == 0
    }

    /// The number of collected outputs.
    pub fn len(&self) -> (n: usize)
        ensures
            n == self@.len(),
    {
        self.outputs.len()
    }
}

impl<T> Default for OutputSink<T> {
    fn default() -> (r: Self)
        ensures
            r@ == Seq::<T>::empty(),
    {
        Self::new()
    }
}


// ============================================================================
// WORKFLOW EVENT
// ============================================================================

/// An event emitted during workflow execution.
#[derive(Debug, Clone)]
pub struct WorkflowEvent {
    /// Event type (e.g., "log", "progress", "custom").
    pub event_type: String,
    /// Executor that emitted the event.
    pub executor_id: ExecutorId,
    /// Event data.
    pub data: serde_json::Value,
    /// When it was emitted.
    pub timestamp: Timestamp,
}

impl WorkflowEvent {
    /// An event emitted now.
    pub fn new(event_type: impl TextLike, executor_id: ExecutorId, data: serde_json::Value) -> (r: Self)
        ensures
            r.event_type@ == event_type.text(),
            r.executor_id == executor_id,
            r.data == data,
    {
        WorkflowEvent { event_type: event_type.into_string(), executor_id, data, timestamp: now() }
    }
}

/// Names the JSON object that `serde_json` builds from text entries, each
/// value a JSON string.
pub uninterp spec fn json_text_object(entries: Seq<(Seq<char>, Seq<char>)>) -> serde_json::Value;

/// Builds a `serde_json::Value::Object` whose members are the entries, each
/// value a `serde_json::Value::String`. The result is named by the entries.
#[verifier::external_body]
fn text_object(entries: &Vec<(String, String)>) -> (r: serde_json::Value)
    ensures
        r == json_text_object(entries@.map_values(|e: (String, String)| (e.0@, e.1@))),
{
    serde_json::Value::Object(entries.iter().map(|(k, v)| (k.clone(), serde_json::Value::String(v.clone()))).collect())
}

/// The entries of a log event's data: the level's name and the message.
pub open spec fn log_entries(level: LogLevel, message: Seq<char>) -> Seq<(Seq<char>, Seq<char>)> {
    seq![("level"@, log_level_name(level)), ("message"@, message)]
}

// ============================================================================
// SHARED STATE
// ============================================================================

/// Shared state held in memory: JSON values by key, one entry per key.
#[derive(Debug)]
pub struct InMemoryStateBackend {
    state: Vec<(String, serde_json::Value)>,
}

impl InMemoryStateBackend {
    /// The values, by key.
    pub closed spec fn entries(&self) -> Seq<(Seq<char>, serde_json::Value)> {
        text_keyed(self.state@)
    }

    /// Each key appears once.
    pub closed spec fn wf(&self) -> bool {
        keys_unique(text_keyed(self.state@))
    }

    /// No state.
    pub fn new() -> (r: Self)
        ensures
            r.wf(),
            r.entries().len() == 0,
    {
        let r = InMemoryStateBackend { state: Vec::new() };
        assert(r.entries() =~= Seq::<(Seq<char>, serde_json::Value)>::empty());
        r
    }

    /// Set the value under a key.
    pub fn set(&mut self, key: &str, value: serde_json::Value)
        requires
            old(self).wf(),
        ensures
            final(self).wf(),
            final(self).entries() == assoc_put(old(self).entries(), key@, value),
    {
        put_entry(&mut self.state, to_owned(key), value);
    }

    /// The value under a key.
    pub fn get(&self, key: &str) -> (r: Option<&serde_json::Value>)
        requires
            self.wf(),
        ensures
            r is None <==> !assoc_has(self.entries(), key@),
            r matches Some(v) ==> *v == self.entries()[assoc_index(self.entries(), key@)].1,
    {
        get_entry(&self.state, key)
    }

    /// Remove the value under a key.
    pub fn delete(&mut self, key: &str)
        requires
            old(self).wf(),
        ensures
            final(self).wf(),
            !assoc_has(final(self).entries(), key@),
            assoc_has(old(self).entries(), key@) ==> final(self).entries() == old(self).entries().remove(
                assoc_index(old(self).entries(), key@),
            ),
            !assoc_has(old(self).entries(), key@) ==> final(self).entries() == old(self).entries(),
    {
        remove_entry(&mut self.state, key);
        proof {
            let e = self.entries();
            if assoc_has(e, key@) {
                let k = assoc_index(e, key@);
                let e0 = text_keyed(old(self).state@);
                let i = assoc_index(e0, key@);
                let k0 = if k < i { k } else { k + 1 };
                assert(e[k] == e0[k0]);
                assert(e0[k0].0 == e0[i].0);
            }
        }
    }
}

impl Default for InMemoryStateBackend {
    fn default() -> (r: Self)
        ensures
            r.wf(),
            r.entries().len() == 0,
    {
        Self::new()
    }
}

/// The key under which a workflow keeps a shared value: `"{workflow}:{key}"`.
pub open spec fn shared_key(workflow: Seq<char>, key: Seq<char>) -> Seq<char> {
    workflow + seq![':'] + key
}

// ============================================================================
// WORKFLOW CONTEXT
// ============================================================================

/// The context an executor runs in.
pub struct WorkflowContext<TMessage, TOutput> {
    workflow_id: WorkflowId,
    task_id: TaskId,
    executor_id: ExecutorId,
    superstep: u32,
    messages: MessageSink<TMessage>,
    outputs: OutputSink<TOutput>,
    events: Vec<WorkflowEvent>,
    previous_errors: Vec<ExecutorError>,
    shared: InMemoryStateBackend,
}

impl<TMessage, TOutput> WorkflowContext<TMessage, TOutput> {
    /// The workflow.
    pub closed spec fn workflow(&self) -> WorkflowId {
        self.workflow_id
    }

    /// The task.
    pub closed spec fn task(&self) -> TaskId {
        self.task_id
    }

    /// The executor.
    pub closed spec fn executor(&self) -> ExecutorId {
        self.executor_id
    }

    /// The superstep number.
    pub closed spec fn step(&self) -> u32 {
        self.superstep
    }

    /// The messages sent so far, in order.
    pub closed spec fn sent(&self) -> Seq<TMessage> {
        self.messages@
    }

    /// The outputs yielded so far, in order.
    pub closed spec fn yielded(&self) -> Seq<TOutput> {
        self.outputs@
    }

    /// The events emitted so far, in order.
    pub closed spec fn emitted(&self) -> Seq<WorkflowEvent> {
        self.events@
    }

    /// The errors of earlier attempts, in order.
    pub closed spec fn earlier_errors(&self) -> Seq<ExecutorError> {
        self.previous_errors@
    }

    /// The shared values, by full key.
    pub closed spec fn shared_entries(&self) -> Seq<(Seq<char>, serde_json::Value)> {
        self.shared.entries()
    }

    /// The shared state keeps one entry per key.
    pub closed spec fn wf(&self) -> bool {
        self.shared.wf()
    }

    /// A fresh context at superstep 0, with nothing sent, yielded or
    /// emitted, no earlier errors and no shared state.
    pub fn new(workflow_id: WorkflowId, task_id: TaskId, executor_id: ExecutorId) -> (r: Self)
        ensures
            r.wf(),
            r.workflow() == workflow_id,
            r.task() == task_id,
            r.executor() == executor_id,
            r.step() == 0,
            r.sent().len() == 0,
            r.yielded().len() == 0,
            r.emitted().len() == 0,
            r.earlier_errors().len() == 0,
            r.shared_entries().len() == 0,
    {
        WorkflowContext {
            workflow_id,
            task_id,
            executor_id,
            superstep: 0,
            messages: MessageSink::new(),
            outputs: OutputSink::new(),
            events: Vec::new(),
            previous_errors: Vec::new(),
            shared: InMemoryStateBackend::new(),
        }
    }

    /// A fresh context whose shared state is kept in memory.
    pub fn in_memory(workflow_id: WorkflowId, task_id: TaskId, executor_id: ExecutorId) -> (r: Self)
        ensures
            r.wf(),
            r.workflow() == workflow_id,
            r.task() == task_id,
            r.executor() == executor_id,
            r.step() == 0,
            r.sent().len() == 0,
            r.yielded().len() == 0,
            r.emitted().len() == 0,
            r.earlier_errors().len() == 0,
            r.shared_entries().len() == 0,
    {
        Self::new(workflow_id, task_id, executor_id)
    }

    /// Set the current superstep number.
    pub fn set_superstep(&mut self, superstep: u32)
        ensures
            final(self).step() == superstep,
            final(self).workflow() == old(self).workflow(),
            final(self).executor() == old(self).executor(),
            final(self).sent() == old(self).sent(),
            final(self).yielded() == old(self).yielded(),
            final(self).emitted() == old(self).emitted(),
            final(self).earlier_errors() == old(self).earlier_errors(),
            final(self).shared_entries() == old(self).shared_entries(),
            final(self).wf() == old(self).wf(),
    {
        self.superstep = superstep;
    }

    /// The current superstep number.
    pub fn superstep(&self) -> (r: u32)
        ensures
            r == self.step(),
    {
        self.superstep
    }

    /// The workflow's identifier.
    pub fn workflow_id(&self) -> (r: &WorkflowId)
        ensures
            *r == self.workflow(),
    {
        &self.workflow_id
    }

    /// The task's identifier.
    pub fn task_id(&self) -> (r: &TaskId)
        ensures
            *r == self.task(),
    {
        &self.task_id
    }

    /// The executor's identifier.
    pub fn executor_id(&self) -> (r: &ExecutorId)
        ensures
            *r == self.executor(),
    {
        &self.executor_id
    }

    /// Add errors from earlier attempts, after those already known.
    pub fn add_previous_errors(&mut self, errors: Vec<ExecutorError>)
        ensures
            final(self).earlier_errors() == old(self).earlier_errors() + errors@,
            final(self).step() == old(self).step(),
            final(self).sent() == old(self).sent(),
            final(self).yielded() == old(self).yielded(),
            final(self).emitted() == old(self).emitted(),
            final(self).shared_entries() == old(self).shared_entries(),
            final(self).wf() == old(self).wf(),
    {
        let mut more = errors;
        self.previous_errors.append(&mut more);
    }

    /// Take the sent messages, in order, for routing to edges.
    pub fn drain_messages(&mut self) -> (r: Vec<TMessage>)
        ensures
            r@ == old(self).sent(),
            final(self).sent().len() == 0,
            final(self).yielded() == old(self).yielded(),
            final(self).emitted() == old(self).emitted(),
            final(self).earlier_errors() == old(self).earlier_errors(),
            final(self).shared_entries() == old(self).shared_entries(),
            final(self).wf() == old(self).wf(),
    {
        self.messages.drain()
    }

    /// Take the yielded outputs, in order, for the caller.
    pub fn drain_outputs(&mut self) -> (r: Vec<TOutput>)
        ensures
            r@ == old(self).yielded(),
            final(self).yielded().len() == 0,
            final(self).sent() == old(self).sent(),
            final(self).emitted() == old(self).emitted(),
            final(self).earlier_errors() == old(self).earlier_errors(),
            final(self).shared_entries() == old(self).shared_entries(),
            final(self).wf() == old(self).wf(),
    {
        self.outputs.drain()
    }

    /// Take the emitted events, in order, for publishing.
    pub fn drain_events(&mut self) -> (r: Vec<WorkflowEvent>)
        ensures
            r@ == old(self).emitted(),
            final(self).emitted().len() == 0,
            final(self).sent() == old(self).sent(),
            final(self).yielded() == old(self).yielded(),
            final(self).earlier_errors() == old(self).earlier_errors(),
            final(self).shared_entries() == old(self).shared_entries(),
            final(self).wf() == old(self).wf(),
    {
        let mut taken: Vec<WorkflowEvent> = Vec::new();
        std::mem::swap(&mut taken, &mut self.events);
        taken
    }

    /// Whether any message was sent.
    pub fn has_messages(&self) -> (r: bool)
        ensures
            r == (self.sent().len() > 0),
    {
        !self.messages.is_empty()
    }

    /// Whether any output was yielded.
    pub fn has_outputs(&self) -> (r: bool)
        ensures
            r == (self.yielded().len() > 0),
    {
        !self.outputs.is_empty()
    }

    /// Send a message to connected executors (via edges).
    pub fn send_message(&mut self, message: TMessage) -> (r: Result<(), ExecutorError>)
        ensures
            r is Ok,
            final(self).sent() == old(self).sent().push(message),
            final(self).yielded() == old(self).yielded(),
            final(self).emitted() == old(self).emitted(),
            final(self).shared_entries() == old(self).shared_entries(),
            final(self).wf() == old(self).wf(),
    {
        self.messages.push(message);
        Ok(())
    }

    /// Yield an output to the workflow caller.
    pub fn yield_output(&mut self, output: TOutput) -> (r: Result<(), ExecutorError>)
        ensures
            r is Ok,
            final(self).yielded() == old(self).yielded().push(output),
            final(self).sent() == old(self).sent(),
            final(self).emitted() == old(self).emitted(),
            final(self).shared_entries() == old(self).shared_entries(),
            final(self).wf() == old(self).wf(),
    {
        self.outputs.push(output);
        Ok(())
    }

    /// Emit an event, stamped now and attributed to this executor.
    pub fn add_event(&mut self, event_type: &str, data: serde_json::Value) -> (r: Result<(), ExecutorError>)
        ensures
            r is Ok,
            final(self).emitted().len() == old(self).emitted().len() + 1,
            final(self).emitted().drop_last() == old(self).emitted(),
            final(self).emitted().last().event_type@ == event_type@,
            final(self).emitted().last().executor_id == old(self).executor(),
            final(self).emitted().last().data == data,
            final(self).sent() == old(self).sent(),
            final(self).yielded() == old(self).yielded(),
            final(self).shared_entries() == old(self).shared_entries(),
            final(self).wf() == old(self).wf(),
    {
        let ghost before = self.events@;
        let event = WorkflowEvent::new(event_type, self.executor_id.clone(), data);
        self.events.push(event);
        assert(self.events@.drop_last() =~= before);
        Ok(())
    }

    /// Log a message: a `log` event whose data holds the level's name and
    /// the message.
    pub fn log(&mut self, level: LogLevel, message: &str) -> (r: Result<(), ExecutorError>)
        ensures
            r is Ok,
            final(self).emitted().len() == old(self).emitted().len() + 1,
            final(self).emitted().drop_last() == old(self).emitted(),
            final(self).emitted().last().event_type@ == "log"@,
            final(self).emitted().last().executor_id == old(self).executor(),
            final(self).emitted().last().data == json_text_object(log_entries(level, message@)),
            final(self).sent() == old(self).sent(),
            final(self).yielded() == old(self).yielded(),
            final(self).shared_entries() == old(self).shared_entries(),
            final(self).wf() == old(self).wf(),
    {
        let mut entries: Vec<(String, String)> = Vec::new();
        entries.push((to_owned("level"), level.name()));
        entries.push((to_owned("message"), to_owned(message)));
        assert(entries@.map_values(|e: (String, String)| (e.0@, e.1@)) =~= log_entries(level, message@));
        let data = text_object(&entries);
        self.add_event("log", data)
    }

    /// The errors of earlier attempts, in order.
    pub fn previous_errors(&self) -> (r: &[ExecutorError])
        ensures
            r@ == self.earlier_errors(),
    {
        self.previous_errors.as_slice()
    }

    /// The full key of a shared value: `"{workflow}:{key}"`.
    pub fn shared_state_key(&self, key: &str) -> (r: String)
        ensures
            r@ == shared_key(self.workflow()@, key@),
    {
        let mut full = to_owned(self.workflow_id.as_str());
        push_char(&mut full, ':');
        append(&mut full, key);
        full
    }

    /// Set a shared value, visible to all executors of the workflow.
    pub fn set_shared_state(&mut self, key: &str, value: serde_json::Value) -> (r: Result<(), ExecutorError>)
        requires
            old(self).wf(),
        ensures
            r is Ok,
            final(self).wf(),
            final(self).shared_entries() == assoc_put(old(self).shared_entries(), shared_key(old(self).workflow()@, key@), value),
            final(self).workflow() == old(self).workflow(),
            final(self).sent() == old(self).sent(),
            final(self).yielded() == old(self).yielded(),
            final(self).emitted() == old(self).emitted(),
    {
        let full = self.shared_state_key(key);
        self.shared.set(full.as_str(), value);
        Ok(())
    }

    /// A shared value, if set.
    pub fn get_shared_state(&self, key: &str) -> (r: Result<Option<&serde_json::Value>, ExecutorError>)
        requires
            self.wf(),
        ensures
            r matches Ok(found) && (found is None <==> !assoc_has(self.shared_entries(), shared_key(self.workflow()@, key@)))
                && (found matches Some(v) ==> *v == self.shared_entries()[assoc_index(
                self.shared_entries(),
                shared_key(self.workflow()@, key@),
            )].1),
    {
        let full = self.shared_state_key(key);
        Ok(self.shared.get(full.as_str()))
    }

    /// Remove a shared value.
    pub fn delete_shared_state(&mut self, key: &str) -> (r: Result<(), ExecutorError>)
        requires
            old(self).wf(),
        ensures
            r is Ok,
            final(self).wf(),
            !assoc_has(final(self).shared_entries(), shared_key(old(self).workflow()@, key@)),
            final(self).workflow() == old(self).workflow(),
            final(self).sent() == old(self).sent(),
            final(self).yielded() == old(self).yielded(),
            final(self).emitted() == old(self).emitted(),
    {
        let full = self.shared_state_key(key);
        self.shared.delete(full.as_str());
        Ok(())
    }
}

/// A shared value set under a key reads back under that key.
pub proof fn lemma_shared_state_read_after_write(entries: Seq<(Seq<char>, serde_json::Value)>, key: Seq<char>, value: serde_json::Value)
    requires
        keys_unique(entries),
    ensures
        assoc_has(assoc_put(entries, key, value), key),
        assoc_put(entries, key, value)[assoc_index(assoc_put(entries, key, value), key)].1 == value,
{
    crate::agent::thread::lemma_metadata_read_after_write(entries, key, value);
}

// ============================================================================
// CONTEXT BUILDER
// ============================================================================

/// Builder for a workflow context.
pub struct WorkflowContextBuilder<TMessage, TOutput> {
    workflow_id: WorkflowId,
    task_id: TaskId,
    executor_id: ExecutorId,
    superstep: u32,
    previous_errors: Vec<ExecutorError>,
    _marker: std::marker::PhantomData<(TMessage, TOutput)>,
}

impl<TMessage, TOutput> WorkflowContextBuilder<TMessage, TOutput> {
    /// What the builder will build with.
    pub closed spec fn parts(&self) -> (WorkflowId, TaskId, ExecutorId, u32, Seq<ExecutorError>) {
        (self.workflow_id, self.task_id, self.executor_id, self.superstep, self.previous_errors@)
    }

    /// A builder for a context at superstep 0 with no earlier errors.
    pub fn new(workflow_id: WorkflowId, task_id: TaskId, executor_id: ExecutorId) -> (r: Self)
        ensures
            r.parts() == (workflow_id, task_id, executor_id, 0u32, Seq::<ExecutorError>::empty()),
    {
        WorkflowContextBuilder {
            workflow_id,
            task_id,
            executor_id,
            superstep: 0,
            previous_errors: Vec::new(),
            _marker: std::marker::PhantomData,
        }
    }

    /// Set the superstep number.
    pub fn superstep(self, superstep: u32) -> (r: Self)
        ensures
            r.parts() == (self.parts().0, self.parts().1, self.parts().2, superstep, self.parts().4),
    {
        WorkflowContextBuilder { superstep, ..self }
    }

    /// Set the earlier errors.
    pub fn previous_errors(self, errors: Vec<ExecutorError>) -> (r: Self)
        ensures
            r.parts() == (self.parts().0, self.parts().1, self.parts().2, self.parts().3, errors@),
    {
        WorkflowContextBuilder { previous_errors: errors, ..self }
    }

    /// Build the context, with shared state kept in memory.
    pub fn build(self) -> (r: WorkflowContext<TMessage, TOutput>)
        ensures
            r.wf(),
            r.workflow() == self.parts().0,
            r.task() == self.parts().1,
            r.executor() == self.parts().2,
            r.step() == self.parts().3,
            r.earlier_errors() == self.parts().4,
            r.sent().len() == 0,
            r.yielded().len() == 0,
            r.emitted().len() == 0,
            r.shared_entries().len() == 0,
    {
        let mut ctx = WorkflowContext::new(self.workflow_id, self.task_id, self.executor_id);
        ctx.superstep = self.superstep;
        ctx.previous_errors = self.previous_errors;
        ctx
    }
}

} // verus!
