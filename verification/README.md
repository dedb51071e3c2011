# agentic-core

The core of a multi-agent code-generation system, written in Verus. The
library's own functions in `src/` carry contracts that Verus proves; the
few calls into outside crates and into parts of std that Verus does not
specify sit behind small trusted wrappers, whose contracts are believed
rather than proved and say no more than the called code's documentation
(one, reading the clock, promises nothing at all).

- `graph/` — the workflow graph: identifiers and errors, edges and their
  routing, the workflow builder (with the laws that a built workflow lists
  each executor once and reaches them all from its start), superstep state,
  checkpoints, shared state, and the decisions the superstep loop takes.
- `agent/` — agents on top of the graph: conversation threads, message
  reducers, background tasks, memories, tools and stores.
- `pipeline/` — validating generated code: staged extraction (types, stubs,
  logic) for Rust, Python, TypeScript, Go and shell; the order of a sandbox
  run and how compiler, linter and test output is read; coherence analysis
  across the parts written by different agents; repair of common mistakes.
- `text.rs`, `keyed.rs`, `ranking.rs`, `json.rs`, `clock.rs`, `pattern.rs` —
  the models the contracts are stated over (text, association lists,
  stable rankings) and the trusted wrappers around `regex`, `serde_json`,
  `chrono`, `uuid` and a few std functions.

Running commands, networking and the asynchronous loops are left to the
caller: the library decides what to run next and what a result means.

`app/` is the thin shell around the library: it runs the shell commands a
validation asks for (`std::process`), measures time, removes project
directories, and reports a validation as a pipeline step.
