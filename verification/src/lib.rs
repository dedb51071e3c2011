//! Agentic core: workflow graphs of executors joined by edges, the agent
//! layer that runs conversations over them, and the code pipeline that
//! generates, assembles and checks code in stages.
pub mod text;
pub mod keyed;
pub mod ranking;
pub mod json;
pub mod clock;
pub mod pattern;
pub mod graph;
pub mod agent;
pub mod pipeline;
