//! The workflow graph: identifiers, edges, walks and the builder.
pub mod types;
pub mod edge;
pub mod paths;
pub mod builder;
pub mod executor;
pub mod context;
pub mod superstep;
pub mod persistence;
pub mod workflow;
pub mod executors;
