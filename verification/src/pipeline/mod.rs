//! The code pipeline: validating generated code by running real compilers
//! and tests, and reading what they print.
pub mod sandbox_validator;
pub mod blocks;
pub mod incremental_pipeline;
pub mod rust_extractor;
pub mod go_extractor;
pub mod shell_extractor;
pub mod python_extractor;
pub mod typescript_extractor;
pub mod liaison_architect;
pub mod output_parsers;
pub mod repair_engine;
pub mod mcp_doc_validator;
pub mod repair_context;
pub mod sandbox_pipeline;
