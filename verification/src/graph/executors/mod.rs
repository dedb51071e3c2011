//! Executors of the code pipeline: the data they exchange, and the logic
//! they apply to it.
pub mod code_assembler;
pub mod compile_validator;
pub mod llm_generator;
pub mod test_validator;
pub mod sub_workflow;
