pub mod types;
pub mod error;
pub mod reducer;
pub mod thread;
pub mod background;
pub mod response;
pub mod tools;
pub mod memory;
pub mod persistence;
pub mod runs;
