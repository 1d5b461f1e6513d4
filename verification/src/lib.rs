//! A local inference backend that drives an unmodified `larql chat <vindex>` process over pipes.
//!
//! The library holds the decisions of the backend; running the process, the clock and the file
//! system are its callers' part. One line of prompt goes in, the answer comes out line by line,
//! and the next turn prompt, on the standard error of the process, ends the turn.
pub mod backend;
pub mod error;
pub mod generate;
pub mod json;
pub mod load;
pub mod memory;
pub mod message;
pub mod prompt;
pub mod text;
pub mod tool_emulation;
pub mod watcher;
