//! The verified core of a streaming map-reduce summarization pipeline: a
//! token-budgeted chunker with boundary-aligned cuts, the ordered streaming
//! reducer with its rolling buffer and meta-prompt state, prompt templating,
//! and the worker's rule of silence. Model inference, channels and I/O live
//! outside the library and drive it through plain values; token counts come
//! in through the [`chunker::TokenCounter`] oracle.

pub mod chunker;
pub mod cli;
pub mod config;
pub mod prompts;
pub mod reducer;
pub mod text;
pub mod types;
pub mod worker;

pub use types::ChunkTask;
