//! Inference worker and prompt-assembly engine for a character-chat system.
//!
//! The crate turns a structured conversation state into a bounded-size text
//! prompt, selects one of two backend strategies (an in-process model or a
//! remote HTTP generation API), enforces per-character stop conditions, and
//! interprets the backend's output.  All of the decision logic lives here,
//! verified; the thread, channel and I/O plumbing around it is ordinary Rust
//! kept outside the library.

pub mod chatlog;
pub mod config;
pub mod embedding;
pub mod engine;
pub mod memories;
pub mod prompt;
pub mod sampler;
pub mod text;
pub mod trim;
