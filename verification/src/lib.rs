//! DocSentinel: detection of drift between source code and its documentation.
//!
//! The crate extracts semantically meaningful units from code files and
//! Markdown documents, correlates them through embedding similarity, and
//! applies a fixed set of rules that flag classes of inconsistency between
//! the two, deduplicating the combined event stream deterministically.

pub mod cli;
pub mod drift;
pub mod extract;
pub mod llm;
pub mod repo;
pub mod storage;
pub mod text;
pub mod tui;

pub use extract::hash::content_hash;
