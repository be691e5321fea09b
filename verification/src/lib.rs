//! A line-oriented substring search library.
//!
//! A document is split into lines and each line is kept when it contains
//! the query, either exactly or after case folding both sides.

pub mod fold;
pub mod laws;
pub mod lines;
pub mod matching;
pub mod search;
