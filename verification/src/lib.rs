//! Scans source text for comment-embedded markers such as `TODO` and `FIXME`
//! and reports each with its place and, where a repository's history names
//! them, the author and time of the line's last change.
//!
//! The library works on plain values: the lines of a file, the entries of a
//! directory walk, what a repository knows of a file. Reading them is left to
//! the caller.

pub mod cli;
pub mod finding;
pub mod git;
pub mod matcher;
pub mod scanner;
pub mod text;
pub mod vocabulary;
pub mod walker;
