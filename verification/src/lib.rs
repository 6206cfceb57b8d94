//! Rule-based detection of secrets in the history of a git repository.
//!
//! The library decides which lines of which revisions are reported: it picks
//! the rules worth trying on a line by their keywords, matches their regular
//! expressions, drops what an allowlist suppresses and collects the rest in a
//! stable order. Reading the repository and writing reports is left to the
//! caller, who hands the commits over as plain values.

pub mod seqs;
pub mod text;
pub mod models;
pub mod pattern;
pub mod allowlist;
pub mod keywords;
pub mod ruleset;
pub mod dates;
pub mod matcher;
pub mod collector;
pub mod session;
pub mod laws;
pub mod walker;
pub mod plan;
