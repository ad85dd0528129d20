//! Recursive file finding and line-oriented text search.
//!
//! The library holds the decisions: which walked entries are files to search,
//! how a line is matched (literal substring, optionally case-folded, or a
//! regular expression), how whole blocks of text are split into numbered
//! lines, how a line-by-line scan of one file reacts to each line read, and
//! how a match is laid out for output. Reading files and writing the output
//! are left to the caller.

pub mod error;
pub mod file_finder;
pub mod path_parser;
pub mod report;
pub mod text;
pub mod runner;
pub mod searcher;
