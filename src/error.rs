//! Failures that stop a run before any work begins.

use vstd::prelude::*;

verus! {

/// A root path that does not exist, or a pattern that does not compile;
/// each carries the text that was given.
#[derive(Debug, PartialEq, Eq)]
pub enum FinderError {
    PathNotFound(String),
    PatternError(String),
}

} // verus!
