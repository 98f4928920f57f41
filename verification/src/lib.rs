use vstd::prelude::*;

pub mod scanner;
pub mod token;

verus! {

/// A line-attributed report of a failure while running a piece of source
/// text, carrying the full source for later display.
#[derive(Debug, Clone)]
pub struct ErrorReport {
    pub line: usize,
    pub source: String,
    pub message: String,
}

} // verus!
