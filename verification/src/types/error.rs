//! The error type the typed layer exposes beside the structured
//! `ParseError`: a plain message for callers that only report.
use vstd::prelude::*;

verus! {

/// A parse failure carrying a human-readable message.
#[derive(Debug, Clone, PartialEq, Eq)]
pub enum VMFError {
    ParseError(String),
}

} // verus!
