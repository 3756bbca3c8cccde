//! The error taxonomy of the pipeline's producer-facing and store-facing
//! operations. Hard extraction failures are `ParseError`; non-fatal
//! enrichment failures never surface here (they are recorded as notes on
//! the parsed content instead).

use vstd::prelude::*;

verus! {

/// An error of the job store or of the producer-facing interface.
#[derive(Clone, Copy, Debug, PartialEq, Eq, Structural)]
pub enum PipelineError {
    /// The job identifier is unknown.
    NotFound,
    /// A record with this identifier already exists.
    Conflict,
    /// The stored representation of a record cannot be decoded.
    Corrupt,
    /// The filename's extension denotes no supported format.
    UnsupportedType,
}

/// A hard extraction failure: the minimum viable extraction for the
/// format was impossible. The worker converts it into a `Failed` job
/// state; it never crashes the loop.
#[derive(Debug)]
pub struct ParseError {
    pub message: String,
}

impl ParseError {
    pub fn new(message: String) -> (r: ParseError)
        ensures
            r.message@ == message@,
    {
        ParseError { message }
    }
}

} // verus!
