//! Why an input is not a scene.

use vstd::prelude::*;

verus! {

/// Why decoding stopped. Nothing is decoded past the first fault.
#[derive(Clone, Copy, Debug, PartialEq, Eq, Structural)]
pub enum DecodeError {
    /// A record of delimited text ends before a field that it needs. Lines
    /// count from 0.
    MissingField { line: usize },
    /// Structured text that is not a well-formed document.
    Syntax,
    /// A document that holds something else where the scene needs a number.
    MissingNumber,
}

} // verus!
