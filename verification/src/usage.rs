//! Which input a run reads.

use vstd::prelude::*;

verus! {

/// The format of the input.
#[derive(Clone, Copy, Debug, PartialEq, Eq, Structural)]
pub enum Source {
    /// Delimited text, one record per line.
    Delimited,
    /// Structured text, one document.
    Structured,
}

/// Why a run cannot start.
#[derive(Clone, Copy, Debug, PartialEq, Eq, Structural)]
pub enum UsageError {
    /// No input was named.
    NoInputFile,
}

/// The input that a run reads, given the path named for each format; an empty
/// path names nothing. Delimited text comes first where both are named.
pub open spec fn selected(delimited: Seq<char>, structured: Seq<char>) -> Result<
    Source,
    UsageError,
> {
    if delimited.len() > 0 {
        Ok(Source::Delimited)
    } else if structured.len() > 0 {
        Ok(Source::Structured)
    } else {
        Err(UsageError::NoInputFile)
    }
}

/// The input that a run reads, given the path named for each format.
pub fn select_source(delimited: &str, structured: &str) -> (r: Result<Source, UsageError>)
    ensures
        r == selected(delimited@, structured@),
{
    if !delimited.is_empty() {
        Ok(Source::Delimited)
    } else if !structured.is_empty() {
        Ok(Source::Structured)
    } else {
        Err(UsageError::NoInputFile)
    }
}

impl UsageError {
    /// What to tell the user.
    pub fn message(&self) -> (r: String)
        ensures
            r@ == "No input file!"@,
    {
        String::from_str("No input file!")
    }
}

} // verus!
