//! Translate a Perl::Critic violation report into a SARIF 2.1.0 document.
//!
//! The library covers the pure translation pipeline: deriving stable rule
//! identifiers from dotted policy names, mapping severities to SARIF levels,
//! computing source regions, deduplicating the rule catalogue, normalizing a
//! repository remote URL, and assembling the final document model. Reading
//! the input report and serializing the output document are left to the
//! surrounding application.

use vstd::prelude::*;

pub mod assemble;
pub mod model;
pub mod policy;
pub mod remote;
pub mod severity;
pub mod text;
pub mod translate;

verus! {

/// The flat error taxonomy of the converter. Every failure is terminal:
/// no error is retried or recovered from.
#[derive(Clone, Copy, Debug, PartialEq, Eq, Structural)]
pub enum ConvertError {
    /// The input could not be read or the output could not be written.
    Io,
    /// The input bytes do not decode as a violation report.
    Decode,
    /// No repository was found, or required metadata was absent.
    Repository,
    /// The remote URL matches neither the SSH-like nor the HTTP(S)-like shape.
    UnparseableRemote,
    /// An internal document-construction step failed.
    Assembly,
}

impl ConvertError {
    /// A short diagnostic phrase for each error variant.
    pub fn describe(&self) -> (r: String)
        ensures
            r@ == match self {
                ConvertError::Io => "could not read input or write output"@,
                ConvertError::Decode => "input is not a well-formed violation report"@,
                ConvertError::Repository => "no repository or required metadata found"@,
                ConvertError::UnparseableRemote => "could not parse remote url"@,
                ConvertError::Assembly => "internal document construction failed"@,
            },
    {
        match self {
            ConvertError::Io => String::from_str("could not read input or write output"),
            ConvertError::Decode => String::from_str("input is not a well-formed violation report"),
            ConvertError::Repository => String::from_str("no repository or required metadata found"),
            ConvertError::UnparseableRemote => String::from_str("could not parse remote url"),
            ConvertError::Assembly => String::from_str("internal document construction failed"),
        }
    }
}

} // verus!
