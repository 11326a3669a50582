//! Errors surfaced by the library: text read back from the store (or handed
//! in by a caller) that does not decode. Nothing is silently defaulted.

use vstd::prelude::*;
use crate::assignee::{AssigneeParseError, SpecParseError};

verus! {

/// Ghost mirror of [`Error`], over mathematical sequences.
pub enum SpecError {
    /// A closed string enumeration met a string outside its table.
    UnknownVariant(Seq<char>),
    /// A stored assignee column did not parse.
    BadAssignee(SpecParseError),
    /// A stored crate payload was not a JSON string.
    BadCratePayload(Seq<char>),
}

/// A recoverable decoding failure; the offending text is carried along.
#[derive(Debug)]
pub enum Error {
    /// A closed string enumeration met a string outside its table.
    UnknownVariant(String),
    /// A stored assignee column did not parse.
    BadAssignee(AssigneeParseError),
    /// A stored crate payload was not a JSON string.
    BadCratePayload(String),
}

impl View for Error {
    type V = SpecError;

    open spec fn view(&self) -> SpecError {
        match self {
            Error::UnknownVariant(s) => SpecError::UnknownVariant(s@),
            Error::BadAssignee(e) => SpecError::BadAssignee(e@),
            Error::BadCratePayload(s) => SpecError::BadCratePayload(s@),
        }
    }
}

impl Error {
    /// A short human-readable description.
    pub fn message(&self) -> String {
        match self {
            Error::UnknownVariant(_) => unknown_variant_message(),
            Error::BadAssignee(e) => e.message(),
            Error::BadCratePayload(_) => bad_crate_payload_message(),
        }
    }
}

fn unknown_variant_message() -> String {
    String::from_str("unknown variant")
}

fn bad_crate_payload_message() -> String {
    String::from_str("the stored crate payload is not a JSON string")
}

} // verus!
