//! Failures that a request can end in.

use vstd::prelude::*;

verus! {

/// Why a request was turned down.
#[derive(Clone, Copy, Debug, PartialEq, Eq, Structural)]
pub enum Error {
    /// A path segment is not a non-negative integer.
    ParseError,
    /// More sledges than can be processed at once.
    TooManyError,
    /// No sledge number, or no reindeer record, was given.
    EmptyInputError,
}

impl Error {
    /// The text of the message that belongs to each failure.
    pub open spec fn message_text(self) -> Seq<char> {
        match self {
            Error::ParseError => "package id must be a digit"@,
            Error::TooManyError => "maximum of 20 sledges can be processed simultaneously"@,
            Error::EmptyInputError => "no numbers provided"@,
        }
    }

    /// A human-readable message for the failure.
    pub fn message(&self) -> (s: &'static str)
        ensures
            s@ == self.message_text(),
    {
        match self {
            Error::ParseError => "package id must be a digit",
            Error::TooManyError => "maximum of 20 sledges can be processed simultaneously",
            Error::EmptyInputError => "no numbers provided",
        }
    }
}

} // verus!
