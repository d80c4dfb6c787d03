//! What a list operation reports when it cannot do its work.

use vstd::prelude::*;

verus! {

/// The result of a list operation.
pub type Result<T> = core::result::Result<T, Error>;

/// Why a list operation failed.
#[derive(Debug, Clone, Copy, PartialEq, Eq, Structural)]
pub enum Error {
    /// The operation needs at least one element.
    EmptyList,
    /// No element of a non-empty list equals the value looked for.
    ValueNotFound,
    /// The position is not below the list's length.
    IndexOutOfBounds,
}

impl Error {
    /// The message that describes the error.
    pub fn message(&self) -> (text: &'static str)
        ensures
            text@ == Self::message_of(*self),
    {
        match self {
            Error::EmptyList => "Operation failed: List is empty",
            Error::ValueNotFound => "Operation failed: Value not found in list",
            Error::IndexOutOfBounds => "Index is out of bounds",
        }
    }

    /// The text of each error's message.
    pub open spec fn message_of(e: Error) -> Seq<char> {
        match e {
            Error::EmptyList => "Operation failed: List is empty"@,
            Error::ValueNotFound => "Operation failed: Value not found in list"@,
            Error::IndexOutOfBounds => "Index is out of bounds"@,
        }
    }
}

} // verus!
