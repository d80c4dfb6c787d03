//! What a table operation reports when it cannot do its work.

use vstd::prelude::*;

verus! {

/// The result of a table operation.
pub type Result<T> = core::result::Result<T, Error>;

/// Why a table operation failed.
#[derive(Debug, Clone, Copy, PartialEq, Eq, Structural)]
pub enum Error {
    /// The table has no slot at all.
    EmptyTable,
    /// The slot that the key leads to is empty.
    KeyNotFound,
    /// A table cannot be resized to no slots.
    InvalidCapacity,
}

impl Error {
    /// The text of each error's message.
    pub open spec fn message_of(e: Error) -> Seq<char> {
        match e {
            Error::EmptyTable => "Operation failed: Table is empty"@,
            Error::KeyNotFound => "Operation failed: Key not found in table"@,
            Error::InvalidCapacity => "Operation failed: Invalid capacity"@,
        }
    }

    /// The message that describes the error.
    pub fn message(&self) -> (text: &'static str)
        ensures
            text@ == Self::message_of(*self),
    {
        match self {
            Error::EmptyTable => "Operation failed: Table is empty",
            Error::KeyNotFound => "Operation failed: Key not found in table",
            Error::InvalidCapacity => "Operation failed: Invalid capacity",
        }
    }
}

} // verus!
