//! Errors that carry what went wrong with them.

use vstd::prelude::*;
use super::errors;

verus! {

/// The result of an operation of the list contract.
pub type Result<T, E> = core::result::Result<T, E>;

/// Why an operation of the list contract failed.
#[derive(Debug)]
pub enum Error<T> {
    /// The operation needs at least one element.
    EmptyList,
    /// No element of a non-empty list equals `value`.
    ValueNotFound { value: T },
    /// `index` is above `max_index`, the last position of the list.
    IndexOutOfBounds { index: usize, max_index: usize },
}

impl<T> Error<T> {
    /// The error without what it carries.
    pub open spec fn kind_of(e: Error<T>) -> errors::Error {
        match e {
            Error::EmptyList => errors::Error::EmptyList,
            Error::ValueNotFound { .. } => errors::Error::ValueNotFound,
            Error::IndexOutOfBounds { .. } => errors::Error::IndexOutOfBounds,
        }
    }

    /// The error without what it carries.
    pub fn kind(&self) -> (kind: errors::Error)
        ensures
            kind == Self::kind_of(*self),
    {
        match self {
            Error::EmptyList => errors::Error::EmptyList,
            Error::ValueNotFound { .. } => errors::Error::ValueNotFound,
            Error::IndexOutOfBounds { .. } => errors::Error::IndexOutOfBounds,
        }
    }
}

/// `outcome` with each error reduced to its kind.
pub open spec fn plain<R, T>(outcome: Result<R, Error<T>>) -> Result<R, errors::Error> {
    match outcome {
        Ok(r) => Ok(r),
        Err(e) => Err(Error::kind_of(e)),
    }
}

/// Where `outcome` is `ValueNotFound`, it carries a copy of `value`.
pub open spec fn names_value<R, T: Clone>(outcome: Result<R, Error<T>>, value: T) -> bool {
    match outcome {
        Err(Error::ValueNotFound { value: carried }) => cloned(value, carried),
        _ => true,
    }
}

/// Where `outcome` is `IndexOutOfBounds`, it carries `index` and the last
/// position of a list of `len` elements.
pub open spec fn names_index<R, T>(outcome: Result<R, Error<T>>, index: usize, len: nat) -> bool {
    match outcome {
        Err(Error::IndexOutOfBounds { index: i, max_index }) => i == index && max_index == len - 1,
        _ => true,
    }
}

} // verus!
