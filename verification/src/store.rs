//! What is kept on disk between runs, as the caller finds it.

use vstd::prelude::*;

verus! {

/// What a look for a stored value gave.
#[derive(Clone, Debug, PartialEq, Eq)]
pub enum Stored<T> {
    /// Nothing is stored under the name.
    Absent,
    /// Something is stored, and it cannot be read.
    Unreadable,
    /// What is stored does not have the shape of the value.
    Malformed,
    /// The stored value.
    Found(T),
}

} // verus!
