use vstd::prelude::*;

verus! {

/// Every failure that an operation of the store can report.
#[derive(Debug, Clone)]
pub enum MiniKVDBError {
    /// A writer panicked while holding a store's write guard.
    RWLockWritePoison,
    /// A writer panicked while a reader waited for the guard.
    RWLockReadPoison,
    /// `increment` met a stored value that is not a number.
    CannotIncrement,
    /// A field of an object holds another kind of value than asked for.
    WrongFieldType,
    /// A stored object could not be turned into the requested record type.
    InvalidObject,
    /// A record type needs a field that the object lacks.
    MissingField(String),
}

pub type Result<T> = core::result::Result<T, MiniKVDBError>;

} // verus!
