use vstd::prelude::*;

use crate::key::Key;
use crate::value::KVDBValue;

verus! {

/// Put each value of `1` at the front of the list under `0`, one after another.
pub struct PushFrontCommand(pub Key, pub Vec<KVDBValue>);

/// Take the first element of the list under `0`.
pub struct PopFrontCommand(pub Key);

/// Append the values of `1` to the list under `0`.
pub struct PushBackCommand(pub Key, pub Vec<KVDBValue>);

/// Take the last element of the list under `0`.
pub struct PopBackCommand(pub Key);

/// Read part of the list under `0`.
pub struct ListRangeCommand(pub Key, pub ListRangeOption);

/// Which part of a list to read. Positions count from the front, from 0.
#[derive(Debug, Clone, Copy, PartialEq, Eq, Structural)]
pub enum ListRangeOption {
    /// The whole list.
    Whole,
    /// The elements from position `0` to the end.
    FromIndex(usize),
    /// The elements at positions `0` to `0 + 1`, both included, cut at the end.
    FromIndexWithLen(usize, usize),
}

/// Read the length of the list under `0`.
pub struct ListLenCommmand(pub Key);

/// Ask whether the list under `0` holds `1`.
pub struct ListContainsValueCommand(pub Key, pub KVDBValue);

/// Remove elements from the list under `0`.
pub struct ListRemoveCommand(pub Key, pub ListRemoveOption);

/// Which elements to remove.
pub enum ListRemoveOption {
    /// Every element equal to the value.
    All(KVDBValue),
    /// The first `0` elements equal to `1`, from the front.
    Count(usize, KVDBValue),
}

} // verus!
