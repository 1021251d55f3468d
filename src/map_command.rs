use vstd::prelude::*;

use crate::key::Key;
use crate::key_map::KVDBObject;

verus! {

/// Store the object `1` under `0`.
pub struct SetCommand(pub Key, pub KVDBObject);

/// Read field `1` of the object under `0`.
pub struct GetCommand(pub Key, pub Key);

/// Read the whole object under `0`.
pub struct GetAllCommand(pub Key);

/// Remove the object under `0`.
pub struct DeleteCommand(pub Key);

/// Read the object under `0` as a record type.
pub struct GetObjectCommand(pub Key);

/// Ask whether an object is stored under `0`.
pub struct ContainsKeyCommand(pub Key);

} // verus!
