use vstd::prelude::*;

use crate::error::{MiniKVDBError, Result};

verus! {

/// A value that the stores hold. Floating-point numbers are kept as their
/// IEEE-754 bit patterns (`f32::to_bits`, `f64::to_bits`) and compare bit for bit.
#[derive(Debug)]
pub enum KVDBValue {
    Int(i32),
    Float(u32),
    Bool(bool),
    String(String),
    Long(i64),
    Double(u64),
}

/// What a `KVDBValue` is, with a string as its characters.
pub enum ValueModel {
    Int(i32),
    Float(u32),
    Bool(bool),
    Str(Seq<char>),
    Long(i64),
    Double(u64),
}

impl View for KVDBValue {
    type V = ValueModel;

    open spec fn view(&self) -> ValueModel {
        match self {
            KVDBValue::Int(v) => ValueModel::Int(*v),
            KVDBValue::Float(v) => ValueModel::Float(*v),
            KVDBValue::Bool(v) => ValueModel::Bool(*v),
            KVDBValue::String(v) => ValueModel::Str(v@),
            KVDBValue::Long(v) => ValueModel::Long(*v),
            KVDBValue::Double(v) => ValueModel::Double(*v),
        }
    }
}

impl Clone for KVDBValue {
    fn clone(&self) -> (r: KVDBValue)
        ensures
            r == *self,
    {
        match self {
            KVDBValue::Int(v) => KVDBValue::Int(*v),
            KVDBValue::Float(v) => KVDBValue::Float(*v),
            KVDBValue::Bool(v) => KVDBValue::Bool(*v),
            KVDBValue::String(v) => KVDBValue::String(v.clone()),
            KVDBValue::Long(v) => KVDBValue::Long(*v),
            KVDBValue::Double(v) => KVDBValue::Double(*v),
        }
    }
}

impl PartialEq for KVDBValue {
    fn eq(&self, other: &KVDBValue) -> (r: bool) {
        match (self, other) {
            (KVDBValue::Int(a), KVDBValue::Int(b)) => *a == *b,
            (KVDBValue::Float(a), KVDBValue::Float(b)) => *a == *b,
            (KVDBValue::Bool(a), KVDBValue::Bool(b)) => *a == *b,
            (KVDBValue::String(a), KVDBValue::String(b)) => *a == *b,
            (KVDBValue::Long(a), KVDBValue::Long(b)) => *a == *b,
            (KVDBValue::Double(a), KVDBValue::Double(b)) => *a == *b,
            _ => false,
        }
    }
}

impl vstd::std_specs::cmp::PartialEqSpecImpl for KVDBValue {
    open spec fn obeys_eq_spec() -> bool {
        true
    }

    open spec fn eq_spec(&self, other: &KVDBValue) -> bool {
        self@ == other@
    }
}

impl KVDBValue {
    /// The integer held by an `Int`.
    pub fn as_int(&self) -> (r: Result<i32>)
        ensures
            r == (match self {
                KVDBValue::Int(v) => Ok(*v),
                _ => Err::<i32, MiniKVDBError>(MiniKVDBError::WrongFieldType),
            }),
    {
        match self {
            KVDBValue::Int(v) => Ok(*v),
            _ => Err(MiniKVDBError::WrongFieldType),
        }
    }

    /// The bit pattern held by a `Float`.
    pub fn as_float_bits(&self) -> (r: Result<u32>)
        ensures
            r == (match self {
                KVDBValue::Float(v) => Ok(*v),
                _ => Err::<u32, MiniKVDBError>(MiniKVDBError::WrongFieldType),
            }),
    {
        match self {
            KVDBValue::Float(v) => Ok(*v),
            _ => Err(MiniKVDBError::WrongFieldType),
        }
    }

    /// The boolean held by a `Bool`.
    pub fn as_bool(&self) -> (r: Result<bool>)
        ensures
            r == (match self {
                KVDBValue::Bool(v) => Ok(*v),
                _ => Err::<bool, MiniKVDBError>(MiniKVDBError::WrongFieldType),
            }),
    {
        match self {
            KVDBValue::Bool(v) => Ok(*v),
            _ => Err(MiniKVDBError::WrongFieldType),
        }
    }

    /// A copy of the string held by a `String`.
    pub fn as_string(&self) -> (r: Result<String>)
        ensures
            r == (match self {
                KVDBValue::String(v) => Ok(*v),
                _ => Err::<String, MiniKVDBError>(MiniKVDBError::WrongFieldType),
            }),
    {
        match self {
            KVDBValue::String(v) => Ok(v.clone()),
            _ => Err(MiniKVDBError::WrongFieldType),
        }
    }

    /// The integer held by a `Long`.
    pub fn as_long(&self) -> (r: Result<i64>)
        ensures
            r == (match self {
                KVDBValue::Long(v) => Ok(*v),
                _ => Err::<i64, MiniKVDBError>(MiniKVDBError::WrongFieldType),
            }),
    {
        match self {
            KVDBValue::Long(v) => Ok(*v),
            _ => Err(MiniKVDBError::WrongFieldType),
        }
    }

    /// The bit pattern held by a `Double`.
    pub fn as_double_bits(&self) -> (r: Result<u64>)
        ensures
            r == (match self {
                KVDBValue::Double(v) => Ok(*v),
                _ => Err::<u64, MiniKVDBError>(MiniKVDBError::WrongFieldType),
            }),
    {
        match self {
            KVDBValue::Double(v) => Ok(*v),
            _ => Err(MiniKVDBError::WrongFieldType),
        }
    }
}

} // verus!
