use vstd::prelude::*;

use crate::key::Key;
use crate::value::KVDBValue;

verus! {

/// Store `1` under `0`.
pub struct SetCommand(pub Key, pub KVDBValue);

/// Read the value under `0`.
pub struct GetCommand(pub Key);

/// Remove the value under `0`.
pub struct DeleteCommand(pub Key);

/// Add `1` to the number under `0`.
pub struct IncrementCommand(pub Key, pub Increment);

/// A number to add, or the number that an increment left behind. Floating-point
/// numbers are IEEE-754 bit patterns.
#[derive(Debug, Clone, Copy, PartialEq, Eq, Structural)]
pub enum Increment {
    Int(i32),
    Float(u32),
    Long(i64),
    Double(u64),
}

impl Increment {
    /// The stored value of the same kind.
    pub open spec fn value_spec(self) -> KVDBValue {
        match self {
            Increment::Int(v) => KVDBValue::Int(v),
            Increment::Float(v) => KVDBValue::Float(v),
            Increment::Long(v) => KVDBValue::Long(v),
            Increment::Double(v) => KVDBValue::Double(v),
        }
    }

    /// The number held by a stored value, if it holds one.
    pub open spec fn of_value(v: KVDBValue) -> Option<Increment> {
        match v {
            KVDBValue::Int(x) => Some(Increment::Int(x)),
            KVDBValue::Float(x) => Some(Increment::Float(x)),
            KVDBValue::Long(x) => Some(Increment::Long(x)),
            KVDBValue::Double(x) => Some(Increment::Double(x)),
            _ => None,
        }
    }

    /// Whether `self` is a floating-point number.
    pub open spec fn is_floating(self) -> bool {
        self is Float || self is Double
    }

    /// Whether two numbers are of one kind.
    pub open spec fn same_kind(self, other: Increment) -> bool {
        match (self, other) {
            (Increment::Int(_), Increment::Int(_)) => true,
            (Increment::Float(_), Increment::Float(_)) => true,
            (Increment::Long(_), Increment::Long(_)) => true,
            (Increment::Double(_), Increment::Double(_)) => true,
            _ => false,
        }
    }

    pub fn to_value(self) -> (r: KVDBValue)
        ensures
            r == self.value_spec(),
    {
        match self {
            Increment::Int(v) => KVDBValue::Int(v),
            Increment::Float(v) => KVDBValue::Float(v),
            Increment::Long(v) => KVDBValue::Long(v),
            Increment::Double(v) => KVDBValue::Double(v),
        }
    }
}

impl From<Increment> for KVDBValue {
    fn from(v: Increment) -> (r: KVDBValue) {
        v.to_value()
    }
}

impl vstd::std_specs::convert::FromSpecImpl<Increment> for KVDBValue {
    open spec fn obeys_from_spec() -> bool {
        true
    }

    open spec fn from_spec(v: Increment) -> KVDBValue {
        v.value_spec()
    }
}

/// `stored + delta` when neither is floating-point: the delta is cast to the
/// stored number's type (`as`, keeping the low bits) and the sum wraps around.
pub open spec fn integer_sum(stored: Increment, delta: Increment) -> Increment {
    match (stored, delta) {
        (Increment::Int(a), Increment::Int(b)) => Increment::Int(a.wrapping_add(b)),
        (Increment::Int(a), Increment::Long(b)) => Increment::Int(a.wrapping_add(b as i32)),
        (Increment::Long(a), Increment::Int(b)) => Increment::Long(a.wrapping_add(b as i64)),
        (Increment::Long(a), Increment::Long(b)) => Increment::Long(a.wrapping_add(b)),
        _ => stored,
    }
}

/// `stored + delta` for two integer numbers; see `integer_sum`.
pub fn add_integers(stored: Increment, delta: Increment) -> (r: Increment)
    requires
        !stored.is_floating(),
        !delta.is_floating(),
    ensures
        r == integer_sum(stored, delta),
{
    match (stored, delta) {
        (Increment::Int(a), Increment::Int(b)) => Increment::Int(a.wrapping_add(b)),
        (Increment::Int(a), Increment::Long(b)) => Increment::Int(a.wrapping_add(#[verifier::truncate] (b as i32))),
        (Increment::Long(a), Increment::Int(b)) => Increment::Long(a.wrapping_add(b as i64)),
        (Increment::Long(a), Increment::Long(b)) => Increment::Long(a.wrapping_add(b)),
        _ => stored,
    }
}

} // verus!
