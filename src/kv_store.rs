use vstd::prelude::*;

use crate::error::{MiniKVDBError, Result};
use crate::key_map::{lookup, KeyMap};
use crate::kv_command::{
    add_integers, integer_sum, DeleteCommand, GetCommand, Increment, IncrementCommand, SetCommand,
};
use crate::value::KVDBValue;

verus! {

/// The scalar store: one value under each key.
pub struct KVStore(KeyMap<KVDBValue>);

impl View for KVStore {
    type V = Map<Seq<char>, KVDBValue>;

    closed spec fn view(&self) -> Map<Seq<char>, KVDBValue> {
        self.0@
    }
}

/// What `set(k, v)` does: `r` is the value it replaced.
pub open spec fn set_effect(
    before: Map<Seq<char>, KVDBValue>,
    after: Map<Seq<char>, KVDBValue>,
    k: Seq<char>,
    v: KVDBValue,
    r: Option<KVDBValue>,
) -> bool {
    after == before.insert(k, v) && r == lookup(before, k)
}

/// What `delete(k)` does: `r` is the value it removed.
pub open spec fn delete_effect(
    before: Map<Seq<char>, KVDBValue>,
    after: Map<Seq<char>, KVDBValue>,
    k: Seq<char>,
    r: Option<KVDBValue>,
) -> bool {
    after == before.remove(k) && r == lookup(before, k)
}

/// What `increment` leaves under a key that held `stored`, and what it returns,
/// when `sum` is what the addition gave.
pub open spec fn increment_outcome(
    before: Map<Seq<char>, KVDBValue>,
    after: Map<Seq<char>, KVDBValue>,
    k: Seq<char>,
    stored: Increment,
    sum: Increment,
    r: Result<Increment>,
) -> bool {
    if sum.same_kind(stored) {
        r == Ok::<Increment, MiniKVDBError>(sum) && after == before.insert(k, sum.value_spec())
    } else {
        r == Err::<Increment, MiniKVDBError>(MiniKVDBError::CannotIncrement) && after == before
    }
}

/// What `increment` of `d` under `k` does: `before` and `after` are the store's
/// contents, `r` the result, and `float_sum` the floating-point addition.
pub open spec fn incremented<F: Fn(Increment, Increment) -> Increment>(
    before: Map<Seq<char>, KVDBValue>,
    after: Map<Seq<char>, KVDBValue>,
    k: Seq<char>,
    d: Increment,
    float_sum: F,
    r: Result<Increment>,
) -> bool {
    if !before.contains_key(k) {
        r == Ok::<Increment, MiniKVDBError>(d) && after == before.insert(k, d.value_spec())
    } else {
        match Increment::of_value(before[k]) {
            None => r == Err::<Increment, MiniKVDBError>(MiniKVDBError::CannotIncrement) && after
                == before,
            Some(s) => if s.is_floating() || d.is_floating() {
                exists|sum: Increment|
                    #[trigger] float_sum.ensures((s, d), sum) && increment_outcome(
                        before,
                        after,
                        k,
                        s,
                        sum,
                        r,
                    )
            } else {
                increment_outcome(before, after, k, s, integer_sum(s, d), r)
            },
        }
    }
}

impl KVStore {
    /// An empty store.
    pub fn new() -> (r: KVStore)
        ensures
            r@ == Map::<Seq<char>, KVDBValue>::empty(),
    {
        KVStore(KeyMap::new())
    }

    /// Stores the value under the key and returns the value it replaced.
    pub fn set(&mut self, cmd: SetCommand) -> (r: Option<KVDBValue>)
        ensures
            set_effect(old(self)@, final(self)@, cmd.0@, cmd.1, r),
    {
        let SetCommand(k, v) = cmd;
        self.0.insert(k, v)
    }

    /// A copy of the value under the key.
    pub fn get(&self, cmd: GetCommand) -> (r: Option<KVDBValue>)
        ensures
            r == lookup(self@, cmd.0@),
    {
        match self.0.get(&cmd.0) {
            Some(v) => Some(v.clone()),
            None => None,
        }
    }

    /// Removes the value under the key and returns it.
    pub fn delete(&mut self, cmd: DeleteCommand) -> (r: Option<KVDBValue>)
        ensures
            delete_effect(old(self)@, final(self)@, cmd.0@, r),
    {
        self.0.remove(&cmd.0)
    }

    /// Adds the delta to the number under the key and returns the new number.
    ///
    /// An absent key is seeded with the delta. A stored `Bool` or `String` is an
    /// error and stays as it is. Otherwise the delta is cast to the stored number's
    /// type and added; the result keeps the stored kind. Integer arithmetic is done
    /// here (see `integer_sum`); wherever a floating-point number takes part,
    /// `float_sum(stored, delta)` is asked for the sum, and a sum of another kind
    /// than the stored number is refused as `CannotIncrement`.
    pub fn increment<F: Fn(Increment, Increment) -> Increment>(
        &mut self,
        cmd: IncrementCommand,
        float_sum: F,
    ) -> (r: Result<Increment>)
        requires
            forall|s: Increment, d: Increment|
                s.is_floating() || d.is_floating() ==> #[trigger] float_sum.requires((s, d)),
        ensures
            incremented(old(self)@, final(self)@, cmd.0@, cmd.1, float_sum, r),
    {
        let IncrementCommand(k, d) = cmd;
        let ghost before = self@;
        let stored = match self.0.get(&k) {
            None => {
                self.0.insert(k, d.to_value());
                return Ok(d);
            },
            Some(KVDBValue::Int(v)) => Increment::Int(*v),
            Some(KVDBValue::Float(v)) => Increment::Float(*v),
            Some(KVDBValue::Long(v)) => Increment::Long(*v),
            Some(KVDBValue::Double(v)) => Increment::Double(*v),
            Some(_) => {
                return Err(MiniKVDBError::CannotIncrement);
            },
        };
        assert(Increment::of_value(before[k@]) == Some(stored));
        let is_float = match (stored, d) {
            (Increment::Float(_), _) | (Increment::Double(_), _) => true,
            (_, Increment::Float(_)) | (_, Increment::Double(_)) => true,
            _ => false,
        };
        let sum = if is_float {
            float_sum(stored, d)
        } else {
            add_integers(stored, d)
        };
        let same = match (sum, stored) {
            (Increment::Int(_), Increment::Int(_)) => true,
            (Increment::Float(_), Increment::Float(_)) => true,
            (Increment::Long(_), Increment::Long(_)) => true,
            (Increment::Double(_), Increment::Double(_)) => true,
            _ => false,
        };
        let r = if !same {
            Err(MiniKVDBError::CannotIncrement)
        } else {
            self.0.insert(k, sum.to_value());
            Ok(sum)
        };
        assert(increment_outcome(before, self@, k@, stored, sum, r));
        r
    }
}

impl Default for KVStore {
    fn default() -> (r: KVStore)
        ensures
            r@ == Map::<Seq<char>, KVDBValue>::empty(),
    {
        KVStore::new()
    }
}


/// After `set(k, v)`, `get(k)` gives `v`.
pub proof fn law_set_then_get(before: Map<Seq<char>, KVDBValue>, k: Seq<char>, v: KVDBValue)
    ensures
        lookup(before.insert(k, v), k) == Some(v),
{
}

/// `increment` under an absent key seeds it with the delta, of the delta's kind,
/// and returns the delta.
pub proof fn law_increment_absent<F: Fn(Increment, Increment) -> Increment>(
    before: Map<Seq<char>, KVDBValue>,
    after: Map<Seq<char>, KVDBValue>,
    k: Seq<char>,
    d: Increment,
    float_sum: F,
    r: Result<Increment>,
)
    requires
        !before.contains_key(k),
        incremented(before, after, k, d, float_sum, r),
    ensures
        r == Ok::<Increment, MiniKVDBError>(d),
        lookup(after, k) == Some(d.value_spec()),
{
}

/// `increment` on a key that holds no number fails and changes nothing.
pub proof fn law_increment_non_numeric<F: Fn(Increment, Increment) -> Increment>(
    before: Map<Seq<char>, KVDBValue>,
    after: Map<Seq<char>, KVDBValue>,
    k: Seq<char>,
    d: Increment,
    float_sum: F,
    r: Result<Increment>,
)
    requires
        before.contains_key(k),
        before[k] is Bool || before[k] is String,
        incremented(before, after, k, d, float_sum, r),
    ensures
        r == Err::<Increment, MiniKVDBError>(MiniKVDBError::CannotIncrement),
        after == before,
{
}

/// Deleting a present key twice gives its value, then nothing.
pub proof fn law_delete_twice(before: Map<Seq<char>, KVDBValue>, k: Seq<char>)
    requires
        before.contains_key(k),
    ensures
        lookup(before, k) == Some(before[k]),
        lookup(before.remove(k), k) == None::<KVDBValue>,
{
}

} // verus!
