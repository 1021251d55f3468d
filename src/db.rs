use std::sync::{Arc, RwLock};
use vstd::prelude::*;

use crate::entity::KVDBEntity;
use crate::error::{MiniKVDBError, Result};
use crate::key::Key;
use crate::key_map::{lookup, KVDBObject};
use crate::kv_command::{DeleteCommand, GetCommand, Increment, IncrementCommand, SetCommand};
use crate::kv_store::{delete_effect, incremented, set_effect, KVStore};
use crate::list_command::{
    ListContainsValueCommand, ListLenCommmand, ListRangeCommand, ListRemoveCommand,
    PopBackCommand, PopFrontCommand, PushBackCommand, PushFrontCommand,
};
use crate::list_store::{
    list_holds, pop_back_effect, pop_front_effect, push_back_effect, push_front_effect, range_of,
    removed_from, ListStore, Lists,
};
use crate::map_command::{
    ContainsKeyCommand, DeleteCommand as MapDeleteCommand, GetAllCommand,
    GetCommand as MapGetCommand, GetObjectCommand, SetCommand as MapSetCommand,
};
use crate::map_store::{object_delete_effect, object_set_effect, MapStore, Objects};
use crate::value::KVDBValue;

verus! {

/// std's reader/writer lock, which each store sits behind; opaque here.
#[verifier::external_type_specification]
#[verifier::external_body]
#[verifier::reject_recursive_types(T)]
pub struct ExRwLock<T: ?Sized>(RwLock<T>);

/// Relies on `RwLock::new`: a lock that guards `t`.
pub assume_specification<T>[ RwLock::<T>::new ](t: T) -> RwLock<T>;

/// Relies on `RwLock::read`: `f` runs on the guarded value while a shared guard
/// is held; `None` where the lock is poisoned, and then `f` does not run.
#[verifier::external_body]
fn read_guarded<T, R, F: FnOnce(&T) -> R>(lock: &RwLock<T>, f: F) -> (r: Option<R>)
    requires
        forall|t: &T| f.requires((t,)),
    ensures
        r matches Some(v) ==> exists|t: &T| f.ensures((t,), v),
{
    match lock.read() {
        Ok(guard) => Some(f(&*guard)),
        Err(_) => None,
    }
}

/// Relies on `RwLock::write`: `f` runs on the guarded value while the exclusive
/// guard is held; `None` where the lock is poisoned, and then `f` does not run.
#[verifier::external_body]
fn write_guarded<T, R, F: FnOnce(&mut T) -> R>(lock: &RwLock<T>, f: F) -> (r: Option<R>)
    requires
        forall|t: &mut T| f.requires((t,)),
    ensures
        r matches Some(v) ==> exists|t: &mut T| f.ensures((t,), v),
{
    match lock.write() {
        Ok(mut guard) => Some(f(&mut *guard)),
        Err(_) => None,
    }
}

/// The store shared by all its handles: one guarded instance of each shape.
/// A clone is another handle on the same stores. Each operation takes the guard
/// of one store only, shared for a lookup and exclusive for a change; a guard
/// that a panicking writer left poisoned is reported as an error.
///
/// Since other handles may change the stores between two calls, each result is
/// stated of the contents that the store had while the guard was held.
#[derive(Clone)]
pub struct MiniKVDB {
    kv: Arc<RwLock<KVStore>>,
    list: Arc<RwLock<ListStore>>,
    map: Arc<RwLock<MapStore>>,
}

impl MiniKVDB {
    /// A database with three empty stores.
    pub fn new() -> (r: MiniKVDB) {
        MiniKVDB {
            kv: Arc::new(RwLock::new(KVStore::new())),
            list: Arc::new(RwLock::new(ListStore::new())),
            map: Arc::new(RwLock::new(MapStore::new())),
        }
    }

    /// Stores the value under the key; the result is the value it replaced.
    pub fn set(&self, key: Key, value: KVDBValue) -> (r: Result<Option<KVDBValue>>)
        ensures
            match r {
                Ok(o) => exists|before: Map<Seq<char>, KVDBValue>, after: Map<Seq<char>, KVDBValue>| #[trigger] set_effect(before, after, key@, value, o),
                Err(e) => e is RWLockWritePoison,
            },
    {
        let ghost k = key@;
        let ghost v = value;
        let f = |s: &mut KVStore| -> (o: Option<KVDBValue>)
            ensures
                set_effect(old(s)@, final(s)@, k, v, o),
            { s.set(SetCommand(key, value)) };
        match write_guarded(&*self.kv, f) {
            Some(o) => {
                proof {
                    let t = choose|t: &mut KVStore| f.ensures((t,), o);
                    assert(set_effect((*t)@, (*final(t))@, k, v, o));
                }
                Ok(o)
            },
            None => Err(MiniKVDBError::RWLockWritePoison),
        }
    }

    /// The length of the list under the key; `None` where there is none.
    pub fn list_len(&self, key: Key) -> (r: Result<Option<usize>>)
        ensures
            match r {
                Ok(n) => exists|lists: Map<Seq<char>, Seq<KVDBValue>>|
                    n == (if lists.contains_key(key@) {
                        Some(lists[key@].len() as usize)
                    } else {
                        None
                    }),
                Err(e) => e is RWLockReadPoison,
            },
            r matches Ok(Some(n)) ==> n > 0,
    {
        let ghost k = key@;
        let f = |s: &ListStore| -> (o: Option<usize>)
            ensures
                o == (if s@.contains_key(k) {
                    Some(s@[k].len() as usize)
                } else {
                    None
                }),
                o matches Some(n) ==> n > 0,
            { s.len(ListLenCommmand(key)) };
        match read_guarded(&*self.list, f) {
            Some(n) => {
                proof {
                    let t = choose|t: &ListStore| f.ensures((t,), n);
                    assert(n == (if t@.contains_key(k) {
                        Some(t@[k].len() as usize)
                    } else {
                        None
                    }));
                }
                Ok(n)
            },
            None => Err(MiniKVDBError::RWLockReadPoison),
        }
    }
    /// A copy of the value under the key.
    pub fn get(&self, key: Key) -> (r: Result<Option<KVDBValue>>)
        ensures
            match r {
                Ok(v) => exists|m: Map<Seq<char>, KVDBValue>| v == lookup(m, key@),
                Err(e) => e is RWLockReadPoison,
            },
    {
        let ghost k = key@;
        let f = |s: &KVStore| -> (o: Option<KVDBValue>)
            ensures
                o == lookup(s@, k),
            { s.get(GetCommand(key)) };
        match read_guarded(&*self.kv, f) {
            Some(v) => {
                proof {
                    let t = choose|t: &KVStore| f.ensures((t,), v);
                    assert(v == lookup(t@, k));
                }
                Ok(v)
            },
            None => Err(MiniKVDBError::RWLockReadPoison),
        }
    }

    /// Removes the value under the key and returns it.
    pub fn del(&self, key: Key) -> (r: Result<Option<KVDBValue>>)
        ensures
            match r {
                Ok(o) => exists|before: Map<Seq<char>, KVDBValue>, after: Map<Seq<char>, KVDBValue>| #[trigger] delete_effect(before, after, key@, o),
                Err(e) => e is RWLockWritePoison,
            },
    {
        let ghost k = key@;
        let f = |s: &mut KVStore| -> (o: Option<KVDBValue>)
            ensures
                delete_effect(old(s)@, final(s)@, k, o),
            { s.delete(DeleteCommand(key)) };
        match write_guarded(&*self.kv, f) {
            Some(o) => {
                proof {
                    let t = choose|t: &mut KVStore| f.ensures((t,), o);
                    assert(delete_effect((*t)@, (*final(t))@, k, o));
                }
                Ok(o)
            },
            None => Err(MiniKVDBError::RWLockWritePoison),
        }
    }

    /// Adds the delta to the number under the key; see `KVStore::increment`.
    pub fn increment<F: Fn(Increment, Increment) -> Increment>(
        &self,
        key: Key,
        delta: Increment,
        float_sum: F,
    ) -> (r: Result<Increment>)
        requires
            forall|s: Increment, d: Increment|
                s.is_floating() || d.is_floating() ==> #[trigger] float_sum.requires((s, d)),
        ensures
            r matches Err(e) ==> (e is RWLockWritePoison || e is CannotIncrement),
            !(r matches Err(MiniKVDBError::RWLockWritePoison)) ==> exists|
                before: Map<Seq<char>, KVDBValue>,
                after: Map<Seq<char>, KVDBValue>,
            | incremented(before, after, key@, delta, float_sum, r),
    {
        let ghost k = key@;
        let ghost fs = float_sum;
        let f = |s: &mut KVStore| -> (o: Result<Increment>)
            requires
                forall|a: Increment, b: Increment|
                    a.is_floating() || b.is_floating() ==> #[trigger] float_sum.requires((a, b)),
            ensures
                incremented(old(s)@, final(s)@, k, delta, float_sum, o),
            { s.increment(IncrementCommand(key, delta), float_sum) };
        match write_guarded(&*self.kv, f) {
            Some(o) => {
                proof {
                    let t = choose|t: &mut KVStore| f.ensures((t,), o);
                    assert(incremented((*t)@, (*final(t))@, k, delta, fs, o));
                }
                o
            },
            None => Err(MiniKVDBError::RWLockWritePoison),
        }
    }

    /// Puts each value at the front of the list under the key in turn; the result
    /// is the list's new length.
    pub fn push_front(&self, key: Key, values: Vec<KVDBValue>) -> (r: Result<usize>)
        ensures
            match r {
                Ok(o) => exists|before: Lists, after: Lists, n: usize|
                    #[trigger] push_front_effect(before, after, key@, values@, n) && o == n,
                Err(e) => e is RWLockWritePoison,
            },
    {
        let ghost k = key@;
        let ghost vals = values@;
        let f = |s: &mut ListStore| -> (o: usize)
            ensures
                push_front_effect(old(s)@, final(s)@, k, vals, o),
            { s.push_front(PushFrontCommand(key, values)) };
        match write_guarded(&*self.list, f) {
            Some(o) => {
                proof {
                    let t = choose|t: &mut ListStore| f.ensures((t,), o);
                    assert(push_front_effect((*t)@, (*final(t))@, key@, values@, o));
                }
                Ok(o)
            },
            None => Err(MiniKVDBError::RWLockWritePoison),
        }
    }

    /// Appends the values to the list under the key; the result is the list's
    /// new length.
    pub fn push_back(&self, key: Key, values: Vec<KVDBValue>) -> (r: Result<usize>)
        ensures
            match r {
                Ok(o) => exists|before: Lists, after: Lists, n: usize|
                    #[trigger] push_back_effect(before, after, key@, values@, n) && o == n,
                Err(e) => e is RWLockWritePoison,
            },
    {
        let ghost k = key@;
        let ghost vals = values@;
        let f = |s: &mut ListStore| -> (o: usize)
            ensures
                push_back_effect(old(s)@, final(s)@, k, vals, o),
            { s.push_back(PushBackCommand(key, values)) };
        match write_guarded(&*self.list, f) {
            Some(o) => {
                proof {
                    let t = choose|t: &mut ListStore| f.ensures((t,), o);
                    assert(push_back_effect((*t)@, (*final(t))@, key@, values@, o));
                }
                Ok(o)
            },
            None => Err(MiniKVDBError::RWLockWritePoison),
        }
    }

    /// Takes the first element of the list under the key.
    pub fn pop_front(&self, key: Key) -> (r: Result<Option<KVDBValue>>)
        ensures
            match r {
                Ok(o) => exists|before: Lists, after: Lists| #[trigger] pop_front_effect(before, after, key@, o),
                Err(e) => e is RWLockWritePoison,
            },
    {
        let ghost k = key@;
        let f = |s: &mut ListStore| -> (o: Option<KVDBValue>)
            ensures
                pop_front_effect(old(s)@, final(s)@, k, o),
            { s.pop_front(PopFrontCommand(key)) };
        match write_guarded(&*self.list, f) {
            Some(o) => {
                proof {
                    let t = choose|t: &mut ListStore| f.ensures((t,), o);
                    assert(pop_front_effect((*t)@, (*final(t))@, k, o));
                }
                Ok(o)
            },
            None => Err(MiniKVDBError::RWLockWritePoison),
        }
    }

    /// Takes the last element of the list under the key.
    pub fn pop_back(&self, key: Key) -> (r: Result<Option<KVDBValue>>)
        ensures
            match r {
                Ok(o) => exists|before: Lists, after: Lists| #[trigger] pop_back_effect(before, after, key@, o),
                Err(e) => e is RWLockWritePoison,
            },
    {
        let ghost k = key@;
        let f = |s: &mut ListStore| -> (o: Option<KVDBValue>)
            ensures
                pop_back_effect(old(s)@, final(s)@, k, o),
            { s.pop_back(PopBackCommand(key)) };
        match write_guarded(&*self.list, f) {
            Some(o) => {
                proof {
                    let t = choose|t: &mut ListStore| f.ensures((t,), o);
                    assert(pop_back_effect((*t)@, (*final(t))@, k, o));
                }
                Ok(o)
            },
            None => Err(MiniKVDBError::RWLockWritePoison),
        }
    }

    /// A copy of part of the list under the key; see `ListStore::range`.
    pub fn list_range(&self, cmd: ListRangeCommand) -> (r: Result<Option<Vec<KVDBValue>>>)
        ensures
            match r {
                Ok(Some(v)) => exists|s: Seq<KVDBValue>| v@ == range_of(s, cmd.1),
                Ok(None) => true,
                Err(e) => e is RWLockReadPoison,
            },
    {
        let ghost k = cmd.0@;
        let ghost opt = cmd.1;
        let f = |s: &ListStore| -> (o: Option<Vec<KVDBValue>>)
            ensures
                match o {
                    Some(v) => s@.contains_key(k) && v@ == range_of(s@[k], opt),
                    None => !s@.contains_key(k),
                },
            { s.range(cmd) };
        match read_guarded(&*self.list, f) {
            Some(o) => {
                proof {
                    let t = choose|t: &ListStore| f.ensures((t,), o);
                    if o is Some {
                        assert(o->Some_0@ == range_of(t@[k], opt));
                    }
                }
                Ok(o)
            },
            None => Err(MiniKVDBError::RWLockReadPoison),
        }
    }

    /// Removes matching elements from the list under the key; the result is how
    /// many went. See `ListStore::remove`.
    pub fn list_remove(&self, cmd: ListRemoveCommand) -> (r: Result<usize>)
        ensures
            match r {
                Ok(o) => exists|before: Lists, after: Lists, n: usize|
                    #[trigger] removed_from(before, after, cmd.0@, cmd.1, n) && o == n,
                Err(e) => e is RWLockWritePoison,
            },
    {
        let ghost k = cmd.0@;
        let ghost opt = cmd.1;
        let f = |s: &mut ListStore| -> (o: usize)
            ensures
                removed_from(old(s)@, final(s)@, k, opt, o),
            { s.remove(cmd) };
        match write_guarded(&*self.list, f) {
            Some(o) => {
                proof {
                    let t = choose|t: &mut ListStore| f.ensures((t,), o);
                    assert(removed_from((*t)@, (*final(t))@, cmd.0@, cmd.1, o));
                }
                Ok(o)
            },
            None => Err(MiniKVDBError::RWLockWritePoison),
        }
    }

    /// Whether the list under the key holds an element equal to the value.
    pub fn list_contains(&self, key: Key, value: KVDBValue) -> (r: Result<bool>)
        ensures
            match r {
                Ok(b) => b ==> exists|s: Seq<KVDBValue>, i: int|
                    0 <= i < s.len() && (#[trigger] s[i])@ == value@,
                Err(e) => e is RWLockReadPoison,
            },
    {
        let ghost k = key@;
        let ghost v = value@;
        let f = |s: &ListStore| -> (o: bool)
            ensures
                o == list_holds(s@, k, v),
            { s.contains(ListContainsValueCommand(key, value)) };
        match read_guarded(&*self.list, f) {
            Some(b) => {
                proof {
                    let t = choose|t: &ListStore| f.ensures((t,), b);
                    if b {
                        assert(list_holds(t@, k, v));
                        let i = choose|i: int| 0 <= i < t@[k].len() && (#[trigger] t@[k][i])@ == v;
                        assert(0 <= i < t@[k].len() && (t@[k][i])@ == v);
                    }
                }
                Ok(b)
            },
            None => Err(MiniKVDBError::RWLockReadPoison),
        }
    }

    /// Stores the object under the key; the result is the object it replaced.
    pub fn hash_set(&self, key: Key, value: KVDBObject) -> (r: Result<Option<KVDBObject>>)
        ensures
            match r {
                Ok(o) => exists|before: Objects, after: Objects| #[trigger] object_set_effect(before, after, key@, value@, o),
                Err(e) => e is RWLockWritePoison,
            },
    {
        let ghost k = key@;
        let ghost ov = value@;
        let f = |s: &mut MapStore| -> (o: Result<Option<KVDBObject>>)
            ensures
                o matches Ok(prev) && object_set_effect(old(s)@, final(s)@, k, ov, prev),
            { s.set(MapSetCommand(key, value)) };
        match write_guarded(&*self.map, f) {
            Some(Ok(o)) => {
                proof {
                    let t = choose|t: &mut MapStore| f.ensures((t,), Ok::<Option<KVDBObject>, MiniKVDBError>(o));
                    assert(object_set_effect((*t)@, (*final(t))@, k, ov, o));
                }
                Ok(o)
            },
            Some(Err(e)) => {
                proof {
                    let t = choose|t: &mut MapStore| f.ensures((t,), Err::<Option<KVDBObject>, MiniKVDBError>(e));
                }
                Err(e)
            },
            None => Err(MiniKVDBError::RWLockWritePoison),
        }
    }

    /// A copy of one field of the object under the key.
    pub fn hash_get(&self, key: Key, field: Key) -> (r: Result<Option<KVDBValue>>)
        ensures
            match r {
                Ok(v) => exists|m: Objects|
                    v == (if m.contains_key(key@) && m[key@].contains_key(field@) {
                        Some(m[key@][field@])
                    } else {
                        None
                    }),
                Err(e) => e is RWLockReadPoison,
            },
    {
        let ghost k = key@;
        let ghost fk = field@;
        let f = |s: &MapStore| -> (o: Result<Option<KVDBValue>>)
            ensures
                o == Ok::<Option<KVDBValue>, MiniKVDBError>(
                    if s@.contains_key(k) && s@[k].contains_key(fk) {
                        Some(s@[k][fk])
                    } else {
                        None
                    },
                ),
            { s.get(MapGetCommand(key, field)) };
        match read_guarded(&*self.map, f) {
            Some(o) => {
                proof {
                    let t = choose|t: &MapStore| f.ensures((t,), o);
                    let m = t@;
                    assert(o->Ok_0 == (if m.contains_key(k) && m[k].contains_key(fk) {
                        Some(m[k][fk])
                    } else {
                        None
                    }));
                }
                o
            },
            None => Err(MiniKVDBError::RWLockReadPoison),
        }
    }

    /// A copy of the whole object under the key.
    pub fn hash_get_all(&self, key: Key) -> (r: Result<Option<KVDBObject>>)
        ensures
            match r {
                Ok(Some(o)) => exists|m: Objects| m.contains_key(key@) && o@ == m[key@],
                Ok(None) => true,
                Err(e) => e is RWLockReadPoison,
            },
    {
        let ghost k = key@;
        let f = |s: &MapStore| -> (o: Result<Option<KVDBObject>>)
            ensures
                match o {
                    Ok(Some(p)) => s@.contains_key(k) && p@ == s@[k],
                    Ok(None) => !s@.contains_key(k),
                    Err(_) => false,
                },
            { s.get_all(GetAllCommand(key)) };
        match read_guarded(&*self.map, f) {
            Some(o) => {
                proof {
                    let t = choose|t: &MapStore| f.ensures((t,), o);
                    match &o {
                        Ok(Some(p)) => {
                            assert(t@.contains_key(k) && p@ == t@[k]);
                        },
                        _ => {},
                    }
                }
                o
            },
            None => Err(MiniKVDBError::RWLockReadPoison),
        }
    }

    /// The object under the key as the record type `T`; see `MapStore::get_object`.
    pub fn hash_get_object<T: KVDBEntity>(&self, key: Key) -> (r: Result<Option<T>>)
        ensures
            r matches Err(e) ==> (e is RWLockReadPoison || e is InvalidObject),
    {
        let f = |s: &MapStore| -> (o: Result<Option<T>>)
            ensures
                o matches Err(e) ==> e is InvalidObject,
            { s.get_object(GetObjectCommand(key)) };
        match read_guarded(&*self.map, f) {
            Some(o) => {
                proof {
                    let t = choose|t: &MapStore| f.ensures((t,), o);
                }
                o
            },
            None => Err(MiniKVDBError::RWLockReadPoison),
        }
    }

    /// Removes the object under the key and returns it.
    pub fn hash_delete(&self, key: Key) -> (r: Result<Option<KVDBObject>>)
        ensures
            match r {
                Ok(o) => exists|before: Objects, after: Objects| #[trigger] object_delete_effect(before, after, key@, o),
                Err(e) => e is RWLockWritePoison,
            },
    {
        let ghost k = key@;
        let f = |s: &mut MapStore| -> (o: Result<Option<KVDBObject>>)
            ensures
                o matches Ok(prev) && object_delete_effect(old(s)@, final(s)@, k, prev),
            { s.delete(MapDeleteCommand(key)) };
        match write_guarded(&*self.map, f) {
            Some(Ok(o)) => {
                proof {
                    let t = choose|t: &mut MapStore| f.ensures((t,), Ok::<Option<KVDBObject>, MiniKVDBError>(o));
                    assert(object_delete_effect((*t)@, (*final(t))@, k, o));
                }
                Ok(o)
            },
            Some(Err(e)) => {
                proof {
                    let t = choose|t: &mut MapStore| f.ensures((t,), Err::<Option<KVDBObject>, MiniKVDBError>(e));
                }
                Err(e)
            },
            None => Err(MiniKVDBError::RWLockWritePoison),
        }
    }

    /// Whether an object is stored under the key.
    pub fn hash_contains_key(&self, key: Key) -> (r: Result<bool>)
        ensures
            r matches Err(e) ==> e is RWLockReadPoison,
    {
        let f = |s: &MapStore| -> (o: bool) { s.contains_key(ContainsKeyCommand(key)) };
        match read_guarded(&*self.map, f) {
            Some(b) => Ok(b),
            None => Err(MiniKVDBError::RWLockReadPoison),
        }
    }
}

} // verus!
