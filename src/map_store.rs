use vstd::prelude::*;

use crate::entity::KVDBEntity;
use crate::error::{MiniKVDBError, Result};
use crate::key_map::{KVDBObject, KeyMap};
use crate::map_command::{
    ContainsKeyCommand, DeleteCommand, GetAllCommand, GetCommand, GetObjectCommand, SetCommand,
};
use crate::value::KVDBValue;

verus! {

/// The objects of a store, each as its fields.
pub type Objects = Map<Seq<char>, Map<Seq<char>, KVDBValue>>;

/// The objects of a store, by key.
pub open spec fn objects_of(m: Map<Seq<char>, KVDBObject>) -> Objects {
    m.map_values(|o: KVDBObject| o@)
}

/// What `set(k, o)` or `delete(k)` hands back: the object that was under `k`.
pub open spec fn replaced_object(before: Objects, k: Seq<char>, r: Option<KVDBObject>) -> bool {
    match r {
        Some(o) => before.contains_key(k) && o@ == before[k],
        None => !before.contains_key(k),
    }
}

/// What `set(k, o)` does: `r` is the object it replaced.
pub open spec fn object_set_effect(
    before: Objects,
    after: Objects,
    k: Seq<char>,
    o: Map<Seq<char>, KVDBValue>,
    r: Option<KVDBObject>,
) -> bool {
    after == before.insert(k, o) && replaced_object(before, k, r)
}

/// What `delete(k)` does: `r` is the object it removed.
pub open spec fn object_delete_effect(before: Objects, after: Objects, k: Seq<char>, r: Option<KVDBObject>) -> bool {
    after == before.remove(k) && replaced_object(before, k, r)
}

/// What `get_object` returns for what the record type's conversion gave.
pub open spec fn object_result_spec<T>(c: Result<T>) -> Result<Option<T>> {
    match c {
        Ok(t) => Ok(Some(t)),
        Err(_) => Err(MiniKVDBError::InvalidObject),
    }
}

/// The result of a record conversion as `get_object` reports it: a failed
/// conversion becomes `InvalidObject`.
pub fn object_result<T>(c: Result<T>) -> (r: Result<Option<T>>)
    ensures
        r == object_result_spec(c),
{
    match c {
        Ok(t) => Ok(Some(t)),
        Err(_) => Err(MiniKVDBError::InvalidObject),
    }
}

/// The map store: one object under each key.
pub struct MapStore(KeyMap<KVDBObject>);

impl View for MapStore {
    type V = Objects;

    closed spec fn view(&self) -> Objects {
        objects_of(self.0@)
    }
}

impl MapStore {
    /// An empty store.
    pub fn new() -> (r: MapStore)
        ensures
            r@ == Objects::empty(),
    {
        let r = MapStore(KeyMap::new());
        assert(r@ =~= Objects::empty());
        r
    }

    /// Stores the object under the key and returns the object it replaced.
    pub fn set(&mut self, cmd: SetCommand) -> (r: Result<Option<KVDBObject>>)
        ensures
            r matches Ok(prev) && object_set_effect(old(self)@, final(self)@, cmd.0@, cmd.1@, prev),
    {
        let SetCommand(k, v) = cmd;
        let ghost kv = k@;
        let ghost ov = v@;
        let prev = self.0.insert(k, v);
        assert(self@ =~= old(self)@.insert(kv, ov));
        Ok(prev)
    }

    /// A copy of one field of the object under the key; `None` where the key or
    /// the field is absent.
    pub fn get(&self, cmd: GetCommand) -> (r: Result<Option<KVDBValue>>)
        ensures
            r == Ok::<Option<KVDBValue>, MiniKVDBError>(
                if self@.contains_key(cmd.0@) && self@[cmd.0@].contains_key(cmd.1@) {
                    Some(self@[cmd.0@][cmd.1@])
                } else {
                    None
                },
            ),
    {
        match self.0.get(&cmd.0) {
            Some(obj) => match obj.get(&cmd.1) {
                Some(v) => Ok(Some(v.clone())),
                None => Ok(None),
            },
            None => Ok(None),
        }
    }

    /// A copy of the whole object under the key.
    pub fn get_all(&self, cmd: GetAllCommand) -> (r: Result<Option<KVDBObject>>)
        ensures
            match r {
                Ok(Some(o)) => self@.contains_key(cmd.0@) && o@ == self@[cmd.0@],
                Ok(None) => !self@.contains_key(cmd.0@),
                Err(_) => false,
            },
    {
        match self.0.get(&cmd.0) {
            Some(obj) => Ok(Some(obj.clone())),
            None => Ok(None),
        }
    }

    /// The object under the key, turned into the record type `T`. A failed
    /// conversion is reported as `InvalidObject`.
    pub fn get_object<T: KVDBEntity>(&self, cmd: GetObjectCommand) -> (r: Result<Option<T>>)
        ensures
            !self@.contains_key(cmd.0@) ==> r == Ok::<Option<T>, MiniKVDBError>(None),
            self@.contains_key(cmd.0@) ==> exists|o: KVDBObject, c: Result<T>|
                o@ == self@[cmd.0@] && #[trigger] call_ensures(T::from_object, (&o,), c)
                    && r == object_result_spec(c),
    {
        match self.0.get(&cmd.0) {
            Some(obj) => {
                let c = T::from_object(obj);
                let r = object_result(c);
                assert(call_ensures(T::from_object, (obj,), c));
                r
            },
            None => Ok(None),
        }
    }

    /// Removes the object under the key and returns it.
    pub fn delete(&mut self, cmd: DeleteCommand) -> (r: Result<Option<KVDBObject>>)
        ensures
            r matches Ok(prev) && object_delete_effect(old(self)@, final(self)@, cmd.0@, prev),
    {
        let prev = self.0.remove(&cmd.0);
        assert(self@ =~= old(self)@.remove(cmd.0@));
        Ok(prev)
    }

    /// Whether an object is stored under the key.
    pub fn contains_key(&self, cmd: ContainsKeyCommand) -> (r: bool)
        ensures
            r == self@.contains_key(cmd.0@),
    {
        self.0.contains_key(&cmd.0)
    }
}

impl Default for MapStore {
    fn default() -> (r: MapStore)
        ensures
            r@ == Objects::empty(),
    {
        MapStore::new()
    }
}

/// After `set(k, a)`, `set(k, b)` hands back `a`, and `get_all(k)` then gives `b`.
pub proof fn law_set_twice(
    m: Objects,
    k: Seq<char>,
    a: Map<Seq<char>, KVDBValue>,
    b: Map<Seq<char>, KVDBValue>,
)
    ensures
        m.insert(k, a).contains_key(k),
        m.insert(k, a)[k] == a,
        m.insert(k, a).insert(k, b).contains_key(k),
        m.insert(k, a).insert(k, b)[k] == b,
{
}

} // verus!
