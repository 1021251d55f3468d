use vstd::prelude::*;

use crate::key::Key;
use crate::value::KVDBValue;

verus! {

/// A mapping from keys to values, compared by the keys' characters. Entries are
/// kept in a vector with no two keys alike; their order carries no meaning.
pub struct KeyMap<V> {
    entries: Vec<(Key, V)>,
    model: Ghost<Map<Seq<char>, V>>,
}

impl<V> View for KeyMap<V> {
    type V = Map<Seq<char>, V>;

    closed spec fn view(&self) -> Map<Seq<char>, V> {
        self.model@
    }
}

/// The value under `k` in `m`, if any.
pub open spec fn lookup<V>(m: Map<Seq<char>, V>, k: Seq<char>) -> Option<V> {
    if m.contains_key(k) {
        Some(m[k])
    } else {
        None
    }
}

/// `e` holds distinct keys, and its pairs are exactly those of `m`.
spec fn entries_match<V>(e: Seq<(Key, V)>, m: Map<Seq<char>, V>) -> bool {
    &&& forall|i: int, j: int|
        0 <= i < e.len() && 0 <= j < e.len() && i != j ==> #[trigger] e[i].0@ != #[trigger] e[j].0@
    &&& forall|i: int| 0 <= i < e.len() ==> m.contains_key(#[trigger] e[i].0@) && m[e[i].0@] == e[i].1
    &&& forall|k: Seq<char>| #[trigger] m.contains_key(k) ==> exists|i: int| 0 <= i < e.len() && e[i].0@ == k
}

impl<V> KeyMap<V> {
    /// The entries hold distinct keys, and they are exactly the mapping.
    #[verifier::type_invariant]
    closed spec fn wf(&self) -> bool {
        entries_match(self.entries@, self.model@)
    }

    /// The value under `k`, if any.
    pub open spec fn get_spec(&self, k: Seq<char>) -> Option<V> {
        if self@.contains_key(k) {
            Some(self@[k])
        } else {
            None
        }
    }

    /// An empty mapping.
    pub fn new() -> (r: KeyMap<V>)
        ensures
            r@ == Map::<Seq<char>, V>::empty(),
    {
        KeyMap { entries: Vec::new(), model: Ghost(Map::empty()) }
    }

    /// The number of keys.
    pub fn len(&self) -> (r: usize)
        ensures
            r == self@.len(),
    {
        proof {
            use_type_invariant(self);
            self.lemma_len();
        }
        self.entries.len()
    }

    proof fn lemma_len(&self)
        requires
            self.wf(),
        ensures
            self@.dom().finite(),
            self@.len() == self.entries@.len(),
    {
        let e = self.entries@;
        let keys = e.map_values(|p: (Key, V)| p.0@);
        assert forall|i: int, j: int| 0 <= i < keys.len() && 0 <= j < keys.len() && i != j implies keys[i]
            != keys[j] by {
            assert(e[i].0@ != e[j].0@);
        }
        keys.unique_seq_to_set();
        assert(keys.to_set() =~= self@.dom()) by {
            assert forall|k: Seq<char>| self@.dom().contains(k) implies keys.to_set().contains(k) by {
                let i = choose|i: int| 0 <= i < e.len() && e[i].0@ == k;
                assert(keys[i] == k);
            }
            assert forall|k: Seq<char>| keys.to_set().contains(k) implies self@.dom().contains(k) by {
                let i = choose|i: int| 0 <= i < keys.len() && keys[i] == k;
                assert(self.model@.contains_key(e[i].0@));
            }
        }
    }

    /// The position of the entry with key `k`.
    fn index_of(&self, k: &Key) -> (r: Option<usize>)
        ensures
            match r {
                Some(i) => i < self.entries@.len() && self.entries@[i as int].0@ == k@,
                None => !self@.contains_key(k@),
            },
    {
        proof {
            use_type_invariant(self);
        }
        let mut i: usize = 0;
        while i < self.entries.len()
            invariant
                self.wf(),
                i <= self.entries@.len(),
                forall|j: int| 0 <= j < i ==> self.entries@[j].0@ != k@,
            decreases self.entries@.len() - i,
        {
            if self.entries[i].0 == *k {
                return Some(i);
            }
            i = i + 1;
        }
        None
    }

    /// Whether `k` has a value.
    pub fn contains_key(&self, k: &Key) -> (r: bool)
        ensures
            r == self@.contains_key(k@),
    {
        proof {
            use_type_invariant(self);
        }
        match self.index_of(k) {
            Some(_) => true,
            None => false,
        }
    }

    /// The value under `k`.
    pub fn get(&self, k: &Key) -> (r: Option<&V>)
        ensures
            match r {
                Some(v) => self@.contains_key(k@) && *v == self@[k@],
                None => !self@.contains_key(k@),
            },
    {
        proof {
            use_type_invariant(self);
        }
        match self.index_of(k) {
            Some(i) => Some(&self.entries[i].1),
            None => None,
        }
    }

    /// Takes the value under `k` out of the mapping.
    pub fn remove(&mut self, k: &Key) -> (r: Option<V>)
        ensures
            r == old(self).get_spec(k@),
            final(self)@ == old(self)@.remove(k@),
    {
        proof {
            use_type_invariant(&*self);
        }
        match self.index_of(k) {
            Some(i) => {
                let mut whole = KeyMap::new();
                std::mem::swap(&mut whole, self);
                proof {
                    use_type_invariant(&whole);
                }
                let KeyMap { mut entries, model } = whole;
                let ghost old_e = entries@;
                let (_, v) = entries.swap_remove(i);
                let ghost new_m = model@.remove(k@);
                proof {
                    let e = entries@;
                    assert forall|a: int| 0 <= a < e.len() implies #[trigger] e[a] == (if a == i {
                        old_e[old_e.len() - 1]
                    } else {
                        old_e[a]
                    }) by {}
                    assert forall|a: int, b: int|
                        0 <= a < e.len() && 0 <= b < e.len() && a != b implies #[trigger] e[a].0@
                        != #[trigger] e[b].0@ by {
                        let oa = if a == i { old_e.len() - 1 } else { a };
                        let ob = if b == i { old_e.len() - 1 } else { b };
                        assert(old_e[oa].0@ != old_e[ob].0@);
                    }
                    assert forall|j: int| 0 <= j < e.len() implies #[trigger] e[j].0@ != k@ by {
                        if j == i {
                            assert(e[j] == old_e[old_e.len() - 1]);
                            assert(old_e.len() - 1 != i);
                        } else {
                            assert(e[j] == old_e[j]);
                        }
                    }
                    assert forall|kk: Seq<char>| #[trigger] new_m.contains_key(kk) implies exists|
                        j: int,
                    | 0 <= j < e.len() && e[j].0@ == kk by {
                        let j = choose|j: int| 0 <= j < old_e.len() && old_e[j].0@ == kk;
                        if j == old_e.len() - 1 {
                            assert(e[i as int] == old_e[j]);
                        } else {
                            assert(j != i);
                            assert(e[j] == old_e[j]);
                        }
                    }
                }
                proof {
                    let e = entries@;
                    assert forall|a: int| 0 <= a < e.len() implies new_m.contains_key(
                        #[trigger] e[a].0@,
                    ) && new_m[e[a].0@] == e[a].1 by {
                        let oa = if a == i { old_e.len() - 1 } else { a };
                        assert(e[a] == old_e[oa]);
                    }
                }
                assert(entries_match(entries@, new_m));
                *self = KeyMap { entries, model: Ghost(new_m) };
                Some(v)
            },
            None => {
                assert(self@ =~= self@.remove(k@));
                None
            },
        }
    }

    /// Sets the value under `k` and hands back the one it replaced.
    pub fn insert(&mut self, k: Key, v: V) -> (r: Option<V>)
        ensures
            r == old(self).get_spec(k@),
            final(self)@ == old(self)@.insert(k@, v),
    {
        let ghost kv = k@;
        let prev = self.remove(&k);
        let mut whole = KeyMap::new();
        std::mem::swap(&mut whole, self);
        proof {
            use_type_invariant(&whole);
        }
        let KeyMap { mut entries, model } = whole;
        let ghost old_e = entries@;
        entries.push((k, v));
        let ghost new_m = model@.insert(kv, v);
        proof {
            let e = entries@;
            assert forall|a: int, b: int|
                0 <= a < e.len() && 0 <= b < e.len() && a != b implies #[trigger] e[a].0@
                != #[trigger] e[b].0@ by {
                if a < old_e.len() && b < old_e.len() {
                    assert(e[a] == old_e[a]);
                    assert(e[b] == old_e[b]);
                } else if a < old_e.len() {
                    assert(e[a] == old_e[a]);
                    assert(model@.contains_key(old_e[a].0@));
                } else {
                    assert(e[b] == old_e[b]);
                    assert(model@.contains_key(old_e[b].0@));
                }
            }
            assert forall|i: int| 0 <= i < e.len() implies new_m.contains_key(#[trigger] e[i].0@)
                && new_m[e[i].0@] == e[i].1 by {
                if i < old_e.len() {
                    assert(e[i] == old_e[i]);
                }
            }
            assert forall|kk: Seq<char>| #[trigger] new_m.contains_key(kk) implies exists|
                j: int,
            | 0 <= j < e.len() && e[j].0@ == kk by {
                if kk == kv {
                    assert(e[old_e.len() as int].0@ == kk);
                } else {
                    let j = choose|j: int| 0 <= j < old_e.len() && old_e[j].0@ == kk;
                    assert(e[j] == old_e[j]);
                }
            }
        }
        assert(entries_match(entries@, new_m));
        *self = KeyMap { entries, model: Ghost(new_m) };
        prev
    }
}

/// A record: field names mapped to values.
pub type KVDBObject = KeyMap<KVDBValue>;

impl Clone for KeyMap<KVDBValue> {
    fn clone(&self) -> (r: KeyMap<KVDBValue>)
        ensures
            r@ == self@,
    {
        proof {
            use_type_invariant(self);
        }
        let mut entries: Vec<(Key, KVDBValue)> = Vec::new();
        let mut i: usize = 0;
        while i < self.entries.len()
            invariant
                i <= self.entries@.len(),
                entries@.len() == i,
                forall|j: int| 0 <= j < i ==> entries@[j] == self.entries@[j],
            decreases self.entries@.len() - i,
        {
            let k = self.entries[i].0.clone();
            let v = self.entries[i].1.clone();
            entries.push((k, v));
            i = i + 1;
        }
        assert(entries@ =~= self.entries@);
        proof {
            use_type_invariant(self);
        }
        assert(entries_match(entries@, self.model@));
        KeyMap { entries, model: Ghost(self.model@) }
    }
}

} // verus!
