use std::collections::VecDeque;
use vstd::prelude::*;

use crate::key::Key;
use crate::key_map::KeyMap;
use crate::list_command::{
    ListContainsValueCommand, ListLenCommmand, ListRangeCommand, ListRangeOption,
    ListRemoveCommand, ListRemoveOption, PopBackCommand, PopFrontCommand, PushBackCommand,
    PushFrontCommand,
};
use crate::value::{KVDBValue, ValueModel};

verus! {

/// The lists of a store, by key.
pub type Lists = Map<Seq<char>, Seq<KVDBValue>>;

/// The list under `k`, or the empty list.
pub open spec fn list_at(m: Lists, k: Seq<char>) -> Seq<KVDBValue> {
    if m.contains_key(k) {
        m[k]
    } else {
        Seq::empty()
    }
}

/// `m` with `s` under `k`, or with no list under `k` where `s` is empty.
pub open spec fn with_list(m: Lists, k: Seq<char>, s: Seq<KVDBValue>) -> Lists {
    if s.len() == 0 {
        m.remove(k)
    } else {
        m.insert(k, s)
    }
}

/// `s` back to front.
pub open spec fn reversed(s: Seq<KVDBValue>) -> Seq<KVDBValue>
    decreases s.len(),
{
    if s.len() == 0 {
        s
    } else {
        seq![s.last()] + reversed(s.drop_last())
    }
}

/// The lists after `push_back(k, vals)`.
pub open spec fn pushed_back(m: Lists, k: Seq<char>, vals: Seq<KVDBValue>) -> Lists {
    with_list(m, k, list_at(m, k) + vals)
}

/// The lists after `push_front(k, vals)`: each value goes to the front in turn.
pub open spec fn pushed_front(m: Lists, k: Seq<char>, vals: Seq<KVDBValue>) -> Lists {
    with_list(m, k, reversed(vals) + list_at(m, k))
}

/// The lists after `pop_front(k)`.
pub open spec fn popped_front(m: Lists, k: Seq<char>) -> Lists {
    if m.contains_key(k) {
        with_list(m, k, m[k].subrange(1, m[k].len() as int))
    } else {
        m
    }
}

/// The lists after `pop_back(k)`.
pub open spec fn popped_back(m: Lists, k: Seq<char>) -> Lists {
    if m.contains_key(k) {
        with_list(m, k, m[k].subrange(0, m[k].len() - 1))
    } else {
        m
    }
}

/// The part of `s` that `opt` selects.
pub open spec fn range_of(s: Seq<KVDBValue>, opt: ListRangeOption) -> Seq<KVDBValue> {
    match opt {
        ListRangeOption::Whole => s,
        ListRangeOption::FromIndex(start) => if start < s.len() {
            s.subrange(start as int, s.len() as int)
        } else {
            Seq::empty()
        },
        ListRangeOption::FromIndexWithLen(start, count) => if start < s.len() {
            let last = if start + count < s.len() - 1 {
                start + count
            } else {
                s.len() - 1
            };
            s.subrange(start as int, last + 1)
        } else {
            Seq::empty()
        },
    }
}

/// How many elements equal to `v` a front-to-back scan of `s` removes when it may
/// remove at most `n`.
pub open spec fn removed_count(s: Seq<KVDBValue>, v: ValueModel, n: nat) -> nat
    decreases s.len(),
{
    if s.len() == 0 {
        0
    } else {
        let c = removed_count(s.drop_last(), v, n);
        if s.last()@ == v && c < n {
            c + 1
        } else {
            c
        }
    }
}

/// What such a scan leaves of `s`, in order.
pub open spec fn kept(s: Seq<KVDBValue>, v: ValueModel, n: nat) -> Seq<KVDBValue>
    decreases s.len(),
{
    if s.len() == 0 {
        s
    } else {
        let p = kept(s.drop_last(), v, n);
        if s.last()@ == v && removed_count(s.drop_last(), v, n) < n {
            p
        } else {
            p.push(s.last())
        }
    }
}

/// The value that a remove option matches.
pub open spec fn remove_target(opt: ListRemoveOption) -> ValueModel {
    match opt {
        ListRemoveOption::All(v) => v@,
        ListRemoveOption::Count(_, v) => v@,
    }
}

/// How many matches a remove option allows on `s`: all of them, or its count.
pub open spec fn remove_budget(opt: ListRemoveOption, s: Seq<KVDBValue>) -> nat {
    match opt {
        ListRemoveOption::All(_) => s.len(),
        ListRemoveOption::Count(n, _) => n as nat,
    }
}

/// What `push_back(k, vals)` does: `n` is the list's new length.
pub open spec fn push_back_effect(before: Lists, after: Lists, k: Seq<char>, vals: Seq<KVDBValue>, n: usize) -> bool {
    after == pushed_back(before, k, vals) && n == list_at(before, k).len() + vals.len()
}

/// What `push_front(k, vals)` does: `n` is the list's new length.
pub open spec fn push_front_effect(before: Lists, after: Lists, k: Seq<char>, vals: Seq<KVDBValue>, n: usize) -> bool {
    after == pushed_front(before, k, vals) && n == list_at(before, k).len() + vals.len()
}

/// What `pop_front(k)` does: `r` is the element taken.
pub open spec fn pop_front_effect(before: Lists, after: Lists, k: Seq<char>, r: Option<KVDBValue>) -> bool {
    after == popped_front(before, k) && r == (if before.contains_key(k) {
        Some(before[k][0])
    } else {
        None
    })
}

/// What `pop_back(k)` does: `r` is the element taken.
pub open spec fn pop_back_effect(before: Lists, after: Lists, k: Seq<char>, r: Option<KVDBValue>) -> bool {
    after == popped_back(before, k) && r == (if before.contains_key(k) {
        Some(before[k].last())
    } else {
        None
    })
}

/// What `remove(k, opt)` does: `before` and `after` are the lists, `n` the
/// number of elements removed.
pub open spec fn removed_from(before: Lists, after: Lists, k: Seq<char>, opt: ListRemoveOption, n: usize) -> bool {
    if before.contains_key(k) {
        let s = before[k];
        let budget = remove_budget(opt, s);
        n == removed_count(s, remove_target(opt), budget) && after == with_list(
            before,
            k,
            kept(s, remove_target(opt), budget),
        )
    } else {
        n == 0 && after == before
    }
}

/// Whether a list is under `k` and holds an element equal to `v`.
pub open spec fn list_holds(m: Lists, k: Seq<char>, v: ValueModel) -> bool {
    m.contains_key(k) && exists|i: int| 0 <= i < m[k].len() && (#[trigger] m[k][i])@ == v
}

/// The lists of a store, as sequences.
pub open spec fn lists_of(m: Map<Seq<char>, VecDeque<KVDBValue>>) -> Lists {
    m.map_values(|l: VecDeque<KVDBValue>| l@)
}

/// No list is empty.
pub closed spec fn lists_ok(m: &KeyMap<VecDeque<KVDBValue>>) -> bool {
    forall|k: Seq<char>| #[trigger] m@.contains_key(k) ==> m@[k]@.len() > 0
}

/// Takes the list under `k` out of the store; an absent key gives an empty list.
fn take_list(m: &mut KeyMap<VecDeque<KVDBValue>>, k: &Key) -> (r: VecDeque<KVDBValue>)
    requires
        lists_ok(old(m)),
    ensures
        lists_ok(final(m)),
        r@ == list_at(lists_of(old(m)@), k@),
        lists_of(final(m)@) == lists_of(old(m)@).remove(k@),
{
    let r = match m.remove(k) {
        Some(l) => l,
        None => VecDeque::new(),
    };
    assert(lists_of(m@) =~= lists_of(old(m)@).remove(k@));
    r
}

/// Puts `list` under `k`, where no list is; an empty list is not kept.
fn put_list(m: &mut KeyMap<VecDeque<KVDBValue>>, k: Key, list: VecDeque<KVDBValue>)
    requires
        lists_ok(old(m)),
        !lists_of(old(m)@).contains_key(k@),
    ensures
        lists_ok(final(m)),
        lists_of(final(m)@) == with_list(lists_of(old(m)@), k@, list@),
{
    let ghost kv = k@;
    let ghost s = list@;
    if list.len() > 0 {
        m.insert(k, list);
        assert(lists_of(m@) =~= lists_of(old(m)@).insert(kv, s));
    } else {
        assert(lists_of(old(m)@) =~= lists_of(old(m)@).remove(kv));
    }
}

/// The list store: a non-empty double-ended list under each key.
pub struct ListStore(KeyMap<VecDeque<KVDBValue>>);

impl View for ListStore {
    type V = Lists;

    closed spec fn view(&self) -> Lists {
        lists_of(self.0@)
    }
}

impl ListStore {
    #[verifier::type_invariant]
    spec fn inv(&self) -> bool {
        lists_ok(&self.0)
    }

    /// Moves the lists out, leaving the store empty for the moment.
    fn take_entries(&mut self) -> (m: KeyMap<VecDeque<KVDBValue>>)
        ensures
            lists_ok(&m),
            lists_of(m@) == old(self)@,
    {
        proof {
            use_type_invariant(&*self);
        }
        let mut m = KeyMap::new();
        std::mem::swap(&mut m, &mut self.0);
        m
    }

    /// An empty store.
    pub fn new() -> (r: ListStore)
        ensures
            r@ == Map::<Seq<char>, Seq<KVDBValue>>::empty(),
    {
        let r = ListStore(KeyMap::new());
        assert(r@ =~= Map::<Seq<char>, Seq<KVDBValue>>::empty());
        r
    }

    /// Appends the values to the list under the key, creating it where absent,
    /// and returns the list's new length.
    pub fn push_back(&mut self, cmd: PushBackCommand) -> (r: usize)
        ensures
            push_back_effect(old(self)@, final(self)@, cmd.0@, cmd.1@, r),
    {
        let PushBackCommand(k, vals) = cmd;
        let ghost kv = k@;
        let mut m = self.take_entries();
        let mut list = take_list(&mut m, &k);
        let ghost start = list@;
        let mut i: usize = 0;
        while i < vals.len()
            invariant
                i <= vals@.len(),
                list@ == start + vals@.take(i as int),
            decreases vals@.len() - i,
        {
            list.push_back(vals[i].clone());
            assert(vals@.take(i as int + 1) =~= vals@.take(i as int).push(vals@[i as int]));
            i = i + 1;
        }
        assert(vals@.take(vals@.len() as int) =~= vals@);
        let n = list.len();
        put_list(&mut m, k, list);
        self.0 = m;
        assert(self@ == pushed_back(old(self)@, kv, vals@));
        n
    }

    /// Puts each value at the front of the list under the key in turn, creating
    /// it where absent, and returns the list's new length. The values end up in
    /// reverse order.
    pub fn push_front(&mut self, cmd: PushFrontCommand) -> (r: usize)
        ensures
            push_front_effect(old(self)@, final(self)@, cmd.0@, cmd.1@, r),
    {
        let PushFrontCommand(k, vals) = cmd;
        let ghost kv = k@;
        let mut m = self.take_entries();
        let mut list = take_list(&mut m, &k);
        let ghost start = list@;
        let mut i: usize = 0;
        while i < vals.len()
            invariant
                i <= vals@.len(),
                list@ == reversed(vals@.take(i as int)) + start,
            decreases vals@.len() - i,
        {
            list.push_front(vals[i].clone());
            proof {
                let t = vals@.take(i as int + 1);
                assert(t.drop_last() =~= vals@.take(i as int));
                assert(reversed(t) == seq![vals@[i as int]] + reversed(vals@.take(i as int)));
                assert(list@ =~= reversed(t) + start);
            }
            i = i + 1;
        }
        assert(vals@.take(vals@.len() as int) =~= vals@);
        proof {
            lemma_reversed_len(vals@);
        }
        let n = list.len();
        put_list(&mut m, k, list);
        self.0 = m;
        assert(self@ == pushed_front(old(self)@, kv, vals@));
        n
    }

    /// Takes the first element of the list under the key; the key goes away
    /// with its last element.
    pub fn pop_front(&mut self, cmd: PopFrontCommand) -> (r: Option<KVDBValue>)
        ensures
            pop_front_effect(old(self)@, final(self)@, cmd.0@, r),
    {
        let PopFrontCommand(k) = cmd;
        proof {
            use_type_invariant(&*self);
        }
        if !self.0.contains_key(&k) {
            return None;
        }
        let mut m = self.take_entries();
        let mut list = take_list(&mut m, &k);
        let ghost kv = k@;
        let r = list.pop_front();
        put_list(&mut m, k, list);
        self.0 = m;
        assert(self@ == popped_front(old(self)@, kv));
        r
    }

    /// Takes the last element of the list under the key; the key goes away
    /// with its last element.
    pub fn pop_back(&mut self, cmd: PopBackCommand) -> (r: Option<KVDBValue>)
        ensures
            pop_back_effect(old(self)@, final(self)@, cmd.0@, r),
    {
        let PopBackCommand(k) = cmd;
        proof {
            use_type_invariant(&*self);
        }
        if !self.0.contains_key(&k) {
            return None;
        }
        let mut m = self.take_entries();
        let mut list = take_list(&mut m, &k);
        let ghost kv = k@;
        let r = list.pop_back();
        put_list(&mut m, k, list);
        self.0 = m;
        assert(self@ == popped_back(old(self)@, kv));
        r
    }

    /// The length of the list under the key; `None` where there is none.
    pub fn len(&self, cmd: ListLenCommmand) -> (r: Option<usize>)
        ensures
            r == (if self@.contains_key(cmd.0@) {
                Some(self@[cmd.0@].len() as usize)
            } else {
                None
            }),
            r matches Some(n) ==> n > 0,
    {
        proof {
            use_type_invariant(self);
        }
        match self.0.get(&cmd.0) {
            Some(l) => Some(l.len()),
            None => None,
        }
    }

    /// A copy of the part of the list under the key that the option selects;
    /// `None` where there is no list.
    pub fn range(&self, cmd: ListRangeCommand) -> (r: Option<Vec<KVDBValue>>)
        ensures
            match r {
                Some(v) => self@.contains_key(cmd.0@) && v@ == range_of(self@[cmd.0@], cmd.1),
                None => !self@.contains_key(cmd.0@),
            },
    {
        proof {
            use_type_invariant(self);
        }
        let list = match self.0.get(&cmd.0) {
            Some(l) => l,
            None => {
                return None;
            },
        };
        let len = list.len();
        let (start, end) = match cmd.1 {
            ListRangeOption::Whole => (0, len),
            ListRangeOption::FromIndex(start) => if start < len {
                (start, len)
            } else {
                (0, 0)
            },
            ListRangeOption::FromIndexWithLen(start, count) => if start < len {
                if count < len - 1 - start {
                    (start, start + count + 1)
                } else {
                    (start, len)
                }
            } else {
                (0, 0)
            },
        };
        let mut out: Vec<KVDBValue> = Vec::new();
        let mut i: usize = start;
        while i < end
            invariant
                start <= i <= end <= len,
                len == list@.len(),
                out@ == list@.subrange(start as int, i as int),
            decreases end - i,
        {
            out.push(list[i].clone());
            assert(list@.subrange(start as int, i as int + 1) =~= list@.subrange(start as int, i as int).push(list@[i as int]));
            i = i + 1;
        }
        assert(out@ =~= range_of(list@, cmd.1));
        Some(out)
    }

    /// Whether the list under the key holds an element equal to the value;
    /// `false` where there is no list.
    pub fn contains(&self, cmd: ListContainsValueCommand) -> (r: bool)
        ensures
            r == list_holds(self@, cmd.0@, cmd.1@),
    {
        proof {
            use_type_invariant(self);
        }
        let list = match self.0.get(&cmd.0) {
            Some(l) => l,
            None => {
                return false;
            },
        };
        assert(self@[cmd.0@] == list@);
        let mut i: usize = 0;
        while i < list.len()
            invariant
                self@.contains_key(cmd.0@),
                self@[cmd.0@] == list@,
                i <= list@.len(),
                forall|j: int| 0 <= j < i ==> (#[trigger] list@[j])@ != cmd.1@,
            decreases list@.len() - i,
        {
            if list[i] == cmd.1 {
                assert(self@[cmd.0@][i as int]@ == cmd.1@);
                return true;
            }
            i = i + 1;
        }
        false
    }

    /// Removes matching elements from the list under the key, scanning from the
    /// front, and returns how many went. The key goes away with its last element.
    pub fn remove(&mut self, cmd: ListRemoveCommand) -> (r: usize)
        ensures
            removed_from(old(self)@, final(self)@, cmd.0@, cmd.1, r),
            cmd.1 is All && final(self)@.contains_key(cmd.0@) ==> forall|i: int|
                0 <= i < final(self)@[cmd.0@].len() ==> (#[trigger] final(self)@[cmd.0@][i])@ != remove_target(cmd.1),
    {
        let ListRemoveCommand(k, opt) = cmd;
        let ghost target = remove_target(opt);
        proof {
            use_type_invariant(&*self);
        }
        if !self.0.contains_key(&k) {
            assert(!old(self)@.contains_key(k@));
            return 0;
        }
        let mut m = self.take_entries();
        let list = take_list(&mut m, &k);
        let (budget, v) = match opt {
            ListRemoveOption::All(v) => (list.len(), v),
            ListRemoveOption::Count(n, v) => (n, v),
        };
        assert(budget == remove_budget(opt, list@));
        let mut out: VecDeque<KVDBValue> = VecDeque::new();
        let mut dc: usize = 0;
        let mut i: usize = 0;
        while i < list.len()
            invariant
                i <= list@.len(),
                v@ == target,
                dc <= i,
                out@ == kept(list@.take(i as int), target, budget as nat),
                dc == removed_count(list@.take(i as int), target, budget as nat),
            decreases list@.len() - i,
        {
            let ghost t = list@.take(i as int + 1);
            assert(t.drop_last() =~= list@.take(i as int));
            assert(t.last() == list@[i as int]);
            if list[i] == v && dc < budget {
                dc = dc + 1;
            } else {
                out.push_back(list[i].clone());
            }
            i = i + 1;
        }
        assert(list@.take(list@.len() as int) =~= list@);
        proof {
            if opt is All {
                lemma_kept_all(list@, target, budget as nat);
            }
        }
        let ghost kv = k@;
        put_list(&mut m, k, out);
        self.0 = m;
        assert(self@ =~= with_list(old(self)@, kv, kept(list@, target, budget as nat)));
        dc
    }
}

impl Default for ListStore {
    fn default() -> (r: ListStore)
        ensures
            r@ == Map::<Seq<char>, Seq<KVDBValue>>::empty(),
    {
        ListStore::new()
    }
}

/// Reversal keeps the length.
pub proof fn lemma_reversed_len(s: Seq<KVDBValue>)
    ensures
        reversed(s).len() == s.len(),
    decreases s.len(),
{
    if s.len() > 0 {
        lemma_reversed_len(s.drop_last());
    }
}


/// A scan removes no more elements than there are.
pub proof fn lemma_removed_count_bound(s: Seq<KVDBValue>, v: ValueModel, n: nat)
    ensures
        removed_count(s, v, n) <= s.len(),
        removed_count(s, v, n) <= n,
    decreases s.len(),
{
    if s.len() > 0 {
        lemma_removed_count_bound(s.drop_last(), v, n);
    }
}

/// With a budget as large as the list, no element equal to `v` is kept.
pub proof fn lemma_kept_all(s: Seq<KVDBValue>, v: ValueModel, n: nat)
    requires
        n >= s.len(),
    ensures
        forall|i: int| 0 <= i < kept(s, v, n).len() ==> (#[trigger] kept(s, v, n)[i])@ != v,
    decreases s.len(),
{
    if s.len() > 0 {
        let p = s.drop_last();
        lemma_kept_all(p, v, n);
        lemma_removed_count_bound(p, v, n);
        let k = kept(s, v, n);
        assert forall|i: int| 0 <= i < k.len() implies (#[trigger] k[i])@ != v by {
            if i < kept(p, v, n).len() {
                assert(k[i] == kept(p, v, n)[i]);
            }
        }
    }
}

/// The lists after `n` calls of `pop_front(k)`.
pub open spec fn popped_front_times(m: Lists, k: Seq<char>, n: nat) -> Lists
    decreases n,
{
    if n == 0 {
        m
    } else {
        popped_front_times(popped_front(m, k), k, (n - 1) as nat)
    }
}

/// The lists after `n` calls of `pop_back(k)`.
pub open spec fn popped_back_times(m: Lists, k: Seq<char>, n: nat) -> Lists
    decreases n,
{
    if n == 0 {
        m
    } else {
        popped_back_times(popped_back(m, k), k, (n - 1) as nat)
    }
}

/// Two `push_back` calls on one key append both groups in order.
pub proof fn law_push_back_twice(m: Lists, k: Seq<char>, a: Seq<KVDBValue>, b: Seq<KVDBValue>)
    ensures
        pushed_back(pushed_back(m, k, a), k, b) == pushed_back(m, k, a + b),
{
    let once = pushed_back(m, k, a);
    assert(list_at(once, k) + b =~= list_at(m, k) + (a + b));
    assert(pushed_back(once, k, b) =~= pushed_back(m, k, a + b));
}

/// `push_front` on an absent key leaves the values in reverse order.
pub proof fn law_push_front_reverses(m: Lists, k: Seq<char>, vals: Seq<KVDBValue>)
    requires
        !m.contains_key(k),
        vals.len() > 0,
    ensures
        pushed_front(m, k, vals).contains_key(k),
        pushed_front(m, k, vals)[k] == reversed(vals),
{
    lemma_reversed_len(vals);
    assert(reversed(vals) + list_at(m, k) =~= reversed(vals));
}

/// Popping a list's every element from the front removes its key.
pub proof fn law_pop_front_all(m: Lists, k: Seq<char>)
    requires
        m.contains_key(k),
        m[k].len() > 0,
    ensures
        !popped_front_times(m, k, m[k].len()).contains_key(k),
    decreases m[k].len(),
{
    let next = popped_front(m, k);
    assert(popped_front_times(m, k, m[k].len()) == popped_front_times(next, k, (m[k].len() - 1) as nat));
    if m[k].len() > 1 {
        assert(next[k].len() == m[k].len() - 1);
        law_pop_front_all(next, k);
    } else {
        assert(!next.contains_key(k));
    }
}

/// Popping a list's every element from the back removes its key.
pub proof fn law_pop_back_all(m: Lists, k: Seq<char>)
    requires
        m.contains_key(k),
        m[k].len() > 0,
    ensures
        !popped_back_times(m, k, m[k].len()).contains_key(k),
    decreases m[k].len(),
{
    let next = popped_back(m, k);
    assert(popped_back_times(m, k, m[k].len()) == popped_back_times(next, k, (m[k].len() - 1) as nat));
    if m[k].len() > 1 {
        assert(next[k].len() == m[k].len() - 1);
        law_pop_back_all(next, k);
    } else {
        assert(!next.contains_key(k));
    }
}

/// No list under a missing key holds anything.
pub proof fn law_contains_missing(m: Lists, k: Seq<char>, v: ValueModel)
    requires
        !m.contains_key(k),
    ensures
        !list_holds(m, k, v),
{
}

} // verus!
