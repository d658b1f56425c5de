//! Sets of message identifiers and tables keyed by a destination hash.

use vstd::prelude::*;
use crate::ids::{contains_id, same_id};

verus! {

/// A set of identifiers of one width.
#[derive(Debug)]
pub struct ByteSet<const N: usize> {
    ids: Vec<[u8; N]>,
}

/// A set of message identifiers.
pub type IdSet = ByteSet<32>;

/// A set of destination hashes.
pub type PeerSet = ByteSet<16>;

impl<const N: usize> View for ByteSet<N> {
    type V = Set<[u8; N]>;

    closed spec fn view(&self) -> Set<[u8; N]> {
        self.ids@.to_set()
    }
}

impl<const N: usize> ByteSet<N> {
    /// The empty set.
    pub fn new() -> (set: Self)
        ensures
            set@ == Set::<[u8; N]>::empty(),
    {
        let set = ByteSet { ids: Vec::new() };
        assert(set@ =~= Set::empty());
        set
    }

    /// Tells whether `id` is in the set.
    pub fn contains(&self, id: &[u8; N]) -> (found: bool)
        ensures
            found == self@.contains(*id),
    {
        contains_id(self.ids.as_slice(), id)
    }

    /// Adds `id` and tells whether it was new.
    pub fn insert(&mut self, id: [u8; N]) -> (added: bool)
        ensures
            final(self)@ == old(self)@.insert(id),
            added == !old(self)@.contains(id),
    {
        if self.contains(&id) {
            assert(self@.insert(id) =~= self@);
            return false;
        }
        self.ids.push(id);
        proof {
            lemma_push_to_set(old(self).ids@, id);
        }
        true
    }

    /// Takes `id` out and tells whether it was there.
    pub fn remove(&mut self, id: &[u8; N]) -> (removed: bool)
        ensures
            final(self)@ == old(self)@.remove(*id),
            removed == old(self)@.contains(*id),
    {
        let removed: bool = self.contains(id);
        let ghost all = self.ids@;
        let mut rest: Vec<[u8; N]> = Vec::new();
        let mut i: usize = 0;
        while i < self.ids.len()
            invariant
                i <= self.ids@.len(),
                self.ids@ == all,
                rest@.to_set() == all.take(i as int).to_set().remove(*id),
            decreases self.ids@.len() - i,
        {
            proof {
                assert(all.take(i + 1) =~= all.take(i as int).push(all[i as int]));
                lemma_push_to_set(all.take(i as int), all[i as int]);
                lemma_push_to_set(rest@, all[i as int]);
            }
            if !same_id(&self.ids[i], id) {
                rest.push(self.ids[i]);
                assert(rest@.to_set() =~= all.take(i + 1).to_set().remove(*id));
            } else {
                assert(rest@.to_set() =~= all.take(i + 1).to_set().remove(*id));
            }
            i = i + 1;
        }
        assert(all.take(i as int) =~= all);
        self.ids = rest;
        removed
    }

    /// Adds all of `ids`.
    pub fn extend(&mut self, ids: &[[u8; N]])
        ensures
            final(self)@ == old(self)@.union(ids@.to_set()),
    {
        let mut i: usize = 0;
        assert(ids@.take(0).to_set() =~= Set::empty());
        assert(self@ =~= old(self)@.union(ids@.take(0).to_set()));
        while i < ids.len()
            invariant
                i <= ids@.len(),
                self@ == old(self)@.union(ids@.take(i as int).to_set()),
            decreases ids@.len() - i,
        {
            self.insert(ids[i]);
            proof {
                assert(ids@.take(i + 1) =~= ids@.take(i as int).push(ids@[i as int]));
                lemma_push_to_set(ids@.take(i as int), ids@[i as int]);
                assert(self@ =~= old(self)@.union(ids@.take(i + 1).to_set()));
            }
            i = i + 1;
        }
        assert(ids@.take(i as int) =~= ids@);
    }

    /// The identifiers as a list, each once.
    pub fn to_vec(&self) -> (ids: Vec<[u8; N]>)
        ensures
            ids@.to_set() == self@,
            ids@.no_duplicates(),
    {
        let mut ids: Vec<[u8; N]> = Vec::new();
        let mut i: usize = 0;
        assert(ids@.to_set() =~= self.ids@.take(0).to_set());
        while i < self.ids.len()
            invariant
                i <= self.ids@.len(),
                ids@.to_set() == self.ids@.take(i as int).to_set(),
                ids@.no_duplicates(),
            decreases self.ids@.len() - i,
        {
            let id: [u8; N] = self.ids[i];
            proof {
                assert(self.ids@.take(i + 1) =~= self.ids@.take(i as int).push(id));
                lemma_push_to_set(self.ids@.take(i as int), id);
                lemma_push_to_set(ids@, id);
            }
            if !contains_id(ids.as_slice(), &id) {
                ids.push(id);
            } else {
                assert(ids@.to_set().contains(id));
                assert(ids@.to_set() =~= ids@.to_set().insert(id));
            }
            i = i + 1;
        }
        assert(self.ids@.take(i as int) =~= self.ids@);
        ids
    }

    /// A set with the same identifiers.
    pub fn copy(&self) -> (set: Self)
        ensures
            set@ == self@,
    {
        ByteSet { ids: self.to_vec() }
    }
}

/// Pushing an item adds it to the set of items.
pub proof fn lemma_push_to_set<T>(items: Seq<T>, item: T)
    ensures
        items.push(item).to_set() == items.to_set().insert(item),
{
    let pushed = items.push(item);
    assert forall|other: T| #[trigger] pushed.to_set().contains(other) <==> items.to_set().insert(
        item,
    ).contains(other) by {
        if items.contains(other) {
            let i = choose|i: int| 0 <= i < items.len() && items[i] == other;
            assert(pushed[i] == other);
        }
        if other == item {
            assert(pushed[items.len() as int] == other);
        }
    }
    assert(pushed.to_set() =~= items.to_set().insert(item));
}

/// A table with one value for each identifier in it.
#[derive(Debug)]
pub struct ByteMap<V, const N: usize> {
    items: Vec<([u8; N], V)>,
}

/// A table keyed by message identifiers.
pub type IdMap<V> = ByteMap<V, 32>;

/// A table keyed by destination hashes.
pub type PeerMap<V> = ByteMap<V, 16>;

impl<V: View, const N: usize> View for ByteMap<V, N> {
    type V = Map<[u8; N], V::V>;

    closed spec fn view(&self) -> Map<[u8; N], V::V> {
        Map::new(
            |key: [u8; N]| self.position(key) is Some,
            |key: [u8; N]| self.items@[self.position(key)->0].1@,
        )
    }
}

impl<V: View, const N: usize> ByteMap<V, N> {
    /// Where the first value of `key` stands.
    spec fn position(&self, key: [u8; N]) -> Option<int> {
        if exists|i: int| self.is_first(key, i) {
            Some(choose|i: int| self.is_first(key, i))
        } else {
            None
        }
    }

    spec fn is_first(&self, key: [u8; N], i: int) -> bool {
        &&& 0 <= i < self.items@.len()
        &&& self.items@[i].0 == key
        &&& forall|j: int| 0 <= j < i ==> (#[trigger] self.items@[j]).0 != key
    }

    /// The empty table.
    pub fn new() -> (table: Self)
        ensures
            table@ == Map::<[u8; N], V::V>::empty(),
    {
        let table = ByteMap { items: Vec::new() };
        assert(table@ =~= Map::empty());
        table
    }

    fn find(&self, key: &[u8; N]) -> (index: Option<usize>)
        ensures
            match index {
                Some(i) => self.is_first(*key, i as int) && self.position(*key) == Some(i as int)
                    && self@.contains_key(*key) && self@[*key] == self.items@[i as int].1@,
                None => !self@.contains_key(*key) && forall|j: int|
                    0 <= j < self.items@.len() ==> (#[trigger] self.items@[j]).0 != *key,
            },
    {
        let mut i: usize = 0;
        while i < self.items.len()
            invariant
                i <= self.items@.len(),
                forall|j: int| 0 <= j < i ==> (#[trigger] self.items@[j]).0 != *key,
            decreases self.items@.len() - i,
        {
            if same_id(&self.items[i].0, key) {
                proof {
                    assert(self.is_first(*key, i as int));
                    let k = choose|k: int| self.is_first(*key, k);
                    assert(self.is_first(*key, k));
                    assert(k == i) by {
                        if k < i {
                            assert(self.items@[k].0 != *key);
                        }
                        if i < k {
                            assert(self.items@[i as int].0 != *key);
                        }
                    }
                }
                return Some(i);
            }
            i = i + 1;
        }
        None
    }

    /// Tells whether the table holds a value for `key`.
    pub fn contains_key(&self, key: &[u8; N]) -> (found: bool)
        ensures
            found == self@.contains_key(*key),
    {
        self.find(key).is_some()
    }

    /// The value for `key`.
    pub fn get(&self, key: &[u8; N]) -> (value: Option<&V>)
        ensures
            match value {
                Some(value) => self@.contains_key(*key) && value@ == self@[*key],
                None => !self@.contains_key(*key),
            },
    {
        match self.find(key) {
            Some(i) => Some(&self.items[i].1),
            None => None,
        }
    }

    /// What stands first for a key decides what the table holds for it.
    proof fn lemma_position(&self, key: [u8; N], i: int)
        requires
            self.is_first(key, i),
        ensures
            self@.contains_key(key),
            self@[key] == self.items@[i].1@,
    {
        let k = choose|k: int| self.is_first(key, k);
        assert(self.is_first(key, k));
        if k < i {
            assert(self.items@[k].0 != key);
        }
        if i < k {
            assert(self.items@[i].0 != key);
        }
    }

    /// Where the keys stay in place and one value changes, one key changes.
    proof fn lemma_replaced(before: Self, after: Self, key: [u8; N], i: int, value: V::V)
        requires
            before.is_first(key, i),
            before.items@.len() == after.items@.len(),
            forall|j: int|
                0 <= j < before.items@.len() ==> (#[trigger] after.items@[j]).0
                    == before.items@[j].0,
            forall|j: int|
                0 <= j < before.items@.len() && j != i ==> (#[trigger] after.items@[j]).1@
                    == before.items@[j].1@,
            after.items@[i].1@ == value,
        ensures
            after@ == before@.insert(key, value),
    {
        assert(after.is_first(key, i));
        after.lemma_position(key, i);
        assert forall|other: [u8; N]| other != key implies #[trigger] after@.contains_key(other)
            == before@.contains_key(other) && (before@.contains_key(other) ==> after@[other]
            == before@[other]) by {
            if before@.contains_key(other) {
                let j = before.position(other)->0;
                assert(before.is_first(other, j));
                assert(after.is_first(other, j));
                before.lemma_position(other, j);
                after.lemma_position(other, j);
            }
            if after@.contains_key(other) {
                let j = after.position(other)->0;
                assert(after.is_first(other, j));
                assert forall|m: int| 0 <= m < j implies (#[trigger] before.items@[m]).0 != other by {
                    assert(after.items@[m].0 != other);
                }
                assert(before.is_first(other, j));
                before.lemma_position(other, j);
            }
        }
        assert(after@ =~= before@.insert(key, value));
    }

    /// Adding a pair for a new key adds that key.
    proof fn lemma_pushed(before: Self, after: Self, key: [u8; N], value: V)
        requires
            !before@.contains_key(key),
            after.items@ == before.items@.push((key, value)),
        ensures
            after@ == before@.insert(key, value@),
    {
        let last = before.items@.len() as int;
        assert forall|j: int| 0 <= j < last implies (#[trigger] after.items@[j]).0 != key by {
            if before.items@[j].0 == key {
                before.lemma_first_exists(key, j);
            }
        }
        assert(after.is_first(key, last));
        after.lemma_position(key, last);
        assert forall|other: [u8; N]| other != key implies #[trigger] after@.contains_key(other)
            == before@.contains_key(other) && (before@.contains_key(other) ==> after@[other]
            == before@[other]) by {
            if before@.contains_key(other) {
                let j = before.position(other)->0;
                assert(before.is_first(other, j));
                assert(after.is_first(other, j));
                before.lemma_position(other, j);
                after.lemma_position(other, j);
            }
            if after@.contains_key(other) {
                let j = after.position(other)->0;
                assert(after.is_first(other, j));
                assert forall|m: int| 0 <= m < j implies (#[trigger] before.items@[m]).0 != other by {
                    assert(after.items@[m].0 != other);
                }
                assert(before.is_first(other, j));
                before.lemma_position(other, j);
            }
        }
        assert(after@ =~= before@.insert(key, value@));
    }

    /// A key that stands somewhere stands first somewhere.
    proof fn lemma_first_exists(&self, key: [u8; N], i: int)
        requires
            0 <= i < self.items@.len(),
            self.items@[i].0 == key,
        ensures
            self@.contains_key(key),
        decreases i,
    {
        if forall|j: int| 0 <= j < i ==> (#[trigger] self.items@[j]).0 != key {
            assert(self.is_first(key, i));
            self.lemma_position(key, i);
        } else {
            let j = choose|j: int| 0 <= j < i && (#[trigger] self.items@[j]).0 == key;
            self.lemma_first_exists(key, j);
        }
    }

    /// Taking out a pair of `key` changes no other key.
    proof fn lemma_removed(before: Self, after: Self, i: int, other: [u8; N])
        requires
            0 <= i < before.items@.len(),
            before.items@[i].0 != other,
            after.items@ == before.items@.remove(i),
        ensures
            after@.contains_key(other) == before@.contains_key(other),
            before@.contains_key(other) ==> after@[other] == before@[other],
    {
        if before@.contains_key(other) {
            let j = before.position(other)->0;
            assert(before.is_first(other, j));
            let k = if j < i { j } else { j - 1 };
            assert forall|m: int| 0 <= m < k implies (#[trigger] after.items@[m]).0 != other by {
                let n = if m < i { m } else { m + 1 };
                assert(after.items@[m] == before.items@[n]);
            }
            assert(after.is_first(other, k));
            before.lemma_position(other, j);
            after.lemma_position(other, k);
        }
        if after@.contains_key(other) {
            let k = after.position(other)->0;
            assert(after.is_first(other, k));
            let j = if k < i { k } else { k + 1 };
            assert forall|n: int| 0 <= n < j implies (#[trigger] before.items@[n]).0 != other by {
                if n != i {
                    let m = if n < i { n } else { n - 1 };
                    assert(after.items@[m] == before.items@[n]);
                }
            }
            assert(before.is_first(other, j));
            before.lemma_position(other, j);
        }
    }

    /// Sets the value for `key`.
    pub fn insert(&mut self, key: [u8; N], value: V)
        ensures
            final(self)@ == old(self)@.insert(key, value@),
    {
        match self.find(&key) {
            Some(i) => {
                self.items[i].1 = value;
                proof {
                    ByteMap::lemma_replaced(*old(self), *self, key, i as int, value@);
                }
            },
            None => {
                self.items.push((key, value));
                proof {
                    ByteMap::lemma_pushed(*old(self), *self, key, value);
                }
            },
        }
    }

    /// Takes the value for `key` out.
    pub fn remove(&mut self, key: &[u8; N])
        ensures
            final(self)@ == old(self)@.remove(*key),
    {
        loop
            invariant
                forall|other: [u8; N]|
                    other != *key ==> #[trigger] self@.contains_key(other) == old(
                        self,
                    )@.contains_key(other) && (self@.contains_key(other) ==> self@[other] == old(
                        self,
                    )@[other]),
            ensures
                !self@.contains_key(*key),
            decreases self.items@.len(),
        {
            match self.find(key) {
                Some(i) => {
                    let ghost before = *self;
                    self.items.remove(i);
                    proof {
                        assert forall|other: [u8; N]| other != *key implies #[trigger]
                            self@.contains_key(other) == old(self)@.contains_key(other) && (
                        self@.contains_key(other) ==> self@[other] == old(self)@[other]) by {
                            assert(before@.contains_key(other) == old(self)@.contains_key(other));
                            ByteMap::lemma_removed(before, *self, i as int, other);
                        }
                    }
                },
                None => {
                    break;
                },
            }
        }
        assert(self@ =~= old(self)@.remove(*key));
    }

    /// Takes the value for `key` out and gives it.
    pub fn take(&mut self, key: &[u8; N]) -> (value: Option<V>)
        ensures
            final(self)@ == old(self)@.remove(*key),
            match value {
                Some(value) => old(self)@.contains_key(*key) && value@ == old(self)@[*key],
                None => !old(self)@.contains_key(*key),
            },
    {
        match self.find(key) {
            Some(i) => {
                let ghost before = *self;
                let item = self.items.remove(i);
                proof {
                    assert forall|other: [u8; N]| other != *key implies #[trigger] self@.contains_key(
                        other,
                    ) == before@.contains_key(other) && (self@.contains_key(other) ==> self@[other]
                        == before@[other]) by {
                        ByteMap::lemma_removed(before, *self, i as int, other);
                    }
                }
                self.remove(key);
                assert(self@ =~= before@.remove(*key));
                Some(item.1)
            },
            None => {
                assert(self@ =~= self@.remove(*key));
                None
            },
        }
    }

    /// The value for `key`, to be changed in place.
    pub fn get_mut(&mut self, key: &[u8; N]) -> (value: Option<&mut V>)
        ensures
            match value {
                Some(value) => old(self)@.contains_key(*key) && value@ == old(self)@[*key]
                    && final(self)@ == old(self)@.insert(*key, final(value)@),
                None => !old(self)@.contains_key(*key) && final(self)@ == old(self)@,
            },
    {
        match self.find(key) {
            Some(i) => {
                let ghost before = *self;
                let ghost after = *final(self);
                let value = &mut self.items[i].1;
                proof {
                    ByteMap::lemma_replaced(before, after, *key, i as int, final(value)@);
                }
                Some(value)
            },
            None => None,
        }
    }

    /// The keys, each once.
    pub fn keys(&self) -> (keys: Vec<[u8; N]>)
        ensures
            keys@.no_duplicates(),
            forall|key: [u8; N]| #[trigger] keys@.contains(key) <==> self@.contains_key(key),
    {
        let mut keys: Vec<[u8; N]> = Vec::new();
        let mut i: usize = 0;
        while i < self.items.len()
            invariant
                i <= self.items@.len(),
                keys@.no_duplicates(),
                forall|j: int| 0 <= j < i ==> keys@.contains(#[trigger] self.items@[j].0),
                forall|k: int|
                    0 <= k < keys@.len() ==> self@.contains_key(#[trigger] keys@[k]),
            decreases self.items@.len() - i,
        {
            let key: [u8; N] = self.items[i].0;
            if !contains_id(keys.as_slice(), &key) {
                let ghost before = keys@;
                assert(self@.contains_key(key)) by {
                    self.lemma_first_exists(key, i as int);
                }
                keys.push(key);
                assert(keys@[before.len() as int] == key);
                assert forall|j: int| 0 <= j < i implies keys@.contains(
                    #[trigger] self.items@[j].0,
                ) by {
                    let k = choose|k: int| 0 <= k < before.len() && before[k] == self.items@[j].0;
                    assert(keys@[k] == self.items@[j].0);
                }
            }
            i = i + 1;
        }
        assert forall|key: [u8; N]| self@.contains_key(key) implies #[trigger] keys@.contains(
            key,
        ) by {
            let k = choose|k: int| self.is_first(key, k);
            assert(keys@.contains(self.items@[k].0));
        }
        keys
    }
}

} // verus!
