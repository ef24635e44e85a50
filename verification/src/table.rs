//! A finite map stored as a vector of entries with pairwise distinct keys.
use vstd::prelude::*;

verus! {

/// Keys of a [`Table`]: copyable values whose executable equality agrees with
/// mathematical equality.
pub trait TableKey: Copy + Sized {
    fn key_eq(&self, other: &Self) -> (r: bool)
        ensures
            r == (*self == *other),
    ;
}

impl TableKey for u64 {
    fn key_eq(&self, other: &Self) -> (r: bool) {
        *self == *other
    }
}

/// A finite map from keys to values. Its view is the map it holds.
#[verifier::reject_recursive_types(K)]
pub struct Table<K, V> {
    entries: Vec<(K, V)>,
    contents: Ghost<Map<K, V>>,
}

impl<K, V> View for Table<K, V> {
    type V = Map<K, V>;

    closed spec fn view(&self) -> Map<K, V> {
        self.contents@
    }
}

impl<K: TableKey, V> Table<K, V> {
    /// The entries hold exactly the pairs of the map, each key once.
    pub closed spec fn wf(&self) -> bool {
        &&& forall|i: int|
            0 <= i < self.entries@.len() ==> {
                &&& self.contents@.contains_key(#[trigger] self.entries@[i].0)
                &&& self.contents@[self.entries@[i].0] == self.entries@[i].1
            }
        &&& forall|i: int, j: int|
            0 <= i < j < self.entries@.len() ==> #[trigger] self.entries@[i].0
                != #[trigger] self.entries@[j].0
        &&& forall|k: K| #[trigger]
            self.contents@.contains_key(k) ==> exists|i: int|
                0 <= i < self.entries@.len() && #[trigger] self.entries@[i].0 == k
    }

    pub fn new() -> (r: Self)
        ensures
            r.wf(),
            r@ == Map::<K, V>::empty(),
    {
        Table { entries: Vec::new(), contents: Ghost(Map::empty()) }
    }

    fn find(&self, k: &K) -> (r: Option<usize>)
        requires
            self.wf(),
        ensures
            match r {
                Some(i) => i < self.entries@.len() && self.entries@[i as int].0 == *k,
                None => !self@.contains_key(*k),
            },
    {
        let mut i: usize = 0;
        while i < self.entries.len()
            invariant
                self.wf(),
                i <= self.entries@.len(),
                forall|j: int| 0 <= j < i ==> self.entries@[j].0 != *k,
            decreases self.entries@.len() - i,
        {
            if self.entries[i].0.key_eq(k) {
                return Some(i);
            }
            i = i + 1;
        }
        None
    }

    /// The value stored under `k`, if any.
    pub fn get(&self, k: &K) -> (r: Option<&V>)
        requires
            self.wf(),
        ensures
            r is Some <==> self@.contains_key(*k),
            r matches Some(v) ==> *v == self@[*k],
    {
        match self.find(k) {
            Some(i) => Some(&self.entries[i].1),
            None => None,
        }
    }

    pub fn contains_key(&self, k: &K) -> (r: bool)
        requires
            self.wf(),
        ensures
            r == self@.contains_key(*k),
    {
        self.find(k).is_some()
    }

    /// Stores `v` under `k`, replacing any earlier value.
    pub fn insert(&mut self, k: K, v: V)
        requires
            old(self).wf(),
        ensures
            final(self).wf(),
            final(self)@ == old(self)@.insert(k, v),
    {
        let ghost old_entries = self.entries@;
        let found = self.find(&k);
        self.contents = Ghost(self.contents@.insert(k, v));
        match found {
            Some(i) => {
                self.entries.set(i, (k, v));
                assert forall|a: int, b: int|
                    0 <= a < b < self.entries@.len() implies #[trigger] self.entries@[a].0
                    != #[trigger] self.entries@[b].0 by {
                    if a != i && b != i {
                        assert(old_entries[a].0 != old_entries[b].0);
                    } else if a == i {
                        assert(old_entries[a].0 != old_entries[b].0);
                    } else {
                        assert(old_entries[a].0 != old_entries[b].0);
                    }
                }
                assert forall|key: K| #[trigger]
                    self.contents@.contains_key(key) implies exists|j: int|
                        0 <= j < self.entries@.len() && #[trigger] self.entries@[j].0 == key by {
                    if key == k {
                        assert(self.entries@[i as int].0 == key);
                    } else {
                        assert(old(self).contents@.contains_key(key));
                        let j = choose|j: int| 0 <= j < old_entries.len() && old_entries[j].0 == key;
                        assert(self.entries@[j].0 == key);
                    }
                }
            },
            None => {
                self.entries.push((k, v));
                assert forall|a: int, b: int|
                    0 <= a < b < self.entries@.len() implies #[trigger] self.entries@[a].0
                    != #[trigger] self.entries@[b].0 by {
                    if b < old_entries.len() {
                        assert(old_entries[a].0 != old_entries[b].0);
                    } else {
                        assert(old(self).contents@.contains_key(old_entries[a].0));
                    }
                }
                assert forall|key: K| #[trigger]
                    self.contents@.contains_key(key) implies exists|j: int|
                        0 <= j < self.entries@.len() && #[trigger] self.entries@[j].0 == key by {
                    if key == k {
                        assert(self.entries@[old_entries.len() as int].0 == key);
                    } else {
                        assert(old(self).contents@.contains_key(key));
                        let j = choose|j: int| 0 <= j < old_entries.len() && old_entries[j].0 == key;
                        assert(self.entries@[j].0 == key);
                    }
                }
            },
        }
    }

    /// Removes the entry of `k` and hands its value back, if there was one.
    pub fn remove(&mut self, k: &K) -> (r: Option<V>)
        requires
            old(self).wf(),
        ensures
            final(self).wf(),
            final(self)@ == old(self)@.remove(*k),
            r is Some <==> old(self)@.contains_key(*k),
            r matches Some(v) ==> v == old(self)@[*k],
    {
        let ghost old_entries = self.entries@;
        match self.find(k) {
            Some(i) => {
                let (_, v) = self.entries.remove(i);
                self.contents = Ghost(self.contents@.remove(*k));
                assert forall|a: int|
                    0 <= a < self.entries@.len() implies {
                    &&& self.contents@.contains_key(#[trigger] self.entries@[a].0)
                    &&& self.contents@[self.entries@[a].0] == self.entries@[a].1
                } by {
                    if a < i {
                        assert(self.entries@[a] == old_entries[a]);
                        assert(old_entries[a].0 != old_entries[i as int].0);
                    } else {
                        assert(self.entries@[a] == old_entries[a + 1]);
                        assert(old_entries[i as int].0 != old_entries[a + 1].0);
                    }
                }
                assert forall|a: int, b: int|
                    0 <= a < b < self.entries@.len() implies #[trigger] self.entries@[a].0
                    != #[trigger] self.entries@[b].0 by {
                    let oa = if a < i { a } else { a + 1 };
                    let ob = if b < i { b } else { b + 1 };
                    assert(self.entries@[a] == old_entries[oa]);
                    assert(self.entries@[b] == old_entries[ob]);
                    assert(old_entries[oa].0 != old_entries[ob].0);
                }
                assert forall|key: K| #[trigger]
                    self.contents@.contains_key(key) implies exists|j: int|
                        0 <= j < self.entries@.len() && #[trigger] self.entries@[j].0 == key by {
                    assert(old(self).contents@.contains_key(key));
                    let j = choose|j: int| 0 <= j < old_entries.len() && old_entries[j].0 == key;
                    assert(j != i);
                    if j < i {
                        assert(self.entries@[j].0 == key);
                    } else {
                        assert(self.entries@[j - 1].0 == key);
                    }
                }
                Some(v)
            },
            None => {
                assert(self@ =~= old(self)@.remove(*k));
                None
            },
        }
    }
}

} // verus!
