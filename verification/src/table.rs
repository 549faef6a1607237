//! A table from strings to values that lists its keys in the order in which they were added.

use vstd::prelude::*;

verus! {

/// A table from strings to values. No key occurs twice, and a key that is added again keeps its
/// place.
#[derive(Debug, Clone)]
pub struct Table<V> {
    entries: Vec<(String, V)>,
}

/// The keys after `key` was written: a known key keeps its place, a new one comes last.
pub open spec fn keys_with(keys: Seq<Seq<char>>, key: Seq<char>) -> Seq<Seq<char>> {
    if keys.contains(key) {
        keys
    } else {
        keys.push(key)
    }
}

/// The keys after `key` was removed: the others, in their order.
pub open spec fn keys_without(keys: Seq<Seq<char>>, key: Seq<char>) -> Seq<Seq<char>> {
    if keys.contains(key) {
        keys.remove(keys.index_of(key))
    } else {
        keys
    }
}

/// A key that is written keeps its place where it is known, and comes last where it is new.
pub proof fn written_keys_keep_their_place(keys: Seq<Seq<char>>, key: Seq<char>)
    ensures
        keys.contains(key) ==> keys_with(keys, key) == keys,
        !keys.contains(key) ==> keys_with(keys, key) == keys + seq![key],
{
    assert(keys.push(key) =~= keys + seq![key]);
}

/// A key that is removed is the only one to go; the others stay in their order.
pub proof fn removed_keys_leave_the_others(
    before: Seq<Seq<char>>,
    key: Seq<char>,
    after: Seq<Seq<char>>,
)
    requires
        !before.contains(key),
        !after.contains(key),
    ensures
        keys_without(before + after, key) == before + after,
        keys_without(before + seq![key] + after, key) == before + after,
{
    let keys = before + seq![key] + after;
    let n = before.len() as int;
    assert(keys[n] == key);
    assert(keys.contains(key));
    let k = keys.index_of(key);
    assert(0 <= k < keys.len() && keys[k] == key);
    assert(k == n) by {
        if k < n {
            assert(before[k] == key);
        } else if k > n {
            assert(after[k - n - 1] == key);
        }
    }
    assert(keys.remove(n) =~= before + after);
    if (before + after).contains(key) {
        let j = choose|j: int| 0 <= j < (before + after).len() && (before + after)[j] == key;
        if j < n {
            assert(before[j] == key);
        } else {
            assert(after[j - n] == key);
        }
    }
}

impl<V> Table<V> {
    /// The keys, in the order in which they were added.
    pub closed spec fn keys(&self) -> Seq<Seq<char>> {
        self.entries@.map_values(|e: (String, V)| e.0@)
    }

    closed spec fn place(&self, key: Seq<char>) -> int {
        choose|i: int| 0 <= i < self.keys().len() && self.keys()[i] == key
    }

    /// The table as a map.
    pub closed spec fn map(&self) -> Map<Seq<char>, V> {
        Map::new(
            |key: Seq<char>| self.keys().contains(key),
            |key: Seq<char>| self.entries@[self.place(key)].1,
        )
    }

    /// No key occurs twice, and the keys are those of the map.
    pub closed spec fn wf(&self) -> bool {
        self.keys().no_duplicates()
    }

    /// What the two descriptions of a table have to do with each other.
    pub proof fn lemma_keys(&self)
        requires
            self.wf(),
        ensures
            self.keys().no_duplicates(),
            forall|key: Seq<char>| #[trigger]
                self.map().contains_key(key) <==> self.keys().contains(key),
    {
    }

    proof fn lemma_place(&self, i: int)
        requires
            self.wf(),
            0 <= i < self.entries@.len(),
        ensures
            self.keys()[i] == self.entries@[i].0@,
            self.keys().contains(self.keys()[i]),
            self.place(self.keys()[i]) == i,
            self.map().contains_key(self.keys()[i]),
            self.map()[self.keys()[i]] == self.entries@[i].1,
    {
        let key = self.keys()[i];
        assert(0 <= i < self.keys().len() && self.keys()[i] == key);
        let p = self.place(key);
        assert(0 <= p < self.keys().len() && self.keys()[p] == key);
        assert(p == i);
    }

    /// An empty table.
    pub fn new() -> (r: Self)
        ensures
            r.wf(),
            r.keys() == Seq::<Seq<char>>::empty(),
            r.map() == Map::<Seq<char>, V>::empty(),
    {
        let r: Table<V> = Table { entries: Vec::new() };
        assert(r.keys() =~= Seq::<Seq<char>>::empty());
        assert(r.map() =~= Map::<Seq<char>, V>::empty());
        r
    }

    /// The number of keys.
    pub fn len(&self) -> (r: usize)
        ensures
            r == self.keys().len(),
    {
        self.entries.len()
    }

    fn find(&self, key: &str) -> (r: Option<usize>)
        requires
            self.wf(),
        ensures
            match r {
                Some(i) => i < self.entries@.len() && self.keys()[i as int] == key@,
                None => !self.keys().contains(key@),
            },
    {
        let wanted: String = key.to_string();
        let mut i: usize = 0;
        while i < self.entries.len()
            invariant
                i <= self.entries@.len(),
                wanted@ == key@,
                forall|j: int| 0 <= j < i ==> self.keys()[j] != key@,
            decreases self.entries@.len() - i,
        {
            if self.entries[i].0 == wanted {
                return Some(i);
            }
            i = i + 1;
        }
        None
    }

    /// The `i`-th key and its value.
    pub fn at(&self, i: usize) -> (r: (&String, &V))
        requires
            self.wf(),
            i < self.keys().len(),
        ensures
            r.0@ == self.keys()[i as int],
            self.map().contains_key(r.0@),
            *r.1 == self.map()[r.0@],
    {
        proof {
            self.lemma_place(i as int);
        }
        (&self.entries[i].0, &self.entries[i].1)
    }

    /// Whether the table has `key`.
    pub fn contains(&self, key: &str) -> (r: bool)
        requires
            self.wf(),
        ensures
            r == self.map().contains_key(key@),
    {
        match self.find(key) {
            Some(i) => {
                proof {
                    self.lemma_place(i as int);
                }
                true
            },
            None => false,
        }
    }

    /// The value of `key`.
    pub fn get(&self, key: &str) -> (r: Option<&V>)
        requires
            self.wf(),
        ensures
            match r {
                Some(v) => self.map().contains_key(key@) && *v == self.map()[key@],
                None => !self.map().contains_key(key@),
            },
    {
        match self.find(key) {
            Some(i) => {
                proof {
                    self.lemma_place(i as int);
                }
                Some(&self.entries[i].1)
            },
            None => None,
        }
    }

    proof fn lemma_update(before: Self, after: Self, i: int, value: V)
        requires
            before.wf(),
            0 <= i < before.entries@.len(),
            after.entries@ == before.entries@.update(i, (before.entries@[i].0, value)),
        ensures
            after.wf(),
            after.keys() == before.keys(),
            after.map() == before.map().insert(before.keys()[i], value),
    {
        assert(after.keys() =~= before.keys());
        assert forall|key: Seq<char>| before.keys().contains(key) implies #[trigger] after.map()[key]
            == before.map().insert(before.keys()[i], value)[key] by {
            let p = choose|p: int| 0 <= p < before.keys().len() && before.keys()[p] == key;
            before.lemma_place(p);
            after.lemma_place(p);
        }
        before.lemma_place(i);
        assert(after.map() =~= before.map().insert(before.keys()[i], value));
    }

    /// The value of `key`, to be changed in place.
    pub fn get_mut(&mut self, key: &str) -> (r: Option<&mut V>)
        requires
            old(self).wf(),
        ensures
            final(self).wf(),
            final(self).keys() == old(self).keys(),
            match r {
                Some(v) => old(self).map().contains_key(key@) && *v == old(self).map()[key@]
                    && final(self).map() == old(self).map().insert(key@, *final(v)),
                None => !old(self).map().contains_key(key@) && *final(self) == *old(self),
            },
    {
        match self.find(key) {
            Some(i) => {
                proof {
                    self.lemma_place(i as int);
                }
                let ghost before = *self;
                let ghost after = *final(self);
                let v = &mut self.entries[i].1;
                proof {
                    Self::lemma_update(before, after, i as int, *final(v));
                }
                Some(v)
            },
            None => None,
        }
    }

    /// Gives `key` the value `value`.
    pub fn insert(&mut self, key: &str, value: V)
        requires
            old(self).wf(),
        ensures
            final(self).wf(),
            final(self).keys() == keys_with(old(self).keys(), key@),
            final(self).map() == old(self).map().insert(key@, value),
    {
        let ghost before = *self;
        match self.find(key) {
            Some(i) => {
                proof {
                    self.lemma_place(i as int);
                }
                self.entries[i].1 = value;
                proof {
                    Self::lemma_update(before, *self, i as int, value);
                }
            },
            None => {
                self.entries.push((key.to_string(), value));
                proof {
                    let n = before.entries@.len() as int;
                    assert(self.keys() =~= before.keys().push(key@));
                    assert forall|a: int, b: int|
                        0 <= a < n + 1 && 0 <= b < n + 1 && a != b implies self.keys()[a]
                        != self.keys()[b] by {
                        if a == n {
                            assert(before.keys().contains(before.keys()[b]));
                        } else if b == n {
                            assert(before.keys().contains(before.keys()[a]));
                        } else {
                            assert(before.keys()[a] != before.keys()[b]);
                        }
                    }
                    assert(self.wf());
                    self.lemma_place(n);
                    assert(self.keys()[n] == key@);
                    assert forall|k: Seq<char>| before.keys().contains(k) implies #[trigger]
                        self.map()[k] == before.map()[k] && self.keys().contains(k) by {
                        let p = choose|p: int| 0 <= p < before.keys().len() && before.keys()[p] == k;
                        before.lemma_place(p);
                        self.lemma_place(p);
                    }
                    assert forall|k: Seq<char>| self.keys().contains(k) implies k == key@
                        || before.keys().contains(k) by {
                        let p = choose|p: int| 0 <= p < self.keys().len() && self.keys()[p] == k;
                        if p < n {
                            assert(before.keys()[p] == k);
                        }
                    }
                    let goal = before.map().insert(key@, value);
                    assert forall|k: Seq<char>| #[trigger] self.map().contains_key(k)
                        == goal.contains_key(k) by {
                        if before.keys().contains(k) {
                            assert(self.map()[k] == before.map()[k]);
                        }
                    }
                    assert forall|k: Seq<char>| #[trigger] self.map().contains_key(k) implies
                        self.map()[k] == goal[k] by {
                        if k != key@ {
                            assert(before.keys().contains(k));
                        }
                    }
                    assert(self.map() =~= goal);
                }
            },
        }
    }

    /// Removes `key` and tells whether the table had it.
    pub fn remove(&mut self, key: &str) -> (r: bool)
        requires
            old(self).wf(),
        ensures
            final(self).wf(),
            r == old(self).map().contains_key(key@),
            final(self).keys() == keys_without(old(self).keys(), key@),
            final(self).map() == old(self).map().remove(key@),
    {
        let ghost before = *self;
        match self.find(key) {
            Some(i) => {
                proof {
                    self.lemma_place(i as int);
                    assert(before.keys().index_of(key@) == i);
                }
                self.entries.remove(i);
                proof {
                    let n = before.entries@.len() as int;
                    assert(self.keys() =~= before.keys().remove(i as int));
                    assert(self.wf());
                    assert forall|k: Seq<char>| #[trigger] self.map().contains_key(k)
                        == before.map().remove(key@).contains_key(k) by {
                        if self.keys().contains(k) {
                            let p = choose|p: int| 0 <= p < self.keys().len() && self.keys()[p] == k;
                            let q = if p < i { p } else { p + 1 };
                            assert(before.keys()[q] == k);
                        }
                        if before.keys().contains(k) && k != key@ {
                            let q = choose|q: int|
                                0 <= q < before.keys().len() && before.keys()[q] == k;
                            let p = if q < i { q } else { q - 1 };
                            assert(self.keys()[p] == k);
                        }
                    }
                    assert forall|k: Seq<char>| #[trigger] self.map().contains_key(k) implies
                        self.map()[k] == before.map()[k] by {
                        let p = choose|p: int| 0 <= p < self.keys().len() && self.keys()[p] == k;
                        let q = if p < i { p } else { p + 1 };
                        assert(before.keys()[q] == k);
                        self.lemma_place(p);
                        before.lemma_place(q);
                    }
                    assert(self.map() =~= before.map().remove(key@));
                }
                true
            },
            None => {
                proof {
                    assert(self.map() =~= before.map().remove(key@));
                }
                false
            },
        }
    }
}

} // verus!
