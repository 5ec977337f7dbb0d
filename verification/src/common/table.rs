use vstd::prelude::*;
use vstd::string::StringExecFns;

verus! {

/// Where `key` stands among `keys`, if it does.
pub open spec fn key_index(keys: Seq<Seq<char>>, key: Seq<char>) -> Option<int> {
    if keys.contains(key) {
        Some(choose|i: int| 0 <= i < keys.len() && keys[i] == key)
    } else {
        None
    }
}

/// Among keys that do not repeat, a key stands at one place only.
pub proof fn lemma_key_index(keys: Seq<Seq<char>>, key: Seq<char>, at: int)
    requires
        keys.no_duplicates(),
        0 <= at < keys.len(),
        keys[at] == key,
    ensures
        key_index(keys, key) == Some(at),
{
    assert(keys.contains(key));
}

/// A table from string keys to values that remembers the order in which its
/// keys came. A key occurs at most once.
pub struct KeyedTable<V> {
    entries: Vec<(String, V)>,
}

impl<V> View for KeyedTable<V> {
    type V = Map<Seq<char>, V>;

    /// The table as a map from keys to values.
    open spec fn view(&self) -> Map<Seq<char>, V> {
        Map::new(
            |key: Seq<char>| self.keys().contains(key),
            |key: Seq<char>| self.values()[key_index(self.keys(), key)->0],
        )
    }
}

impl<V> KeyedTable<V> {
    /// The keys, in the order in which they came.
    pub closed spec fn keys(&self) -> Seq<Seq<char>> {
        Seq::new(self.entries@.len(), |i: int| self.entries@[i].0@)
    }

    /// The values, each at the place of its key.
    pub closed spec fn values(&self) -> Seq<V> {
        Seq::new(self.entries@.len(), |i: int| self.entries@[i].1)
    }

    /// No key occurs twice, and every key has its value.
    pub open spec fn well_formed(&self) -> bool {
        &&& self.keys().no_duplicates()
        &&& self.keys().len() == self.values().len()
    }

    /// An empty table.
    pub fn new() -> (table: Self)
        ensures
            table.well_formed(),
            table.keys() == Seq::<Seq<char>>::empty(),
            table.values() == Seq::<V>::empty(),
            table@ == Map::<Seq<char>, V>::empty(),
    {
        let table = KeyedTable { entries: Vec::new() };
        proof {
            assert(table.keys() =~= Seq::<Seq<char>>::empty());
            assert(table.values() =~= Seq::<V>::empty());
            assert(table@ =~= Map::<Seq<char>, V>::empty());
        }
        table
    }

    /// The number of keys.
    pub fn len(&self) -> (count: usize)
        ensures
            count == self.keys().len(),
            count == self.values().len(),
    {
        self.entries.len()
    }

    /// The key at a place.
    pub fn key_at(&self, at: usize) -> (key: &String)
        requires
            at < self.keys().len(),
        ensures
            key@ == self.keys()[at as int],
    {
        &self.entries[at].0
    }

    /// The value at a place.
    pub fn value_at(&self, at: usize) -> (value: &V)
        requires
            at < self.values().len(),
        ensures
            *value == self.values()[at as int],
    {
        &self.entries[at].1
    }

    /// Finds the place of a key.
    pub fn find(&self, key: &str) -> (place: Option<usize>)
        requires
            self.well_formed(),
        ensures
            place is Some <==> self.keys().contains(key@),
            place is Some ==> key_index(self.keys(), key@) == Some(place->0 as int),
            place is Some ==> place->0 < self.keys().len() && self.keys()[place->0 as int] == key@,
    {
        let wanted = String::from_str(key);
        let mut next: usize = 0;
        while next < self.entries.len()
            invariant
                next <= self.entries.len(),
                wanted@ == key@,
                self.well_formed(),
                forall|i: int| 0 <= i < next ==> self.keys()[i] != key@,
            decreases self.entries.len() - next,
        {
            if self.entries[next].0 == wanted {
                proof {
                    lemma_key_index(self.keys(), key@, next as int);
                }
                return Some(next);
            }
            next = next + 1;
        }
        None
    }

    /// Tells whether the table has a key.
    pub fn contains_key(&self, key: &str) -> (found: bool)
        requires
            self.well_formed(),
        ensures
            found == self@.contains_key(key@),
    {
        self.find(key).is_some()
    }

    /// The value of a key, if the table has it.
    pub fn get(&self, key: &str) -> (value: Option<&V>)
        requires
            self.well_formed(),
        ensures
            value is Some <==> self@.contains_key(key@),
            value is Some ==> *value->0 == self@[key@],
    {
        match self.find(key) {
            Some(at) => Some(&self.entries[at].1),
            None => None,
        }
    }

    /// Puts a value under a key. A key that the table has keeps its place and
    /// gets the new value; a new key goes to the end. Returns the value that
    /// the key had before.
    pub fn insert(&mut self, key: String, value: V) -> (prior: Option<V>)
        requires
            old(self).well_formed(),
        ensures
            final(self).well_formed(),
            final(self)@ == old(self)@.insert(key@, value),
            prior is Some <==> old(self)@.contains_key(key@),
            prior is Some ==> prior->0 == old(self)@[key@],
            match key_index(old(self).keys(), key@) {
                Some(at) => {
                    &&& final(self).keys() == old(self).keys()
                    &&& final(self).values() == old(self).values().update(at, value)
                },
                None => {
                    &&& final(self).keys() == old(self).keys().push(key@)
                    &&& final(self).values() == old(self).values().push(value)
                },
            },
    {
        let ghost before = *self;
        match self.find(key.as_str()) {
            Some(at) => {
                let held = self.entries.remove(at);
                self.entries.insert(at, (key, value));
                proof {
                    assert(self.keys() =~= before.keys());
                    assert(self.values() =~= before.values().update(at as int, value));
                    assert(self@ =~= before@.insert(key@, value)) by {
                        assert forall|k: Seq<char>| #[trigger]
                            before@.insert(key@, value).contains_key(k) implies self@[k]
                            == before@.insert(key@, value)[k] by {
                            let i = key_index(before.keys(), k)->0;
                            if k == key@ {
                                lemma_key_index(before.keys(), k, at as int);
                            }
                        }
                    }
                }
                Some(held.1)
            },
            None => {
                proof {
                    assert(!before.keys().contains(key@));
                }
                self.entries.push((key, value));
                proof {
                    assert(self.keys() =~= before.keys().push(key@));
                    assert(self.values() =~= before.values().push(value));
                    let added = before.keys().len() as int;
                    assert(self.keys().no_duplicates()) by {
                        assert forall|i: int, j: int|
                            0 <= i < self.keys().len() && 0 <= j < self.keys().len() && i
                                != j implies self.keys()[i] != self.keys()[j] by {
                            if i == added {
                                assert(before.keys()[j] == self.keys()[j]);
                            } else if j == added {
                                assert(before.keys()[i] == self.keys()[i]);
                            }
                        }
                    }
                    assert(self@ =~= before@.insert(key@, value)) by {
                        assert forall|k: Seq<char>|
                            self.keys().contains(k) <==> (before.keys().contains(k) || k
                                == key@) by {
                            if self.keys().contains(k) {
                                let i = choose|i: int|
                                    0 <= i < self.keys().len() && self.keys()[i] == k;
                                if i < added {
                                    assert(before.keys()[i] == k);
                                }
                            }
                            if before.keys().contains(k) {
                                let i = choose|i: int|
                                    0 <= i < before.keys().len() && before.keys()[i] == k;
                                assert(self.keys()[i] == k);
                            }
                            if k == key@ {
                                assert(self.keys()[added] == k);
                            }
                        }
                        assert forall|k: Seq<char>| #[trigger]
                            before@.insert(key@, value).contains_key(k) implies self@[k]
                            == before@.insert(key@, value)[k] by {
                            if k == key@ {
                                lemma_key_index(self.keys(), k, added);
                            } else {
                                let i = key_index(before.keys(), k)->0;
                                assert(self.keys()[i] == k);
                                lemma_key_index(self.keys(), k, i);
                            }
                        }
                    }
                }
                None
            },
        }
    }

    /// Takes a key and its value out; the other keys keep their order.
    /// Returns the value that the key had.
    pub fn remove(&mut self, key: &str) -> (prior: Option<V>)
        requires
            old(self).well_formed(),
        ensures
            final(self).well_formed(),
            final(self)@ == old(self)@.remove(key@),
            prior is Some <==> old(self)@.contains_key(key@),
            prior is Some ==> prior->0 == old(self)@[key@],
            match key_index(old(self).keys(), key@) {
                Some(at) => {
                    &&& final(self).keys() == old(self).keys().remove(at)
                    &&& final(self).values() == old(self).values().remove(at)
                },
                None => {
                    &&& final(self).keys() == old(self).keys()
                    &&& final(self).values() == old(self).values()
                },
            },
    {
        let ghost before = *self;
        match self.find(key) {
            Some(at) => {
                let held = self.entries.remove(at);
                proof {
                    let gone = at as int;
                    assert(self.keys() =~= before.keys().remove(gone));
                    assert(self.values() =~= before.values().remove(gone));
                    assert(self.keys().no_duplicates()) by {
                        assert forall|i: int, j: int|
                            0 <= i < self.keys().len() && 0 <= j < self.keys().len() && i
                                != j implies self.keys()[i] != self.keys()[j] by {
                            let a = if i < gone { i } else { i + 1 };
                            let b = if j < gone { j } else { j + 1 };
                            assert(self.keys()[i] == before.keys()[a]);
                            assert(self.keys()[j] == before.keys()[b]);
                        }
                    }
                    assert forall|k: Seq<char>|
                        self.keys().contains(k) <==> (before.keys().contains(k) && k != key@) by {
                        if self.keys().contains(k) {
                            let i = choose|i: int|
                                0 <= i < self.keys().len() && self.keys()[i] == k;
                            let a = if i < gone { i } else { i + 1 };
                            assert(before.keys()[a] == k);
                        }
                        if before.keys().contains(k) && k != key@ {
                            let i = choose|i: int|
                                0 <= i < before.keys().len() && before.keys()[i] == k;
                            let a = if i < gone { i } else { i - 1 };
                            assert(self.keys()[a] == k);
                        }
                    }
                    assert(self@ =~= before@.remove(key@)) by {
                        assert forall|k: Seq<char>| #[trigger]
                            before@.remove(key@).contains_key(k) implies self@[k]
                            == before@.remove(key@)[k] by {
                            let i = key_index(before.keys(), k)->0;
                            let a = if i < gone { i } else { i - 1 };
                            assert(self.keys()[a] == k);
                            lemma_key_index(self.keys(), k, a);
                        }
                    }
                }
                Some(held.1)
            },
            None => {
                proof {
                    assert(self@ =~= before@.remove(key@));
                }
                None
            },
        }
    }
}

} // verus!
