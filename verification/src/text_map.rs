//! A map from text keys to values.

use vstd::prelude::*;

use crate::config::text::str_eq;

verus! {

/// A map from text keys to values, kept as a list of entries with distinct
/// keys.
pub struct TextMap<V> {
    entries: Vec<(String, V)>,
}

/// Whether no two entries have the same key.
pub open spec fn keys_distinct<V>(entries: Seq<(String, V)>) -> bool {
    forall|i: int, j: int|
        0 <= i < entries.len() && 0 <= j < entries.len() && i != j ==> (#[trigger] entries[i]).0@
            != (#[trigger] entries[j]).0@
}

/// Whether an entry has the given key.
pub open spec fn key_present<V>(entries: Seq<(String, V)>, key: Seq<char>) -> bool {
    exists|i: int| 0 <= i < entries.len() && (#[trigger] entries[i]).0@ == key
}

/// The index of the entry that has the given key.
pub open spec fn key_index<V>(entries: Seq<(String, V)>, key: Seq<char>) -> int {
    choose|i: int| 0 <= i < entries.len() && (#[trigger] entries[i]).0@ == key
}

/// The map that a list of entries stands for.
pub open spec fn map_of<V>(entries: Seq<(String, V)>) -> Map<Seq<char>, V> {
    Map::new(
        |key: Seq<char>| key_present(entries, key),
        |key: Seq<char>| entries[key_index(entries, key)].1,
    )
}

/// A list of entries with distinct keys stands for a map with as many keys
/// as there are entries.
pub proof fn lemma_map_len<V>(entries: Seq<(String, V)>)
    requires
        keys_distinct(entries),
    ensures
        map_of(entries).dom().finite(),
        map_of(entries).dom().len() == entries.len(),
    decreases entries.len(),
{
    if entries.len() == 0 {
        assert(map_of(entries).dom() =~= Set::<Seq<char>>::empty());
    } else {
        let front = entries.drop_last();
        let key = entries.last().0@;
        assert(keys_distinct(front)) by {
            assert forall|i: int, j: int|
                0 <= i < front.len() && 0 <= j < front.len() && i != j implies (
            #[trigger] front[i]).0@ != (#[trigger] front[j]).0@ by {
                assert(front[i] == entries[i] && front[j] == entries[j]);
            }
        }
        lemma_map_len(front);
        assert(!key_present(front, key)) by {
            if key_present(front, key) {
                let i = key_index(front, key);
                assert(front[i] == entries[i]);
                assert(entries[i].0@ == entries[entries.len() - 1].0@);
            }
        }
        assert(map_of(entries).dom() =~= map_of(front).dom().insert(key)) by {
            assert forall|k: Seq<char>| key_present(entries, k) implies k == key || key_present(
                front,
                k,
            ) by {
                let i = key_index(entries, k);
                if i < front.len() {
                    assert(front[i] == entries[i]);
                }
            }
            assert forall|k: Seq<char>| key_present(front, k) implies key_present(entries, k) by {
                let i = key_index(front, k);
                assert(front[i] == entries[i]);
            }
            assert(key_present(entries, key)) by {
                assert(entries[entries.len() - 1].0@ == key);
            }
        }
    }
}

impl<V> View for TextMap<V> {
    type V = Map<Seq<char>, V>;

    /// The map from keys to values.
    closed spec fn view(&self) -> Map<Seq<char>, V> {
        map_of(self.entries@)
    }
}

impl<V> TextMap<V> {
    #[verifier::type_invariant]
    spec fn distinct(self) -> bool {
        keys_distinct(self.entries@)
    }

    /// The values in the order in which their keys were first inserted.
    pub closed spec fn values(&self) -> Seq<V> {
        self.entries@.map_values(|e: (String, V)| e.1)
    }

    /// The empty map.
    pub fn new() -> (m: Self)
        ensures
            m@ == Map::<Seq<char>, V>::empty(),
    {
        let m = TextMap { entries: Vec::new() };
        assert(m@ =~= Map::<Seq<char>, V>::empty());
        m
    }

    /// The index of the entry with the given key.
    fn find(&self, key: &str) -> (r: Option<usize>)
        ensures
            match r {
                Some(i) => i < self.entries@.len() && self.entries@[i as int].0@ == key@
                    && self@.contains_key(key@) && self@[key@] == self.entries@[i as int].1,
                None => !self@.contains_key(key@) && !key_present(self.entries@, key@),
            },
    {
        proof {
            use_type_invariant(self);
        }
        let mut i: usize = 0;
        while i < self.entries.len()
            invariant
                i <= self.entries@.len(),
                keys_distinct(self.entries@),
                forall|j: int| 0 <= j < i ==> (#[trigger] self.entries@[j]).0@ != key@,
            decreases self.entries@.len() - i,
        {
            if str_eq(self.entries[i].0.as_str(), key) {
                proof {
                    let e = self.entries@;
                    assert(key_present(e, key@));
                    let k = key_index(e, key@);
                    assert(k == i);
                }
                return Some(i);
            }
            i = i + 1;
        }
        None
    }

    /// The value stored under a key.
    pub fn get(&self, key: &str) -> (r: Option<&V>)
        ensures
            match r {
                Some(value) => self@.contains_key(key@) && *value == self@[key@],
                None => !self@.contains_key(key@),
            },
    {
        match self.find(key) {
            Some(i) => Some(&self.entries[i].1),
            None => None,
        }
    }

    /// Whether a value is stored under a key.
    pub fn contains_key(&self, key: &str) -> (b: bool)
        ensures
            b == self@.contains_key(key@),
    {
        self.find(key).is_some()
    }

    /// Stores a value under a key, replacing what was stored there.
    pub fn insert(&mut self, key: &str, value: V)
        ensures
            final(self)@ == old(self)@.insert(key@, value),
    {
        proof {
            use_type_invariant(&*self);
        }
        let found = self.find(key);
        let mut entries: Vec<(String, V)> = Vec::new();
        core::mem::swap(&mut self.entries, &mut entries);
        let ghost before = entries@;
        match found {
            Some(i) => {
                entries[i] = (key.to_string(), value);
                proof {
                    let after = entries@;
                    assert(keys_distinct(after)) by {
                        assert forall|a: int, b: int|
                            0 <= a < after.len() && 0 <= b < after.len() && a != b implies (
                        #[trigger] after[a]).0@ != (#[trigger] after[b]).0@ by {
                            assert(after[a].0@ == before[a].0@);
                            assert(after[b].0@ == before[b].0@);
                        }
                    }
                    assert(map_of(after) =~= map_of(before).insert(key@, value)) by {
                        assert forall|k: Seq<char>| key_present(after, k) <==> key_present(before, k)
                            || k == key@ by {
                            if key_present(after, k) {
                                let a = key_index(after, k);
                                assert(before[a].0@ == after[a].0@);
                            }
                            if key_present(before, k) {
                                let a = key_index(before, k);
                                assert(before[a].0@ == after[a].0@);
                            }
                            if k == key@ {
                                assert(after[i as int].0@ == k);
                            }
                        }
                        assert forall|k: Seq<char>| key_present(after, k) implies map_of(after)[k]
                            == map_of(before).insert(key@, value)[k] by {
                            let a = key_index(after, k);
                            if k == key@ {
                                assert(after[i as int].0@ == k);
                                assert(a == i);
                            } else {
                                assert(before[a].0@ == after[a].0@);
                                let b = key_index(before, k);
                                assert(a == b);
                            }
                        }
                    }
                }
            },
            None => {
                entries.push((key.to_string(), value));
                proof {
                    let after = entries@;
                    let last = after.len() - 1;
                    assert(keys_distinct(after)) by {
                        assert forall|a: int, b: int|
                            0 <= a < after.len() && 0 <= b < after.len() && a != b implies (
                        #[trigger] after[a]).0@ != (#[trigger] after[b]).0@ by {
                            if a < last {
                                assert(after[a] == before[a]);
                            }
                            if b < last {
                                assert(after[b] == before[b]);
                            }
                        }
                    }
                    assert(map_of(after) =~= map_of(before).insert(key@, value)) by {
                        assert forall|k: Seq<char>| key_present(after, k) <==> key_present(before, k)
                            || k == key@ by {
                            if key_present(after, k) {
                                let a = key_index(after, k);
                                if a < last {
                                    assert(after[a] == before[a]);
                                }
                            }
                            if key_present(before, k) {
                                let a = key_index(before, k);
                                assert(after[a] == before[a]);
                            }
                            if k == key@ {
                                assert(after[last].0@ == k);
                            }
                        }
                        assert forall|k: Seq<char>| key_present(after, k) implies map_of(after)[k]
                            == map_of(before).insert(key@, value)[k] by {
                            let a = key_index(after, k);
                            if k == key@ {
                                assert(after[last].0@ == k);
                                assert(a == last);
                            } else {
                                assert(after[a] == before[a]);
                                let b = key_index(before, k);
                                assert(after[b] == before[b]);
                                assert(a == b);
                            }
                        }
                    }
                }
            },
        }
        self.entries = entries;
    }

    /// Removes a key and returns the value that was stored under it.
    pub fn remove(&mut self, key: &str) -> (r: Option<V>)
        ensures
            final(self)@ == old(self)@.remove(key@),
            match r {
                Some(value) => old(self)@.contains_key(key@) && value == old(self)@[key@],
                None => !old(self)@.contains_key(key@),
            },
    {
        proof {
            use_type_invariant(&*self);
        }
        let found = self.find(key);
        match found {
            None => {
                assert(self@.remove(key@) =~= self@);
                None
            },
            Some(i) => {
                let mut entries: Vec<(String, V)> = Vec::new();
                core::mem::swap(&mut self.entries, &mut entries);
                let ghost before = entries@;
                let removed = entries.remove(i);
                proof {
                    let after = entries@;
                    assert forall|a: int| 0 <= a < after.len() implies #[trigger] after[a] == before[if a
                        < i {
                        a
                    } else {
                        a + 1
                    }] by {}
                    assert(keys_distinct(after)) by {
                        assert forall|a: int, b: int|
                            0 <= a < after.len() && 0 <= b < after.len() && a != b implies (
                        #[trigger] after[a]).0@ != (#[trigger] after[b]).0@ by {
                            let a0 = if a < i {
                                a
                            } else {
                                a + 1
                            };
                            let b0 = if b < i {
                                b
                            } else {
                                b + 1
                            };
                            assert(after[a] == before[a0] && after[b] == before[b0]);
                        }
                    }
                    assert(map_of(after) =~= map_of(before).remove(key@)) by {
                        assert forall|k: Seq<char>| key_present(after, k) <==> key_present(before, k)
                            && k != key@ by {
                            if key_present(after, k) {
                                let a = key_index(after, k);
                                let a0 = if a < i {
                                    a
                                } else {
                                    a + 1
                                };
                                assert(after[a] == before[a0]);
                                assert(before[a0].0@ == k);
                            }
                            if key_present(before, k) && k != key@ {
                                let b = key_index(before, k);
                                let b1 = if b < i {
                                    b
                                } else {
                                    b - 1
                                };
                                assert(after[b1] == before[b]);
                            }
                        }
                        assert forall|k: Seq<char>| key_present(after, k) implies map_of(after)[k]
                            == map_of(before)[k] by {
                            let a = key_index(after, k);
                            let a0 = if a < i {
                                a
                            } else {
                                a + 1
                            };
                            assert(after[a] == before[a0]);
                            let b = key_index(before, k);
                            assert(a0 == b);
                        }
                    }
                }
                self.entries = entries;
                Some(removed.1)
            },
        }
    }

    /// The number of keys.
    pub fn len(&self) -> (n: usize)
        ensures
            n == self@.dom().len(),
            self@.dom().finite(),
            n == self.values().len(),
            n == self.keys().len(),
            self.distinct_keys(),
    {
        proof {
            use_type_invariant(self);
            lemma_map_len(self.entries@);
        }
        self.entries.len()
    }

    /// The keys in the order in which they were first inserted.
    pub closed spec fn keys(&self) -> Seq<Seq<char>> {
        self.entries@.map_values(|e: (String, V)| e.0@)
    }

    /// The keys are distinct, and they are the keys of the map.
    pub proof fn lemma_keys(&self)
        requires
            self.distinct_keys(),
        ensures
            self.keys().len() == self@.dom().len(),
            self.keys().len() == self.values().len(),
            forall|i: int| 0 <= i < self.keys().len() ==> self@.contains_key(#[trigger] self.keys()[i]),
            forall|i: int|
                0 <= i < self.keys().len() ==> self@[#[trigger] self.keys()[i]] == self.values()[i],
            forall|key: Seq<char>|
                self@.contains_key(key) ==> exists|i: int|
                    0 <= i < self.keys().len() && #[trigger] self.keys()[i] == key,
            forall|i: int, j: int|
                0 <= i < self.keys().len() && 0 <= j < self.keys().len() && i != j
                    ==> #[trigger] self.keys()[i] != #[trigger] self.keys()[j],
    {
        let e = self.entries@;
        lemma_map_len(e);
        assert forall|i: int| 0 <= i < self.keys().len() implies self@.contains_key(
            #[trigger] self.keys()[i],
        ) && self@[self.keys()[i]] == self.values()[i] by {
            assert(e[i].0@ == self.keys()[i]);
            assert(key_present(e, self.keys()[i]));
            assert(key_index(e, self.keys()[i]) == i);
        }
        assert forall|key: Seq<char>| self@.contains_key(key) implies exists|i: int|
            0 <= i < self.keys().len() && #[trigger] self.keys()[i] == key by {
            let i = key_index(e, key);
            assert(self.keys()[i] == key);
        }
        assert forall|i: int, j: int|
            0 <= i < self.keys().len() && 0 <= j < self.keys().len() && i != j implies #[trigger] self.keys()[i]
                != #[trigger] self.keys()[j] by {
            assert(e[i].0@ == self.keys()[i] && e[j].0@ == self.keys()[j]);
        }
    }

    /// Whether the keys of the entries are distinct, which they always are.
    pub closed spec fn distinct_keys(&self) -> bool {
        keys_distinct(self.entries@)
    }

    /// The key of the entry at a position, in the order of first
    /// insertion, if there is an entry at that position.
    pub fn key_at(&self, index: usize) -> (r: Option<&String>)
        ensures
            self.distinct_keys(),
            match r {
                Some(key) => index < self.keys().len() && key@ == self.keys()[index as int],
                None => index >= self.keys().len(),
            },
    {
        proof {
            use_type_invariant(self);
        }
        if index < self.entries.len() {
            Some(&self.entries[index].0)
        } else {
            None
        }
    }

    /// The value of the entry at a position, in the order of first
    /// insertion, if there is an entry at that position.
    pub fn value_at(&self, index: usize) -> (r: Option<&V>)
        ensures
            self.distinct_keys(),
            match r {
                Some(value) => index < self.values().len() && *value == self.values()[index as int],
                None => index >= self.values().len(),
            },
    {
        proof {
            use_type_invariant(self);
        }
        if index < self.entries.len() {
            Some(&self.entries[index].1)
        } else {
            None
        }
    }
}

} // verus!
