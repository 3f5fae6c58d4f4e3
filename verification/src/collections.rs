//! A map from strings to values.

use crate::text::{lemma_position_absent, lemma_position_is_first, lemma_position_of, position_of, str_eq};
use vstd::prelude::*;

verus! {

/// What a map holds under a key, if it holds anything.
pub open spec fn value_at<V>(map: Map<Seq<char>, V>, key: Seq<char>) -> Option<V> {
    if map.contains_key(key) {
        Some(map[key])
    } else {
        None
    }
}

/// A map from strings to values. It keeps its entries in the order in which
/// their keys were first inserted.
#[derive(Debug, PartialEq, Eq)]
pub struct StringMap<V> {
    /// A key is found by the first entry that holds it.
    entries: Vec<(String, V)>,
}

impl<V: DeepView> StringMap<V> {
    /// The keys of the entries, in their order.
    closed spec fn keys(&self) -> Seq<Seq<char>> {
        Seq::new(self.entries.len() as nat, |i: int| self.entries[i].0@)
    }

    /// What the map holds: the value of each key.
    pub closed spec fn map(&self) -> Map<Seq<char>, V::V> {
        Map::new(
            |key: Seq<char>| position_of(self.keys(), key) is Some,
            |key: Seq<char>| self.entries[position_of(self.keys(), key).unwrap()].1.deep_view(),
        )
    }

    /// An empty map.
    pub fn new() -> (map: Self)
        ensures
            map.map() == Map::<Seq<char>, V::V>::empty(),
    {
        let map = StringMap { entries: Vec::new() };
        proof {
            assert(map.map() =~= Map::<Seq<char>, V::V>::empty());
        }
        map
    }

    /// The index of the entry of the given key.
    fn find(&self, key: &str) -> (index: Option<usize>)
        ensures
            match index {
                Some(i) => position_of(self.keys(), key@) == Some(i as int) && i
                    < self.entries.len(),
                None => position_of(self.keys(), key@) is None,
            },
    {
        let mut i: usize = 0;
        while i < self.entries.len()
            invariant
                i <= self.entries.len(),
                forall|j: int| 0 <= j < i ==> self.keys()[j] != key@,
            decreases self.entries.len() - i,
        {
            if str_eq(self.entries[i].0.as_str(), key) {
                proof {
                    lemma_position_is_first(self.keys(), key@, i as int);
                }
                return Some(i);
            }
            i = i + 1;
        }
        proof {
            lemma_position_absent(self.keys(), key@);
        }
        None
    }

    /// The value of a key, if the map holds the key.
    pub fn get(&self, key: &str) -> (value: Option<&V>)
        ensures
            value.deep_view() == value_at(self.map(), key@),
    {
        match self.find(key) {
            Some(i) => Some(&self.entries[i].1),
            None => None,
        }
    }

    /// Whether the map holds the key.
    pub fn contains_key(&self, key: &str) -> (held: bool)
        ensures
            held == self.map().contains_key(key@),
    {
        self.find(key).is_some()
    }

    /// Puts a value under a key, in place of what the map held under it.
    pub fn insert(&mut self, key: String, value: V)
        ensures
            final(self).map() == old(self).map().insert(key@, value.deep_view()),
    {
        let ghost before = self.keys();
        let ghost stored = value.deep_view();
        let ghost key_view = key@;
        match self.find(key.as_str()) {
            Some(i) => {
                self.entries[i].1 = value;
                proof {
                    assert(self.keys() =~= before);
                    lemma_position_of(before, key_view);
                    assert(self.entries[i as int].1.deep_view() == stored);
                    assert forall|other: Seq<char>|
                        position_of(before, other) is Some implies #[trigger] self.map()[other]
                        == old(self).map().insert(key_view, stored)[other] by {
                        lemma_position_of(before, other);
                        let at = position_of(before, other).unwrap();
                        if other != key_view {
                            assert(before[at] != before[i as int]);
                            assert(self.entries[at] == old(self).entries[at]);
                        }
                    }
                    assert(self.map() =~= old(self).map().insert(key_view, stored));
                }
            },
            None => {
                self.entries.push((key, value));
                proof {
                    assert(self.keys() =~= before.push(key_view));
                    assert(self.keys().drop_last() =~= before);
                    assert forall|other: Seq<char>|
                        position_of(self.keys(), other) is Some implies #[trigger] self.map()[other]
                        == old(self).map().insert(key_view, stored)[other] by {
                        lemma_position_of(before, other);
                    }
                    assert(self.map() =~= old(self).map().insert(key_view, stored));
                }
            },
        }
    }

    /// Removes every entry.
    pub fn clear(&mut self)
        ensures
            final(self).map() == Map::<Seq<char>, V::V>::empty(),
    {
        self.entries.clear();
        proof {
            assert(self.keys() =~= Seq::empty());
            assert(self.map() =~= Map::<Seq<char>, V::V>::empty());
        }
    }

    /// What the entries from index `from` on hold.
    closed spec fn map_from(&self, from: int) -> Map<Seq<char>, V::V> {
        let keys = self.keys().skip(from);
        Map::new(
            |key: Seq<char>| position_of(keys, key) is Some,
            |key: Seq<char>| self.entries[from + position_of(keys, key).unwrap()].1.deep_view(),
        )
    }

    /// An entry counts before all that follow it.
    proof fn lemma_map_from(&self, from: int)
        requires
            0 <= from < self.entries.len(),
        ensures
            self.map_from(from) == self.map_from(from + 1).insert(
                self.entries[from].0@,
                self.entries[from].1.deep_view(),
            ),
    {
        let keys = self.keys().skip(from);
        let rest = self.keys().skip(from + 1);
        let first = self.entries[from].0@;
        assert(keys[0] == first);
        assert forall|key: Seq<char>|
            (position_of(keys, key) is Some) == (position_of(rest, key) is Some || key
                == first) by {
            lemma_position_of(keys, key);
            lemma_position_of(rest, key);
            if position_of(rest, key) is Some {
                assert(keys[position_of(rest, key).unwrap() + 1] == key);
            }
            if position_of(keys, key) is Some && key != first {
                assert(rest[position_of(keys, key).unwrap() - 1] == key);
            }
        }
        assert forall|key: Seq<char>| position_of(keys, key) is Some implies #[trigger] self.map_from(
            from,
        )[key] == self.map_from(from + 1).insert(first, self.entries[from].1.deep_view())[key] by {
            lemma_position_of(keys, key);
            lemma_position_of(rest, key);
            if key != first {
                let at = position_of(rest, key).unwrap();
                assert(keys[at + 1] == key);
                assert forall|j: int| 0 <= j < at + 1 implies keys[j] != key by {
                    if j > 0 {
                        assert(rest[j - 1] != key);
                    }
                }
                lemma_position_is_first(keys, key, at + 1);
            } else {
                lemma_position_is_first(keys, key, 0);
            }
        }
        assert(self.map_from(from) =~= self.map_from(from + 1).insert(
            first,
            self.entries[from].1.deep_view(),
        ));
    }

    /// Puts every entry of another map into this one. Where both hold a key,
    /// the value of the other map stays.
    pub fn extend(&mut self, other: StringMap<V>)
        ensures
            final(self).map() == old(self).map().union_prefer_right(other.map()),
    {
        let ghost all = other;
        let mut other = other;
        proof {
            assert(all.keys().skip(all.entries.len() as int) =~= Seq::empty());
            assert(all.map_from(all.entries.len() as int) =~= Map::<Seq<char>, V::V>::empty());
            assert(self.map().union_prefer_right(all.map_from(all.entries.len() as int))
                =~= self.map());
        }
        while other.entries.len() > 0
            invariant
                other.entries.len() <= all.entries.len(),
                other.entries@ == all.entries@.take(other.entries.len() as int),
                self.map() == old(self).map().union_prefer_right(
                    all.map_from(other.entries.len() as int),
                ),
            decreases other.entries.len(),
        {
            let ghost left = other.entries.len() - 1;
            let (key, value) = other.entries.pop().unwrap();
            proof {
                assert(key@ == all.entries[left].0@);
                assert(value.deep_view() == all.entries[left].1.deep_view());
                all.lemma_map_from(left);
            }
            self.insert(key, value);
            proof {
                assert(self.map() =~= old(self).map().union_prefer_right(all.map_from(left)));
                assert(other.entries@ =~= all.entries@.take(left));
            }
        }
        proof {
            assert(all.keys().skip(0) =~= all.keys());
            assert(all.map_from(0) =~= all.map());
        }
    }
}

} // verus!
