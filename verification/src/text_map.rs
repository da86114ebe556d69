//! A map from texts to values, kept in the order of its keys.

use vstd::prelude::*;
use crate::text::{compare, lemma_lex_lt_irreflexive, lemma_lex_lt_transitive, lex_lt, Rank};

verus! {

/// Whether the keys stand in strictly ascending order.
pub open spec fn ascending(keys: Seq<Seq<char>>) -> bool {
    forall|i: int, j: int|
        0 <= i < j < keys.len() ==> lex_lt(#[trigger] keys[i], #[trigger] keys[j])
}

/// The map that takes each key to the value at the same index.
pub open spec fn assoc<V>(keys: Seq<Seq<char>>, values: Seq<V>) -> Map<Seq<char>, V> {
    Map::new(|k: Seq<char>| keys.contains(k), |k: Seq<char>| values[keys.index_of(k)])
}

/// Ascending keys are distinct: a key is found at one index only.
pub proof fn lemma_ascending_distinct(keys: Seq<Seq<char>>, i: int, j: int)
    requires
        ascending(keys),
        0 <= i < keys.len(),
        0 <= j < keys.len(),
        keys[i] == keys[j],
    ensures
        i == j,
{
    lemma_lex_lt_irreflexive(keys[i]);
    if i < j {
        assert(lex_lt(keys[i], keys[j]));
    } else if j < i {
        assert(lex_lt(keys[j], keys[i]));
    }
}

/// With ascending keys, the map holds each key with the value at its
/// index.
pub proof fn lemma_assoc_at<V>(keys: Seq<Seq<char>>, values: Seq<V>, i: int)
    requires
        ascending(keys),
        0 <= i < keys.len(),
    ensures
        assoc(keys, values).contains_key(keys[i]),
        assoc(keys, values)[keys[i]] == values[i],
{
    assert(keys.contains(keys[i]));
    let j = keys.index_of(keys[i]);
    lemma_ascending_distinct(keys, i, j);
}

/// Putting a new key at its place in the order keeps the order, and adds
/// the key with its value to the map.
pub proof fn lemma_assoc_insert<V>(
    keys: Seq<Seq<char>>,
    values: Seq<V>,
    p: int,
    key: Seq<char>,
    value: V,
)
    requires
        ascending(keys),
        keys.len() == values.len(),
        0 <= p <= keys.len(),
        forall|j: int| 0 <= j < p ==> lex_lt(#[trigger] keys[j], key),
        forall|j: int| p <= j < keys.len() ==> lex_lt(key, #[trigger] keys[j]),
    ensures
        !keys.contains(key),
        ascending(keys.insert(p, key)),
        assoc(keys.insert(p, key), values.insert(p, value)) == assoc(keys, values).insert(
            key,
            value,
        ),
{
    let keys1 = keys.insert(p, key);
    let values1 = values.insert(p, value);
    lemma_lex_lt_irreflexive(key);
    assert(!keys.contains(key)) by {
        if keys.contains(key) {
            let j = keys.index_of(key);
            assert(keys[j] == key);
        }
    }
    assert forall|i: int, j: int| 0 <= i < j < keys1.len() implies lex_lt(
        #[trigger] keys1[i],
        #[trigger] keys1[j],
    ) by {
        if i < p && j > p {
            assert(lex_lt(keys[i], keys[j - 1]));
        } else if i < p && j < p {
            assert(lex_lt(keys[i], keys[j]));
        } else if i > p {
            assert(lex_lt(keys[i - 1], keys[j - 1]));
        } else if i == p {
            assert(lex_lt(key, keys[j - 1]));
        } else {
            assert(lex_lt(keys[i], key));
        }
    }
    assert forall|k: Seq<char>| keys1.contains(k) <==> (keys.contains(k) || k == key) by {
        if keys1.contains(k) {
            let j = keys1.index_of(k);
            if j < p {
                assert(keys[j] == k);
            } else if j > p {
                assert(keys[j - 1] == k);
            }
        }
        if keys.contains(k) {
            let j = keys.index_of(k);
            if j < p {
                assert(keys1[j] == k);
            } else {
                assert(keys1[j + 1] == k);
            }
        }
        if k == key {
            assert(keys1[p] == k);
        }
    }
    assert forall|k: Seq<char>| keys1.contains(k) implies assoc(keys1, values1)[k] == assoc(
        keys,
        values,
    ).insert(key, value)[k] by {
        let j = keys1.index_of(k);
        lemma_assoc_at(keys1, values1, j);
        if j < p {
            lemma_assoc_at(keys, values, j);
        } else if j > p {
            lemma_assoc_at(keys, values, j - 1);
        }
    }
    assert(assoc(keys1, values1) =~= assoc(keys, values).insert(key, value));
}

/// Replacing the value at an index puts the new value under the key of
/// that index.
pub proof fn lemma_assoc_update<V>(keys: Seq<Seq<char>>, values: Seq<V>, p: int, value: V)
    requires
        ascending(keys),
        keys.len() == values.len(),
        0 <= p < keys.len(),
    ensures
        assoc(keys, values.update(p, value)) == assoc(keys, values).insert(keys[p], value),
{
    let values1 = values.update(p, value);
    assert forall|k: Seq<char>| keys.contains(k) implies assoc(keys, values1)[k] == assoc(
        keys,
        values,
    ).insert(keys[p], value)[k] by {
        let j = keys.index_of(k);
        lemma_assoc_at(keys, values1, j);
        lemma_assoc_at(keys, values, j);
        if keys[j] == keys[p] {
            lemma_ascending_distinct(keys, j, p);
        }
    }
    assert(keys.contains(keys[p]));
    assert(assoc(keys, values1) =~= assoc(keys, values).insert(keys[p], value));
}

/// Taking out the entry at an index keeps the order, and takes the key of
/// that index out of the map.
pub proof fn lemma_assoc_remove<V>(keys: Seq<Seq<char>>, values: Seq<V>, p: int)
    requires
        ascending(keys),
        keys.len() == values.len(),
        0 <= p < keys.len(),
    ensures
        ascending(keys.remove(p)),
        assoc(keys.remove(p), values.remove(p)) == assoc(keys, values).remove(keys[p]),
{
    let keys1 = keys.remove(p);
    let values1 = values.remove(p);
    assert forall|i: int, j: int| 0 <= i < j < keys1.len() implies lex_lt(
        #[trigger] keys1[i],
        #[trigger] keys1[j],
    ) by {
        let a = if i < p { i } else { i + 1 };
        let b = if j < p { j } else { j + 1 };
        assert(lex_lt(keys[a], keys[b]));
    }
    assert forall|k: Seq<char>| keys1.contains(k) <==> (keys.contains(k) && k != keys[p]) by {
        if keys1.contains(k) {
            let j = keys1.index_of(k);
            let a = if j < p { j } else { j + 1 };
            assert(keys[a] == k);
            if k == keys[p] {
                lemma_ascending_distinct(keys, a, p);
            }
        }
        if keys.contains(k) && k != keys[p] {
            let j = keys.index_of(k);
            if j < p {
                assert(keys1[j] == k);
            } else {
                assert(keys1[j - 1] == k);
            }
        }
    }
    assert forall|k: Seq<char>| keys1.contains(k) implies assoc(keys1, values1)[k] == assoc(
        keys,
        values,
    ).remove(keys[p])[k] by {
        let j = keys1.index_of(k);
        lemma_assoc_at(keys1, values1, j);
        let a = if j < p { j } else { j + 1 };
        lemma_assoc_at(keys, values, a);
    }
    assert(assoc(keys1, values1) =~= assoc(keys, values).remove(keys[p]));
}

/// A map from texts to values. Its entries are kept in the ascending order
/// of their keys, so no key occurs twice.
#[derive(Clone, Debug)]
pub struct TextMap<V> {
    entries: Vec<(String, V)>,
}

impl<V> View for TextMap<V> {
    type V = Map<Seq<char>, V>;

    open spec fn view(&self) -> Map<Seq<char>, V> {
        assoc(self.keys(), self.values())
    }
}

impl<V> Default for TextMap<V> {
    /// The empty map.
    fn default() -> (r: Self)
        ensures
            r.wf(),
            r@ == Map::<Seq<char>, V>::empty(),
    {
        TextMap::new()
    }
}

/// What a map of strings holds, as a map of texts.
pub open spec fn texts(m: Map<Seq<char>, String>) -> Map<Seq<char>, Seq<char>> {
    m.map_values(|v: String| v@)
}

impl<V> TextMap<V> {
    /// The keys, in the order of the entries.
    pub closed spec fn keys(&self) -> Seq<Seq<char>> {
        self.entries@.map_values(|e: (String, V)| e.0@)
    }

    /// The values, each at the index of its key.
    pub closed spec fn values(&self) -> Seq<V> {
        self.entries@.map_values(|e: (String, V)| e.1)
    }

    /// The invariant of the map: there is one value to each key, and the
    /// keys are ascending.
    pub open spec fn wf(&self) -> bool {
        &&& self.keys().len() == self.values().len()
        &&& ascending(self.keys())
    }

    /// The empty map.
    pub fn new() -> (r: Self)
        ensures
            r.wf(),
            r@ == Map::<Seq<char>, V>::empty(),
            r.keys() == Seq::<Seq<char>>::empty(),
            r.values() == Seq::<V>::empty(),
    {
        let r = TextMap { entries: Vec::new() };
        assert(r.keys() =~= Seq::<Seq<char>>::empty());
        assert(r.values() =~= Seq::<V>::empty());
        assert(r@ =~= Map::<Seq<char>, V>::empty());
        r
    }

    /// The number of entries.
    pub fn len(&self) -> (n: usize)
        ensures
            n == self.keys().len(),
            n == self.values().len(),
    {
        self.entries.len()
    }

    /// The key at an index.
    pub fn key_at(&self, i: usize) -> (r: &String)
        requires
            i < self.keys().len(),
        ensures
            r@ == self.keys()[i as int],
    {
        &self.entries[i].0
    }

    /// The value at an index.
    pub fn value_at(&self, i: usize) -> (r: &V)
        requires
            i < self.values().len(),
        ensures
            *r == self.values()[i as int],
    {
        &self.entries[i].1
    }

    /// The index of the key, if the map holds it.
    fn position(&self, key: &str) -> (r: Option<usize>)
        ensures
            match r {
                Some(i) => i < self.keys().len() && self.keys()[i as int] == key@,
                None => !self.keys().contains(key@),
            },
    {
        let mut i: usize = 0;
        while i < self.entries.len()
            invariant
                i <= self.entries.len(),
                forall|j: int| 0 <= j < i ==> self.keys()[j] != key@,
            decreases self.entries.len() - i,
        {
            proof {
                lemma_lex_lt_irreflexive(key@);
            }
            match compare(self.entries[i].0.as_str(), key) {
                Rank::Same => {
                    return Some(i);
                },
                Rank::Before => {},
                Rank::After => {},
            }
            i = i + 1;
        }
        None
    }

    /// Tells whether the map holds the key.
    pub fn contains_key(&self, key: &str) -> (b: bool)
        ensures
            b == self@.contains_key(key@),
    {
        self.position(key).is_some()
    }

    /// The value of the key, if the map holds it.
    pub fn get(&self, key: &str) -> (r: Option<&V>)
        requires
            self.wf(),
        ensures
            match r {
                Some(v) => self@.contains_key(key@) && self@[key@] == *v,
                None => !self@.contains_key(key@),
            },
    {
        match self.position(key) {
            Some(i) => {
                proof {
                    lemma_assoc_at(self.keys(), self.values(), i as int);
                }
                Some(&self.entries[i].1)
            },
            None => None,
        }
    }

    /// Whether this map is `before` with the value under `key` replaced by
    /// `value`, entry for entry.
    pub closed spec fn replaced(&self, before: &Self, key: Seq<char>, value: V) -> bool {
        exists|i: int|
            0 <= i < before.entries@.len() && (#[trigger] before.entries@[i]).0@ == key
                && self.entries@ == before.entries@.update(i, (before.entries@[i].0, value))
    }

    /// A map with one value replaced keeps its invariant, and holds the
    /// new value under the key.
    pub proof fn lemma_replaced(&self, before: &Self, key: Seq<char>, value: V)
        requires
            before.wf(),
            self.replaced(before, key, value),
        ensures
            self.wf(),
            before@.contains_key(key),
            self@ == before@.insert(key, value),
    {
        let i = choose|i: int|
            0 <= i < before.entries@.len() && (#[trigger] before.entries@[i]).0@ == key
                && self.entries@ == before.entries@.update(i, (before.entries@[i].0, value));
        assert(self.keys() =~= before.keys());
        assert(self.values() =~= before.values().update(i, value));
        assert(before.keys()[i] == key);
        lemma_assoc_at(before.keys(), before.values(), i);
        lemma_assoc_update(before.keys(), before.values(), i, value);
    }

    /// The value of the key, to be changed in place, if the map holds the
    /// key. Once the value is changed, the map is the map before with that
    /// value replaced.
    pub fn get_mut(&mut self, key: &str) -> (r: Option<&mut V>)
        requires
            old(self).wf(),
        ensures
            match r {
                Some(v) => old(self)@.contains_key(key@) && *v == old(self)@[key@]
                    && final(self).replaced(old(self), key@, *final(v)),
                None => !old(self)@.contains_key(key@) && *final(self) == *old(self),
            },
    {
        match self.position(key) {
            Some(i) => {
                proof {
                    lemma_assoc_at(self.keys(), self.values(), i as int);
                }
                let entry = &mut self.entries[i];
                Some(&mut entry.1)
            },
            None => None,
        }
    }

    /// Puts the value under the key, and hands back the value that the key
    /// had before, if any.
    pub fn insert(&mut self, key: String, value: V) -> (before: Option<V>)
        requires
            old(self).wf(),
        ensures
            final(self).wf(),
            final(self)@ == old(self)@.insert(key@, value),
            match before {
                Some(v) => old(self)@.contains_key(key@) && old(self)@[key@] == v,
                None => !old(self)@.contains_key(key@),
            },
    {
        let ghost keys0 = self.keys();
        let ghost values0 = self.values();
        let mut i: usize = 0;
        while i < self.entries.len()
            invariant
                i <= self.entries.len(),
                *self == *old(self),
                keys0 == self.keys(),
                values0 == self.values(),
                self.wf(),
                forall|j: int| 0 <= j < i ==> lex_lt(#[trigger] keys0[j], key@),
            decreases self.entries.len() - i,
        {
            match compare(self.entries[i].0.as_str(), key.as_str()) {
                Rank::Before => {},
                Rank::Same => {
                    proof {
                        lemma_assoc_at(keys0, values0, i as int);
                        lemma_assoc_update(keys0, values0, i as int, value);
                        lemma_assoc_remove(keys0, values0, i as int);
                    }
                    let gone = self.entries.remove(i);
                    self.entries.insert(i, (key, value));
                    proof {
                        assert(self.keys() =~= keys0);
                        assert(self.values() =~= values0.update(i as int, value));
                    }
                    return Some(gone.1);
                },
                Rank::After => {
                    proof {
                        assert forall|j: int| i <= j < keys0.len() implies lex_lt(
                            key@,
                            #[trigger] keys0[j],
                        ) by {
                            if j > i {
                                assert(lex_lt(keys0[i as int], keys0[j]));
                                lemma_lex_lt_transitive(key@, keys0[i as int], keys0[j]);
                            }
                        }
                        lemma_assoc_insert(keys0, values0, i as int, key@, value);
                    }
                    self.entries.insert(i, (key, value));
                    proof {
                        assert(self.keys() =~= keys0.insert(i as int, key@));
                        assert(self.values() =~= values0.insert(i as int, value));
                    }
                    return None;
                },
            }
            i = i + 1;
        }
        proof {
            lemma_assoc_insert(keys0, values0, i as int, key@, value);
        }
        self.entries.push((key, value));
        proof {
            assert(self.keys() =~= keys0.insert(i as int, key@));
            assert(self.values() =~= values0.insert(i as int, value));
        }
        None
    }

    /// Takes the key out of the map, and hands back the value it had, if
    /// any.
    pub fn remove(&mut self, key: &str) -> (before: Option<V>)
        requires
            old(self).wf(),
        ensures
            final(self).wf(),
            final(self)@ == old(self)@.remove(key@),
            match before {
                Some(v) => old(self)@.contains_key(key@) && old(self)@[key@] == v,
                None => !old(self)@.contains_key(key@),
            },
    {
        let ghost keys0 = self.keys();
        let ghost values0 = self.values();
        match self.position(key) {
            Some(i) => {
                proof {
                    lemma_assoc_at(keys0, values0, i as int);
                    lemma_assoc_remove(keys0, values0, i as int);
                }
                let gone = self.entries.remove(i);
                proof {
                    assert(self.keys() =~= keys0.remove(i as int));
                    assert(self.values() =~= values0.remove(i as int));
                }
                Some(gone.1)
            },
            None => {
                assert(self@ =~= self@.remove(key@));
                None
            },
        }
    }
}

} // verus!
