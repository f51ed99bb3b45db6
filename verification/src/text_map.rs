//! A small map keyed by strings that remembers the order in which its keys
//! came.

use vstd::prelude::*;
use crate::keyed::{
    distinct, first_index, is_first_index, lemma_distinct_position, lemma_first_index,
    lemma_first_index_exists, lemma_push_fresh,
};

use crate::text::same_text;

verus! {

struct Entry<V> {
    key: String,
    value: V,
}

/// A map from strings to values of `V`. No key occurs twice, and the keys
/// keep the order in which they were first inserted.
pub struct TextMap<V> {
    entries: Vec<Entry<V>>,
}

impl<V> TextMap<V> {
    /// The keys, in the order in which they were first inserted.
    pub closed spec fn keys(&self) -> Seq<Seq<char>> {
        Seq::new(self.entries@.len(), |i: int| self.entries@[i].key@)
    }

    /// The values, each at the position of its key.
    pub closed spec fn values(&self) -> Seq<V> {
        Seq::new(self.entries@.len(), |i: int| self.entries@[i].value)
    }

    /// The map as a map.
    pub open spec fn view(&self) -> Map<Seq<char>, V> {
        Map::new(
            |k: Seq<char>| self.keys().contains(k),
            |k: Seq<char>| self.values()[first_index(self.keys(), k)],
        )
    }

    /// What every map of this type satisfies.
    pub open spec fn well_formed(&self) -> bool {
        self.keys().len() == self.values().len() && distinct(self.keys())
    }

    #[verifier::type_invariant]
    spec fn no_key_twice(self) -> bool {
        distinct(self.keys())
    }

    /// The empty map.
    pub fn new() -> (r: Self)
        ensures
            r.keys() == Seq::<Seq<char>>::empty(),
            r.values() == Seq::<V>::empty(),
            r@ == Map::<Seq<char>, V>::empty(),
            r.well_formed(),
    {
        let r = TextMap { entries: Vec::new() };
        assert(r.keys() =~= Seq::<Seq<char>>::empty());
        assert(r.values() =~= Seq::<V>::empty());
        assert(r@ =~= Map::<Seq<char>, V>::empty());
        r
    }

    /// The number of keys.
    pub fn len(&self) -> (n: usize)
        ensures
            n == self.keys().len(),
            self.well_formed(),
    {
        proof {
            use_type_invariant(self);
        }
        self.entries.len()
    }

    /// The key at position `i`.
    pub fn key_at(&self, i: usize) -> (k: &String)
        requires
            i < self.keys().len(),
        ensures
            k@ == self.keys()[i as int],
            self@.contains_key(k@),
            self@[k@] == self.values()[i as int],
    {
        proof {
            use_type_invariant(self);
            lemma_distinct_position(self.keys(), i as int);
        }
        &self.entries[i].key
    }

    /// The value at position `i`.
    pub fn value_at(&self, i: usize) -> (v: &V)
        requires
            i < self.keys().len(),
        ensures
            *v == self.values()[i as int],
            self@.contains_key(self.keys()[i as int]),
            self@[self.keys()[i as int]] == *v,
    {
        proof {
            use_type_invariant(self);
            lemma_distinct_position(self.keys(), i as int);
        }
        &self.entries[i].value
    }

    /// The position of `key`, if it is in the map.
    pub fn position(&self, key: &str) -> (r: Option<usize>)
        ensures
            self.well_formed(),
            match r {
                Some(i) => i < self.keys().len() && self.keys()[i as int] == key@
                    && first_index(self.keys(), key@) == i && self@.contains_key(key@),
                None => !self@.contains_key(key@),
            },
    {
        proof {
            use_type_invariant(self);
        }
        let mut i: usize = 0;
        while i < self.entries.len()
            invariant
                i <= self.entries@.len(),
                self.well_formed(),
                forall|j: int| 0 <= j < i ==> self.keys()[j] != key@,
            decreases self.entries@.len() - i,
        {
            if same_text(self.entries[i].key.as_str(), key) {
                proof {
                    assert(is_first_index(self.keys(), key@, i as int));
                    lemma_first_index(self.keys(), key@, i as int);
                }
                return Some(i);
            }
            i += 1;
        }
        None
    }

    /// The value under `key`, if it is in the map.
    pub fn get(&self, key: &str) -> (r: Option<&V>)
        ensures
            match r {
                Some(v) => self@.contains_key(key@) && *v == self@[key@],
                None => !self@.contains_key(key@),
            },
    {
        match self.position(key) {
            Some(i) => Some(&self.entries[i].value),
            None => None,
        }
    }

    /// Whether `key` is in the map.
    pub fn contains_key(&self, key: &str) -> (r: bool)
        ensures
            r == self@.contains_key(key@),
    {
        self.position(key).is_some()
    }

    /// Puts `value` under `key`. A key that was there keeps its position;
    /// a new one comes last. Returns whether the key was there.
    pub fn insert(&mut self, key: String, value: V) -> (replaced: bool)
        ensures
            final(self)@ == old(self)@.insert(key@, value),
            replaced == old(self)@.contains_key(key@),
            replaced ==> final(self).keys() == old(self).keys(),
            replaced ==> final(self).values() == old(self).values().update(
                first_index(old(self).keys(), key@),
                value,
            ),
            !replaced ==> final(self).keys() == old(self).keys().push(key@),
            !replaced ==> final(self).values() == old(self).values().push(value),
            final(self).well_formed(),
    {
        let ghost before = *self;
        let found = self.position(key.as_str());
        let mut entries: Vec<Entry<V>> = Vec::new();
        core::mem::swap(&mut self.entries, &mut entries);
        match found {
            Some(i) => {
                entries.set(i, Entry { key, value });
            },
            None => {
                entries.push(Entry { key, value });
            },
        }
        proof {
            let after = TextMap { entries };
            match found {
                Some(i) => {
                    assert(after.keys() =~= before.keys());
                    assert(after.values() =~= before.values().update(i as int, value));
                    assert forall|k: Seq<char>| before.keys().contains(k) implies (
                    #[trigger] after@[k]) == before@.insert(key@, value)[k] by {
                        lemma_first_index_exists(before.keys(), k);
                    }
                },
                None => {
                    assert(after.keys() =~= before.keys().push(key@));
                    assert(after.values() =~= before.values().push(value));
                    lemma_push_fresh(before.keys(), key@);
                    assert forall|k: Seq<char>| after.keys().contains(k) implies (
                    #[trigger] after@[k]) == before@.insert(key@, value)[k] by {
                        if k != key@ {
                            lemma_first_index_exists(before.keys(), k);
                        }
                    }
                },
            }
            assert(after@ =~= before@.insert(key@, value));
        }
        core::mem::swap(&mut self.entries, &mut entries);
        found.is_some()
    }

    /// Puts `value` at position `i`, under the key that is there, and
    /// returns the value that was there.
    pub fn replace_at(&mut self, i: usize, value: V) -> (previous: V)
        requires
            i < old(self).keys().len(),
        ensures
            previous == old(self).values()[i as int],
            final(self).keys() == old(self).keys(),
            final(self).values() == old(self).values().update(i as int, value),
            final(self)@ == old(self)@.insert(old(self).keys()[i as int], value),
            final(self).well_formed(),
    {
        proof {
            use_type_invariant(&*self);
        }
        let ghost before = *self;
        let mut entries: Vec<Entry<V>> = Vec::new();
        core::mem::swap(&mut self.entries, &mut entries);
        let old_entry = entries.remove(i);
        let Entry { key, value: previous } = old_entry;
        entries.insert(i, Entry { key, value });
        proof {
            let after = TextMap { entries };
            let k0 = before.keys()[i as int];
            assert(after.keys() =~= before.keys());
            assert(after.values() =~= before.values().update(i as int, value));
            lemma_distinct_position(before.keys(), i as int);
            assert forall|k: Seq<char>| before.keys().contains(k) implies (#[trigger] after@[k])
                == before@.insert(k0, value)[k] by {
                lemma_first_index_exists(before.keys(), k);
            }
            assert(after@ =~= before@.insert(k0, value));
        }
        core::mem::swap(&mut self.entries, &mut entries);
        previous
    }
}

} // verus!
