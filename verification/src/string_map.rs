//! A map from strings to values that remembers the order in which its keys
//! first came.

use crate::text::string_views;
use vstd::prelude::*;

verus! {

/// No key stands at two indices.
pub open spec fn distinct(keys: Seq<Seq<char>>) -> bool {
    forall|i: int, j: int| 0 <= i < j < keys.len() ==> keys[i] != keys[j]
}

/// An index at which `key` stands in `keys`.
pub open spec fn key_index(keys: Seq<Seq<char>>, key: Seq<char>) -> int {
    choose|i: int| 0 <= i < keys.len() && keys[i] == key
}

/// The map that takes each key to the value at the key's index.
pub open spec fn map_of<T>(keys: Seq<Seq<char>>, values: Seq<T>) -> Map<Seq<char>, T> {
    Map::new(|k: Seq<char>| keys.contains(k), |k: Seq<char>| values[key_index(keys, k)])
}

/// Among distinct keys, the index that holds a key is that key's index.
pub proof fn lemma_key_index(keys: Seq<Seq<char>>, key: Seq<char>, i: int)
    requires
        distinct(keys),
        0 <= i < keys.len(),
        keys[i] == key,
    ensures
        keys.contains(key),
        key_index(keys, key) == i,
{
    let j = key_index(keys, key);
    assert(0 <= j < keys.len() && keys[j] == key);
    if j < i {
        assert(keys[j] != keys[i]);
    } else if i < j {
        assert(keys[i] != keys[j]);
    }
}

/// A key that occurs has an index that holds it.
pub proof fn lemma_key_index_holds(keys: Seq<Seq<char>>, key: Seq<char>)
    requires
        keys.contains(key),
    ensures
        0 <= key_index(keys, key) < keys.len(),
        keys[key_index(keys, key)] == key,
{
    let w = choose|i: int| 0 <= i < keys.len() && keys[i] == key;
    assert(0 <= w < keys.len() && keys[w] == key);
}

/// Replacing the value at a key's index is inserting under that key.
pub proof fn lemma_replace<T>(keys: Seq<Seq<char>>, values: Seq<T>, i: int, value: T)
    requires
        distinct(keys),
        keys.len() == values.len(),
        0 <= i < keys.len(),
    ensures
        map_of(keys, values.update(i, value)) == map_of(keys, values).insert(keys[i], value),
{
    let lhs = map_of(keys, values.update(i, value));
    let rhs = map_of(keys, values).insert(keys[i], value);
    lemma_key_index(keys, keys[i], i);
    assert forall|k: Seq<char>| lhs.dom().contains(k) == rhs.dom().contains(k) by {}
    assert forall|k: Seq<char>| #[trigger] lhs.dom().contains(k) implies lhs[k] == rhs[k] by {
        lemma_key_index_holds(keys, k);
        let j = key_index(keys, k);
        if k != keys[i] {
            assert(j != i);
        }
    }
    assert(lhs =~= rhs);
}

/// Appending a key that is new, with its value, is inserting under that key,
/// and leaves the keys distinct.
pub proof fn lemma_append<T>(keys: Seq<Seq<char>>, values: Seq<T>, key: Seq<char>, value: T)
    requires
        distinct(keys),
        keys.len() == values.len(),
        !keys.contains(key),
    ensures
        distinct(keys.push(key)),
        map_of(keys.push(key), values.push(value)) == map_of(keys, values).insert(key, value),
{
    let keys2 = keys.push(key);
    let values2 = values.push(value);
    let n = keys.len() as int;
    assert forall|i: int, j: int| 0 <= i < j < keys2.len() implies keys2[i] != keys2[j] by {
        if j == n {
            assert(keys[i] == keys2[i]);
            if keys2[i] == key {
                assert(keys.contains(key));
            }
        } else {
            assert(keys2[i] == keys[i]);
            assert(keys2[j] == keys[j]);
        }
    }
    let lhs = map_of(keys2, values2);
    let rhs = map_of(keys, values).insert(key, value);
    assert(keys2[n] == key);
    assert forall|k: Seq<char>| lhs.dom().contains(k) == rhs.dom().contains(k) by {
        if keys2.contains(k) {
            let w = choose|i: int| 0 <= i < keys2.len() && keys2[i] == k;
            if w < n {
                assert(keys[w] == k);
            }
        }
        if keys.contains(k) {
            let w = choose|i: int| 0 <= i < keys.len() && keys[i] == k;
            assert(keys2[w] == k);
        }
    }
    assert forall|k: Seq<char>| #[trigger] lhs.dom().contains(k) implies lhs[k] == rhs[k] by {
        lemma_key_index_holds(keys2, k);
        let j = key_index(keys2, k);
        if k == key {
            lemma_key_index(keys2, key, n);
        } else {
            assert(j != n);
            assert(keys[j] == k);
            lemma_key_index(keys, k, j);
        }
    }
    assert(lhs =~= rhs);
}

/// A finite map keyed by strings.
///
/// No key is held twice. The keys stand in the order in which they were first
/// inserted; inserting under a key that is already there replaces its value
/// and leaves the order alone.
#[derive(Debug)]
pub struct StringMap<V: View> {
    names: Vec<String>,
    items: Vec<V>,
}

impl<V: View> View for StringMap<V> {
    type V = Map<Seq<char>, V::V>;

    /// The map from each key to the view of its value.
    open spec fn view(&self) -> Map<Seq<char>, V::V> {
        map_of(self.keys(), self.value_views())
    }
}

impl<V: View> StringMap<V> {
    /// The keys, in the order of their first insertion.
    pub closed spec fn keys(&self) -> Seq<Seq<char>> {
        string_views(self.names@)
    }

    /// The values, each at the index of its key in [`Self::keys`].
    pub closed spec fn values(&self) -> Seq<V> {
        self.items@
    }

    /// The views of the values.
    pub open spec fn value_views(&self) -> Seq<V::V> {
        self.values().map_values(|v: V| v@)
    }

    /// There is one value for each key, and no key stands twice.
    pub open spec fn wf(&self) -> bool {
        &&& self.keys().len() == self.values().len()
        &&& distinct(self.keys())
    }

    #[verifier::type_invariant]
    spec fn inv(&self) -> bool {
        self.wf()
    }

    /// A map without keys.
    pub fn new() -> (m: Self)
        ensures
            m.wf(),
            m.keys() == Seq::<Seq<char>>::empty(),
            m.values() == Seq::<V>::empty(),
            m@ == Map::<Seq<char>, V::V>::empty(),
    {
        let m = StringMap { names: Vec::new(), items: Vec::new() };
        assert(m.keys() == Seq::<Seq<char>>::empty());
        assert(m@ =~= Map::<Seq<char>, V::V>::empty());
        m
    }

    /// The number of keys.
    pub fn len(&self) -> (n: usize)
        ensures
            self.wf(),
            n == self.keys().len(),
    {
        proof {
            use_type_invariant(self);
        }
        self.names.len()
    }

    /// Whether the map has no key.
    pub fn is_empty(&self) -> (b: bool)
        ensures
            self.wf(),
            b == (self.keys().len() == 0),
            b == (self@ == Map::<Seq<char>, V::V>::empty()),
    {
        proof {
            use_type_invariant(self);
            if self.keys().len() == 0 {
                assert(self@ =~= Map::<Seq<char>, V::V>::empty());
            } else {
                assert(self.keys().contains(self.keys()[0]));
                assert(self@.dom().contains(self.keys()[0]));
            }
        }
        self.names.len() == 0
    }

    /// The index at which `key` stands.
    pub fn position(&self, key: &str) -> (r: Option<usize>)
        ensures
            self.wf(),
            match r {
                Some(i) => i < self.keys().len() && self.keys()[i as int] == key@ && key_index(
                    self.keys(),
                    key@,
                ) == i,
                None => !self.keys().contains(key@),
            },
    {
        proof {
            use_type_invariant(self);
        }
        let wanted: String = key.to_owned();
        let mut i: usize = 0;
        while i < self.names.len()
            invariant
                i <= self.names.len(),
                wanted@ == key@,
                self.wf(),
                forall|j: int| 0 <= j < i ==> self.keys()[j] != key@,
            decreases self.names.len() - i,
        {
            if self.names[i] == wanted {
                proof {
                    lemma_key_index(self.keys(), key@, i as int);
                }
                return Some(i);
            }
            i = i + 1;
        }
        None
    }

    /// Whether `key` is a key of the map.
    pub fn contains_key(&self, key: &str) -> (b: bool)
        ensures
            b == self@.dom().contains(key@),
            b == self.keys().contains(key@),
    {
        self.position(key).is_some()
    }

    /// The value under `key`, if it is a key.
    pub fn get(&self, key: &str) -> (r: Option<&V>)
        ensures
            match r {
                Some(v) => self@.dom().contains(key@) && v@ == self@[key@] && *v
                    == self.values()[key_index(self.keys(), key@)],
                None => !self@.dom().contains(key@),
            },
    {
        match self.position(key) {
            Some(i) => Some(&self.items[i]),
            None => None,
        }
    }

    /// The key at index `i`.
    pub fn key_at(&self, i: usize) -> (k: &String)
        requires
            i < self.keys().len(),
        ensures
            k@ == self.keys()[i as int],
    {
        &self.names[i]
    }

    /// The value at index `i`.
    pub fn value_at(&self, i: usize) -> (v: &V)
        requires
            i < self.keys().len(),
        ensures
            *v == self.values()[i as int],
    {
        proof {
            use_type_invariant(self);
        }
        &self.items[i]
    }

    /// Puts `value` under `key`. A key that is new goes to the end; one that
    /// is there keeps its place and has its value replaced.
    pub fn insert(&mut self, key: String, value: V)
        ensures
            final(self).wf(),
            final(self)@ == old(self)@.insert(key@, value@),
            old(self).keys().contains(key@) ==> final(self).keys() == old(self).keys()
                && final(self).values() == old(self).values().update(
                key_index(old(self).keys(), key@),
                value,
            ),
            !old(self).keys().contains(key@) ==> final(self).keys() == old(self).keys().push(key@)
                && final(self).values() == old(self).values().push(value),
    {
        let found = self.position(key.as_str());
        let ghost before = *self;
        let mut taken = StringMap { names: Vec::new(), items: Vec::new() };
        assert(taken.keys() == Seq::<Seq<char>>::empty());
        core::mem::swap(self, &mut taken);
        let StringMap { names: mut names, items: mut items } = taken;
        match found {
            Some(i) => {
                proof {
                    lemma_replace(before.keys(), before.value_views(), i as int, value@);
                    assert(before.values().update(i as int, value).map_values(|v: V| v@)
                        == before.value_views().update(i as int, value@));
                }
                items.set(i, value);
            },
            None => {
                proof {
                    lemma_append(before.keys(), before.value_views(), key@, value@);
                    assert(before.values().push(value).map_values(|v: V| v@)
                        == before.value_views().push(value@));
                    assert(string_views(before.names@.push(key)) == before.keys().push(key@));
                }
                names.push(key);
                items.push(value);
            },
        }
        *self = StringMap { names, items };
    }
}

impl<V: View + Clone> Clone for StringMap<V> {
    /// A map with the same keys in the same order, each with a clone of its
    /// value.
    fn clone(&self) -> (copy: Self)
        ensures
            copy.wf(),
            copy.keys() == self.keys(),
    {
        proof {
            use_type_invariant(self);
        }
        let mut names: Vec<String> = Vec::new();
        let mut items: Vec<V> = Vec::new();
        let mut i: usize = 0;
        while i < self.names.len()
            invariant
                i <= self.names.len(),
                self.names.len() == self.items.len(),
                names@.len() == i,
                items@.len() == i,
                string_views(names@) == self.keys().take(i as int),
            decreases self.names.len() - i,
        {
            names.push(self.names[i].clone());
            items.push(self.items[i].clone());
            i = i + 1;
        }
        assert(self.keys().take(self.names.len() as int) == self.keys());
        StringMap { names, items }
    }
}

} // verus!
