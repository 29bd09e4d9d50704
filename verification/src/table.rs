//! A small insertion-ordered map from strings to values.
//!
//! The inventory is made of such maps: the fields of a host, the groups a host
//! belongs to, the hosts of every group. Keys are compared by their
//! characters, no key occurs twice, and a key keeps the place in which it was
//! first inserted.
//!
//! The entries are kept in a `Vec` and a key is found by going through
//! them. A hash map would find it faster, but of a hash map with strings
//! for keys nothing can be proved here, and the maps of an inventory are
//! small.

use crate::text::same_text;
use vstd::prelude::*;

verus! {

#[derive(Debug)]
pub struct Table<V> {
    entries: Vec<(String, V)>,
}

impl<V> Table<V> {
    /// The keys, in the order in which they were first inserted.
    pub closed spec fn keys(&self) -> Seq<Seq<char>> {
        Seq::new(self.entries@.len(), |i: int| self.entries@[i].0@)
    }

    #[verifier::type_invariant]
    spec fn keys_are_distinct(&self) -> bool {
        self.keys().no_duplicates()
    }
}

impl<V: DeepView> Table<V> {
    /// The values, each at the index of its key in `keys()`.
    pub closed spec fn values(&self) -> Seq<V::V> {
        Seq::new(self.entries@.len(), |i: int| self.entries@[i].1.deep_view())
    }

    /// An empty table.
    pub fn new() -> (r: Self)
        ensures
            r.keys() == Seq::<Seq<char>>::empty(),
            r.values() == Seq::<V::V>::empty(),
            r@ == Map::<Seq<char>, V::V>::empty(),
    {
        let r = Table { entries: Vec::new() };
        r
    }

    /// The number of keys.
    pub fn len(&self) -> (n: usize)
        ensures
            n == self.keys().len(),
            n == self.values().len(),
            self.keys().no_duplicates(),
    {
        proof {
            use_type_invariant(self);
        }
        self.entries.len()
    }

    /// The key at index `i`.
    pub fn key_at(&self, i: usize) -> (k: &String)
        requires
            i < self.keys().len(),
        ensures
            k@ == self.keys()[i as int],
    {
        &self.entries[i].0
    }

    /// The value at index `i`.
    pub fn value_at(&self, i: usize) -> (v: &V)
        requires
            i < self.keys().len(),
        ensures
            v.deep_view() == self.values()[i as int],
    {
        &self.entries[i].1
    }

    /// The index of `key`, if the table holds it.
    pub fn position(&self, key: &str) -> (r: Option<usize>)
        ensures
            match r {
                Some(i) => i < self.keys().len() && self.keys()[i as int] == key@
                    && self@.contains_key(key@) && self@[key@] == self.values()[i as int],
                None => !self.keys().contains(key@) && !self@.contains_key(key@),
            },
    {
        proof {
            use_type_invariant(self);
        }
        let mut i: usize = 0;
        while i < self.entries.len()
            invariant
                i <= self.entries@.len(),
                self.keys().no_duplicates(),
                forall|j: int| 0 <= j < i ==> self.keys()[j] != key@,
            decreases self.entries@.len() - i,
        {
            if same_text(self.entries[i].0.as_str(), key) {
                assert(self.keys()[i as int] == key@);
                return Some(i);
            }
            i += 1;
        }
        None
    }

    /// Whether the table holds `key`.
    pub fn contains_key(&self, key: &str) -> (b: bool)
        ensures
            b == self@.contains_key(key@),
    {
        self.position(key).is_some()
    }

    /// The value stored under `key`, if there is one.
    pub fn get(&self, key: &str) -> (r: Option<&V>)
        ensures
            match r {
                Some(v) => self@.contains_key(key@) && v.deep_view() == self@[key@],
                None => !self@.contains_key(key@),
            },
    {
        proof {
            use_type_invariant(self);
        }
        match self.position(key) {
            Some(i) => Some(&self.entries[i].1),
            None => None,
        }
    }

    /// Stores `value` under `key`. A key that is already present keeps its
    /// place and gets the new value; a new key goes to the end.
    pub fn insert(&mut self, key: String, value: V)
        ensures
            final(self)@ == old(self)@.insert(key@, value.deep_view()),
            old(self).keys().contains(key@) ==> final(self).keys() == old(self).keys()
                && final(self).values() == old(self).values().update(
                old(self).keys().index_of(key@),
                value.deep_view(),
            ),
            !old(self).keys().contains(key@) ==> final(self).keys() == old(self).keys().push(key@)
                && final(self).values() == old(self).values().push(value.deep_view()),
    {
        proof {
            use_type_invariant(&*self);
        }
        let ghost before = *self;
        let ghost k = key@;
        let ghost v = value.deep_view();
        let found = self.position(key.as_str());
        let mut entries: Vec<(String, V)> = Vec::new();
        std::mem::swap(&mut entries, &mut self.entries);
        match found {
            Some(i) => {
                entries.set(i, (key, value));
            },
            None => {
                entries.push((key, value));
            },
        }
        let ghost keys2 = Seq::new(entries@.len(), |i: int| entries@[i].0@);
        let ghost values2 = Seq::new(entries@.len(), |i: int| entries@[i].1.deep_view());
        proof {
            if before.keys().contains(k) {
                assert(keys2 =~= before.keys());
                assert(values2 =~= before.values().update(found.unwrap() as int, v));
            } else {
                assert(keys2 =~= before.keys().push(k));
                assert(values2 =~= before.values().push(v));
            }
            lemma_insert_view(before.keys(), before.values(), keys2, values2, k, v);
        }
        self.entries = entries;
    }
}

impl Table<String> {
    /// A copy of the table: the same keys in the same order, with the same
    /// values.
    pub fn duplicate(&self) -> (r: Self)
        ensures
            r.keys() == self.keys(),
            r.values() == self.values(),
            r@ == self@,
    {
        proof {
            use_type_invariant(self);
        }
        let mut entries: Vec<(String, String)> = Vec::new();
        let mut i: usize = 0;
        while i < self.entries.len()
            invariant
                i <= self.entries@.len(),
                entries@.len() == i,
                forall|j: int|
                    0 <= j < i ==> entries@[j].0@ == self.entries@[j].0@ && entries@[j].1@
                        == self.entries@[j].1@,
            decreases self.entries@.len() - i,
        {
            entries.push((self.entries[i].0.clone(), self.entries[i].1.clone()));
            i += 1;
        }
        assert(Seq::new(entries@.len(), |i: int| entries@[i].0@) =~= self.keys());
        let r = Table { entries };
        r
    }
}

impl Table<Vec<String>> {
    /// Appends `item` to the list stored at index `i`.
    pub fn append_at(&mut self, i: usize, item: String)
        requires
            i < old(self).keys().len(),
        ensures
            final(self).keys() == old(self).keys(),
            final(self).values() == old(self).values().update(
                i as int,
                old(self).values()[i as int].push(item@),
            ),
            final(self)@ == old(self)@.insert(
                old(self).keys()[i as int],
                old(self).values()[i as int].push(item@),
            ),
    {
        proof {
            use_type_invariant(&*self);
        }
        let ghost before = *self;
        let ghost k = self.keys()[i as int];
        let ghost list = self.values()[i as int].push(item@);
        let mut entries: Vec<(String, Vec<String>)> = Vec::new();
        std::mem::swap(&mut entries, &mut self.entries);
        let ghost old_list = entries@[i as int].1.deep_view();
        entries[i].1.push(item);
        let ghost keys2 = Seq::new(entries@.len(), |j: int| entries@[j].0@);
        let ghost values2 = Seq::new(entries@.len(), |j: int| entries@[j].1.deep_view());
        proof {
            assert(entries@[i as int].1.deep_view() =~= old_list.push(item@));
            assert(keys2 =~= before.keys());
            assert(values2 =~= before.values().update(i as int, list));
            lemma_insert_view(before.keys(), before.values(), keys2, values2, k, list);
        }
        self.entries = entries;
    }
}

impl<V: DeepView> View for Table<V> {
    type V = Map<Seq<char>, V::V>;

    open spec fn view(&self) -> Map<Seq<char>, V::V> {
        table_map(self.keys(), self.values())
    }
}

impl<V: DeepView> DeepView for Table<V> {
    type V = Map<Seq<char>, V::V>;

    open spec fn deep_view(&self) -> Map<Seq<char>, V::V> {
        self.view()
    }
}

/// The map that sends each key of `keys` to the value at its index.
pub open spec fn table_map<T>(keys: Seq<Seq<char>>, values: Seq<T>) -> Map<Seq<char>, T> {
    Map::new(|k: Seq<char>| keys.contains(k), |k: Seq<char>| values[keys.index_of(k)])
}

/// How the map of a table changes when a key is replaced in place or added
/// at the end.
pub proof fn lemma_insert_view<T>(
    keys: Seq<Seq<char>>,
    values: Seq<T>,
    keys2: Seq<Seq<char>>,
    values2: Seq<T>,
    k: Seq<char>,
    v: T,
)
    requires
        keys.len() == values.len(),
        keys.no_duplicates(),
        keys.contains(k) ==> keys2 == keys && values2 == values.update(keys.index_of(k), v),
        !keys.contains(k) ==> keys2 == keys.push(k) && values2 == values.push(v),
    ensures
        keys2.no_duplicates(),
        table_map(keys2, values2) == table_map(keys, values).insert(k, v),
{
    let m = table_map(keys, values);
    let m2 = table_map(keys2, values2);
    if keys.contains(k) {
        let i = keys.index_of(k);
        assert forall|q: Seq<char>| m2.contains_key(q) implies m2[q] == m.insert(k, v)[q] by {
            let j = keys.index_of(q);
            if q != k {
                assert(keys[j] == q);
                assert(j != i);
            }
        }
        assert(m2 =~= m.insert(k, v));
    } else {
        let ins = m.insert(k, v);
        assert(keys2[keys.len() as int] == k);
        assert forall|q: Seq<char>| #[trigger] m2.dom().contains(q) == ins.dom().contains(q) by {
            if keys2.contains(q) {
                let j = keys2.index_of(q);
                assert(keys2[j] == q);
                if j < keys.len() {
                    assert(keys[j] == q);
                }
            }
            if keys.contains(q) {
                let j = keys.index_of(q);
                assert(keys[j] == q);
                assert(keys2[j] == q);
            }
        }
        assert(m2.dom() =~= ins.dom());
        assert forall|q: Seq<char>| #[trigger] m2.dom().contains(q) implies m2[q] == ins[q] by {
            let j2 = keys2.index_of(q);
            assert(keys2[j2] == q);
            if q == k {
                assert(j2 == keys.len());
            } else {
                let j = keys.index_of(q);
                assert(keys[j] == q);
                assert(keys2[j] == q);
                assert(j2 == j);
            }
        }
        assert(m2 =~= m.insert(k, v));
    }
}

} // verus!
