//! The model of merging: what the groups of all hosts add up to.
//!
//! Each host brings a map from group keys to a value, its name in the
//! inventory. Merging collects, for every key, the values of the hosts that
//! bring the key, in the order of the hosts. What is handed in and is no
//! such map is passed over.

use crate::table::table_map;
use vstd::prelude::*;
use vstd::seq_lib::{
    lemma_multiset_commutative, to_multiset_contains, to_multiset_len, to_multiset_remove,
};

verus! {

/// The objects among `values`, in their order. A value that is no object,
/// here `None`, is left out.
pub open spec fn objects_of<T>(values: Seq<Option<Map<Seq<char>, T>>>) -> Seq<Map<Seq<char>, T>>
    decreases values.len(),
{
    if values.len() == 0 {
        Seq::empty()
    } else {
        let head = objects_of(values.drop_last());
        match values.last() {
            Some(object) => head.push(object),
            None => head,
        }
    }
}

/// The objects of two runs of values are those of the first run followed
/// by those of the second.
pub proof fn lemma_objects_of_append<T>(
    a: Seq<Option<Map<Seq<char>, T>>>,
    b: Seq<Option<Map<Seq<char>, T>>>,
)
    ensures
        objects_of(a + b) == objects_of(a) + objects_of(b),
    decreases b.len(),
{
    if b.len() == 0 {
        assert(a + b =~= a);
        assert(objects_of(a) + objects_of(b) =~= objects_of(a));
    } else {
        assert((a + b).drop_last() =~= a + b.drop_last());
        lemma_objects_of_append(a, b.drop_last());
        assert(objects_of(a + b) =~= objects_of(a) + objects_of(b));
    }
}

/// A value that is no object is ignored: wherever it stands among the
/// values, the merged groups are what they are without it.
pub proof fn lemma_other_values_are_ignored<T>(
    before: Seq<Option<Map<Seq<char>, T>>>,
    after: Seq<Option<Map<Seq<char>, T>>>,
)
    ensures
        merged_groups(objects_of(before + seq![None] + after)) == merged_groups(
            objects_of(before + after),
        ),
{
    let other = seq![None::<Map<Seq<char>, T>>];
    lemma_objects_of_append(before + other, after);
    lemma_objects_of_append(before, other);
    lemma_objects_of_append(before, after);
    assert(other.drop_last().len() == 0);
    assert(objects_of(other.drop_last()) =~= Seq::<Map<Seq<char>, T>>::empty());
    assert(other.last() is None);
    assert(objects_of(other) =~= Seq::<Map<Seq<char>, T>>::empty());
    assert(objects_of(before) + objects_of(other) =~= objects_of(before));
}

/// The values that `objects` hold under `key`, in the order of the objects.
/// An object without the key adds nothing.
pub open spec fn contributions<T>(objects: Seq<Map<Seq<char>, T>>, key: Seq<char>) -> Seq<T>
    decreases objects.len(),
{
    if objects.len() == 0 {
        Seq::empty()
    } else {
        let head = contributions(objects.drop_last(), key);
        if objects.last().contains_key(key) {
            head.push(objects.last()[key])
        } else {
            head
        }
    }
}

/// Whether one of `objects` holds `key`.
pub open spec fn some_object_has<T>(objects: Seq<Map<Seq<char>, T>>, key: Seq<char>) -> bool {
    exists|i: int| 0 <= i < objects.len() && #[trigger] objects[i].contains_key(key)
}

/// The merged groups: every key that some object holds, with the values of
/// all objects that hold it.
pub open spec fn merged_groups<T>(objects: Seq<Map<Seq<char>, T>>) -> Map<Seq<char>, Seq<T>> {
    Map::new(
        |key: Seq<char>| some_object_has(objects, key),
        |key: Seq<char>| contributions(objects, key),
    )
}

/// A key that no object holds gets no values.
pub proof fn lemma_no_contribution<T>(objects: Seq<Map<Seq<char>, T>>, key: Seq<char>)
    requires
        !some_object_has(objects, key),
    ensures
        contributions(objects, key) == Seq::<T>::empty(),
    decreases objects.len(),
{
    if objects.len() > 0 {
        let head = objects.drop_last();
        assert forall|i: int| 0 <= i < head.len() implies !#[trigger] head[i].contains_key(key) by {
            assert(head[i] == objects[i]);
        }
        lemma_no_contribution(head, key);
    }
}

/// Merging never drops a value: the list of a key is as long as the number
/// of objects that hold the key.
pub proof fn lemma_contribution_count<T>(objects: Seq<Map<Seq<char>, T>>, key: Seq<char>)
    ensures
        contributions(objects, key).len() == objects.filter(
            |m: Map<Seq<char>, T>| m.contains_key(key),
        ).len(),
    decreases objects.len(),
{
    reveal(Seq::filter);
    if objects.len() > 0 {
        lemma_contribution_count(objects.drop_last(), key);
    }
}

/// Where every object holds `key`, the merged list under `key` has one
/// entry for each object, in the order of the objects.
pub proof fn lemma_merge_keeps_arrival_order<T>(objects: Seq<Map<Seq<char>, T>>, key: Seq<char>)
    requires
        forall|i: int| 0 <= i < objects.len() ==> #[trigger] objects[i].contains_key(key),
    ensures
        objects.len() > 0 ==> merged_groups(objects).contains_key(key),
        contributions(objects, key).len() == objects.len(),
        forall|i: int|
            0 <= i < objects.len() ==> #[trigger] contributions(objects, key)[i]
                == objects[i][key],
        objects.len() > 0 ==> merged_groups(objects)[key] == contributions(objects, key),
    decreases objects.len(),
{
    if objects.len() > 0 {
        let head = objects.drop_last();
        assert(objects[objects.len() - 1].contains_key(key));
        assert forall|i: int| 0 <= i < head.len() implies #[trigger] head[i].contains_key(key) by {
            assert(head[i] == objects[i]);
        }
        lemma_merge_keeps_arrival_order(head, key);
        assert forall|i: int| 0 <= i < objects.len() implies #[trigger] contributions(
            objects,
            key,
        )[i] == objects[i][key] by {
            if i < head.len() {
                assert(head[i] == objects[i]);
            }
        }
    }
}

/// Merging never drops a value: what an object holds under a key is in the
/// merged list of that key.
pub proof fn lemma_contribution_present<T>(objects: Seq<Map<Seq<char>, T>>, i: int, key: Seq<char>)
    requires
        0 <= i < objects.len(),
        objects[i].contains_key(key),
    ensures
        merged_groups(objects).contains_key(key),
        merged_groups(objects)[key] == contributions(objects, key),
        contributions(objects, key).contains(objects[i][key]),
    decreases objects.len(),
{
    let head = objects.drop_last();
    if i == objects.len() - 1 {
        let list = contributions(objects, key);
        assert(list[list.len() - 1] == objects[i][key]);
    } else {
        lemma_contribution_present(head, i, key);
        let at = choose|at: int|
            0 <= at < contributions(head, key).len() && contributions(head, key)[at]
                == objects[i][key];
        assert(contributions(objects, key)[at] == objects[i][key]);
    }
}

/// The values of two runs of objects, one after the other, are the values
/// of the first run followed by those of the second.
pub proof fn lemma_contributions_append<T>(
    a: Seq<Map<Seq<char>, T>>,
    b: Seq<Map<Seq<char>, T>>,
    key: Seq<char>,
)
    ensures
        contributions(a + b, key) == contributions(a, key) + contributions(b, key),
    decreases b.len(),
{
    if b.len() == 0 {
        assert(contributions(a, key) + contributions(b, key) =~= contributions(a, key));
    } else {
        assert((a + b).drop_last() =~= a + b.drop_last());
        lemma_contributions_append(a, b.drop_last(), key);
    }
}

/// The order in which the objects arrive decides nothing but the order
/// within each list: the same objects in another order give the same keys,
/// and under each key the same values, each as often as before.
pub proof fn lemma_merge_is_order_free<T>(
    a: Seq<Map<Seq<char>, T>>,
    b: Seq<Map<Seq<char>, T>>,
    key: Seq<char>,
)
    requires
        a.to_multiset() == b.to_multiset(),
    ensures
        merged_groups(a).contains_key(key) == merged_groups(b).contains_key(key),
        contributions(a, key).to_multiset() == contributions(b, key).to_multiset(),
    decreases a.len(),
{
    to_multiset_len(a);
    to_multiset_len(b);
    if a.len() > 0 {
        let x = a.last();
        let a1 = a.drop_last();
        assert(a[a.len() - 1] == x);
        to_multiset_contains(a, x);
        to_multiset_contains(b, x);
        let j = choose|j: int| 0 <= j < b.len() && b[j] == x;
        let b1 = b.remove(j);
        to_multiset_remove(a, a.len() - 1);
        to_multiset_remove(b, j);
        assert(a.remove(a.len() - 1) =~= a1);
        lemma_merge_is_order_free(a1, b1, key);

        let front = b.take(j);
        let back = b.skip(j + 1);
        let one = seq![x];
        assert(b =~= front + (one + back));
        assert(b1 =~= front + back);
        lemma_contributions_append(front, one + back, key);
        lemma_contributions_append(one, back, key);
        lemma_contributions_append(front, back, key);
        lemma_contributions_append(a1, one, key);
        assert(a =~= a1 + one);
        let p = contributions(front, key);
        let q = contributions(back, key);
        let m = contributions(one, key);
        lemma_multiset_commutative(p, m + q);
        lemma_multiset_commutative(m, q);
        lemma_multiset_commutative(p, q);
        lemma_multiset_commutative(contributions(a1, key), m);
        assert(contributions(a, key).to_multiset() =~= contributions(b, key).to_multiset());

        if some_object_has(a, key) {
            let i = choose|i: int| 0 <= i < a.len() && #[trigger] a[i].contains_key(key);
            if i < a1.len() {
                assert(a1[i].contains_key(key));
                let w = choose|w: int| 0 <= w < b1.len() && #[trigger] b1[w].contains_key(key);
                if w < j {
                    assert(b[w].contains_key(key));
                } else {
                    assert(b[w + 1].contains_key(key));
                }
            } else {
                assert(b[j].contains_key(key));
            }
        }
        if some_object_has(b, key) {
            let i = choose|i: int| 0 <= i < b.len() && #[trigger] b[i].contains_key(key);
            if i == j {
                assert(a[a.len() - 1].contains_key(key));
            } else {
                let w = if i < j {
                    i
                } else {
                    i - 1
                };
                assert(b1[w].contains_key(key));
                let v = choose|v: int| 0 <= v < a1.len() && #[trigger] a1[v].contains_key(key);
                assert(a[v].contains_key(key));
            }
        }
    } else {
        assert(b.len() == 0);
    }
}

/// An object without keys changes nothing.
pub proof fn lemma_merge_empty_object<T>(objects: Seq<Map<Seq<char>, T>>)
    ensures
        merged_groups(objects.push(Map::empty())) == merged_groups(objects),
{
    let more = objects.push(Map::<Seq<char>, T>::empty());
    assert(more.drop_last() =~= objects);
    assert forall|key: Seq<char>| some_object_has(more, key) == some_object_has(
        objects,
        key,
    ) by {
        if some_object_has(more, key) {
            let i = choose|i: int| 0 <= i < more.len() && #[trigger] more[i].contains_key(key);
            assert(i < objects.len());
            assert(objects[i] == more[i]);
        }
        if some_object_has(objects, key) {
            let i = choose|i: int|
                0 <= i < objects.len() && #[trigger] objects[i].contains_key(key);
            assert(more[i] == objects[i]);
        }
    }
    assert(merged_groups(more) =~= merged_groups(objects));
}

/// What one more entry of the last object adds: its value goes to the end
/// of the list of its key.
pub proof fn lemma_merge_one_entry<T>(
    objects: Seq<Map<Seq<char>, T>>,
    last: Map<Seq<char>, T>,
    key: Seq<char>,
    value: T,
)
    requires
        !last.contains_key(key),
    ensures
        contributions(objects.push(last), key) == contributions(objects, key),
        merged_groups(objects.push(last.insert(key, value))) == merged_groups(
            objects.push(last),
        ).insert(key, contributions(objects, key).push(value)),
{
    let before = objects.push(last);
    let after = objects.push(last.insert(key, value));
    assert(before.drop_last() =~= objects);
    assert(after.drop_last() =~= objects);
    let target = merged_groups(before).insert(key, contributions(objects, key).push(value));
    assert forall|q: Seq<char>| #[trigger]
        merged_groups(after).dom().contains(q) == target.dom().contains(q) by {
        if some_object_has(after, q) {
            let i = choose|i: int| 0 <= i < after.len() && #[trigger] after[i].contains_key(q);
            if q != key {
                assert(before[i].contains_key(q));
            }
        }
        if q == key {
            assert(after[after.len() - 1].contains_key(key));
        } else if some_object_has(before, q) {
            let i = choose|i: int| 0 <= i < before.len() && #[trigger] before[i].contains_key(q);
            assert(after[i].contains_key(q));
        }
    }
}

/// The map of the first `n` entries of a table with these keys and values.
pub open spec fn prefix_map<T>(keys: Seq<Seq<char>>, values: Seq<T>, n: int) -> Map<
    Seq<char>,
    T,
> {
    table_map(keys.take(n), values.take(n))
}

/// How the map of a prefix grows by the next entry.
pub proof fn lemma_prefix_map_step<T>(keys: Seq<Seq<char>>, values: Seq<T>, n: int)
    requires
        keys.no_duplicates(),
        keys.len() == values.len(),
        0 <= n < keys.len(),
    ensures
        !prefix_map(keys, values, n).contains_key(keys[n]),
        prefix_map(keys, values, n + 1) == prefix_map(keys, values, n).insert(keys[n], values[n]),
        prefix_map(keys, values, 0) == Map::<Seq<char>, T>::empty(),
        prefix_map(keys, values, keys.len() as int) == table_map(keys, values),
{
    let k1 = keys.take(n);
    let v1 = values.take(n);
    let k2 = keys.take(n + 1);
    let v2 = values.take(n + 1);
    assert(k2 =~= k1.push(keys[n]));
    assert(v2 =~= v1.push(values[n]));
    if k1.contains(keys[n]) {
        let j = k1.index_of(keys[n]);
        assert(k1[j] == keys[n]);
        assert(keys[j] == keys[n]);
    }
    crate::table::lemma_insert_view(k1, v1, k2, v2, keys[n], values[n]);
    assert(prefix_map(keys, values, 0) =~= Map::<Seq<char>, T>::empty());
    assert(keys.take(keys.len() as int) =~= keys);
    assert(values.take(keys.len() as int) =~= values);
}

} // verus!
