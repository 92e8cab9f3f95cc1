//! Association sequences: finite maps kept as sequences of key/value pairs.
//!
//! The routing tables of the gateway keep their entries in insertion order.
//! These definitions give such a sequence its map meaning and prove how the
//! three table operations (put, delete, delete-many) act on that map.

use vstd::prelude::*;

verus! {

/// No key occurs twice.
pub open spec fn distinct_keys<K, V>(s: Seq<(K, V)>) -> bool {
    forall|i: int, j: int| 0 <= i < s.len() && 0 <= j < s.len() && i != j ==> s[i].0 != s[j].0
}

/// Index of the last entry with key `k`, or -1 when there is none.
pub open spec fn find<K, V>(s: Seq<(K, V)>, k: K) -> int
    decreases s.len(),
{
    if s.len() == 0 {
        -1
    } else if s.last().0 == k {
        s.len() - 1
    } else {
        find(s.drop_last(), k)
    }
}

/// The map that the entries describe; a later entry wins over an earlier one.
pub open spec fn to_map<K, V>(s: Seq<(K, V)>) -> Map<K, V>
    decreases s.len(),
{
    if s.len() == 0 {
        Map::empty()
    } else {
        to_map(s.drop_last()).insert(s.last().0, s.last().1)
    }
}

/// Sets the value of `k`: in place when `k` is present, appended otherwise.
pub open spec fn put<K, V>(s: Seq<(K, V)>, k: K, v: V) -> Seq<(K, V)> {
    let i = find(s, k);
    if i >= 0 {
        s.update(i, (k, v))
    } else {
        s.push((k, v))
    }
}

/// Removes the entry of `k`, if any, keeping the order of the others.
pub open spec fn del<K, V>(s: Seq<(K, V)>, k: K) -> Seq<(K, V)> {
    let i = find(s, k);
    if i >= 0 {
        s.remove(i)
    } else {
        s
    }
}

/// Removes the entries of all the given keys, one after the other.
pub open spec fn del_all<K, V>(s: Seq<(K, V)>, keys: Seq<K>) -> Seq<(K, V)>
    decreases keys.len(),
{
    if keys.len() == 0 {
        s
    } else {
        del(del_all(s, keys.drop_last()), keys.last())
    }
}

/// `find` returns the last index holding `k`, and -1 exactly when no entry holds `k`.
pub proof fn lemma_find<K, V>(s: Seq<(K, V)>, k: K)
    ensures
        -1 <= find(s, k) < s.len(),
        find(s, k) >= 0 ==> s[find(s, k)].0 == k,
        find(s, k) >= 0 ==> forall|j: int| find(s, k) < j < s.len() ==> s[j].0 != k,
        find(s, k) == -1 <==> forall|j: int| 0 <= j < s.len() ==> s[j].0 != k,
    decreases s.len(),
{
    if s.len() > 0 {
        let d = s.drop_last();
        lemma_find(d, k);
        assert forall|j: int| 0 <= j < d.len() implies d[j] == s[j] by {}
        if s.last().0 != k {
            if find(s, k) == -1 {
                assert forall|j: int| 0 <= j < s.len() implies s[j].0 != k by {
                    if j < d.len() {
                        assert(d[j] == s[j]);
                    }
                }
            }
        }
    }
}

/// With distinct keys, the index that holds `k` is the one `find` returns.
pub proof fn lemma_find_unique<K, V>(s: Seq<(K, V)>, k: K, i: int)
    requires
        distinct_keys(s),
        0 <= i < s.len(),
        s[i].0 == k,
    ensures
        find(s, k) == i,
{
    lemma_find(s, k);
}

/// The map holds `k` exactly when an entry does, with the value of the entry `find` names.
pub proof fn lemma_to_map<K, V>(s: Seq<(K, V)>, k: K)
    ensures
        to_map(s).contains_key(k) <==> find(s, k) >= 0,
        find(s, k) >= 0 ==> to_map(s)[k] == s[find(s, k)].1,
    decreases s.len(),
{
    if s.len() > 0 {
        let d = s.drop_last();
        lemma_to_map(d, k);
        if s.last().0 != k && find(d, k) >= 0 {
            lemma_find(d, k);
            assert(d[find(d, k)] == s[find(d, k)]);
        }
    }
}

/// Every key of the map comes from an entry and every entry's key is in the map.
pub proof fn lemma_to_map_dom<K, V>(s: Seq<(K, V)>)
    ensures
        to_map(s).dom().finite(),
        forall|k: K| #[trigger] to_map(s).contains_key(k) <==> find(s, k) >= 0,
        forall|k: K| #[trigger] to_map(s).contains_key(k) ==> to_map(s)[k] == s[find(s, k)].1,
    decreases s.len(),
{
    if s.len() > 0 {
        lemma_to_map_dom(s.drop_last());
    }
    assert forall|k: K| #[trigger] to_map(s).contains_key(k) <==> find(s, k) >= 0 by {
        lemma_to_map(s, k);
    }
    assert forall|k: K| #[trigger] to_map(s).contains_key(k) implies to_map(s)[k] == s[find(s, k)].1 by {
        lemma_to_map(s, k);
    }
}

/// With distinct keys, entry `i` is what the map gives for its key.
pub proof fn lemma_to_map_entry<K, V>(s: Seq<(K, V)>, i: int)
    requires
        distinct_keys(s),
        0 <= i < s.len(),
    ensures
        to_map(s).contains_key(s[i].0),
        to_map(s)[s[i].0] == s[i].1,
{
    lemma_find_unique(s, s[i].0, i);
    lemma_to_map(s, s[i].0);
}

/// `put` keeps keys distinct and acts on the map as `insert`.
pub proof fn lemma_put<K, V>(s: Seq<(K, V)>, k: K, v: V)
    requires
        distinct_keys(s),
    ensures
        distinct_keys(put(s, k, v)),
        to_map(put(s, k, v)) == to_map(s).insert(k, v),
        find(s, k) >= 0 ==> put(s, k, v).len() == s.len(),
        find(s, k) < 0 ==> put(s, k, v).len() == s.len() + 1,
{
    lemma_find(s, k);
    let t = put(s, k, v);
    assert(distinct_keys(t));
    assert forall|q: K| #[trigger] to_map(t).contains_key(q) == to_map(s).insert(k, v).contains_key(q)
        && (to_map(t).contains_key(q) ==> to_map(t)[q] == to_map(s).insert(k, v)[q]) by {
        lemma_to_map(t, q);
        lemma_to_map(s, q);
        lemma_find(t, q);
        lemma_find(s, q);
        if q == k {
            if find(s, k) >= 0 {
                lemma_find_unique(t, k, find(s, k));
            } else {
                lemma_find_unique(t, k, s.len() as int);
            }
        } else if find(s, q) >= 0 {
            lemma_find_unique(t, q, find(s, q));
        }
    }
    assert(to_map(t) =~= to_map(s).insert(k, v));
}

/// `del` keeps keys distinct and acts on the map as `remove`.
pub proof fn lemma_del<K, V>(s: Seq<(K, V)>, k: K)
    requires
        distinct_keys(s),
    ensures
        distinct_keys(del(s, k)),
        to_map(del(s, k)) == to_map(s).remove(k),
{
    lemma_find(s, k);
    let t = del(s, k);
    let i = find(s, k);
    assert(distinct_keys(t));
    assert forall|q: K| #[trigger] to_map(t).contains_key(q) == to_map(s).remove(k).contains_key(q)
        && (to_map(t).contains_key(q) ==> to_map(t)[q] == to_map(s).remove(k)[q]) by {
        lemma_to_map(t, q);
        lemma_to_map(s, q);
        lemma_find(t, q);
        lemma_find(s, q);
        if i >= 0 {
            if find(s, q) >= 0 && q != k {
                let j = find(s, q);
                if j < i {
                    lemma_find_unique(t, q, j);
                } else {
                    lemma_find_unique(t, q, j - 1);
                }
            }
            if find(t, q) >= 0 {
                let j = find(t, q);
                if j < i {
                    assert(s[j].0 == q);
                } else {
                    assert(s[j + 1].0 == q);
                }
            }
        }
    }
    assert(to_map(t) =~= to_map(s).remove(k));
}

/// `del_all` keeps keys distinct and acts on the map as removing every listed key.
pub proof fn lemma_del_all<K, V>(s: Seq<(K, V)>, keys: Seq<K>)
    requires
        distinct_keys(s),
    ensures
        distinct_keys(del_all(s, keys)),
        to_map(del_all(s, keys)) == to_map(s).remove_keys(keys.to_set()),
    decreases keys.len(),
{
    if keys.len() > 0 {
        lemma_del_all(s, keys.drop_last());
        lemma_del(del_all(s, keys.drop_last()), keys.last());
        assert(keys.to_set() =~= keys.drop_last().to_set().insert(keys.last())) by {
            assert forall|x: K| keys.to_set().contains(x) <==> keys.drop_last().to_set().insert(keys.last()).contains(x) by {
                if keys.to_set().contains(x) {
                    let j = choose|j: int| 0 <= j < keys.len() && keys[j] == x;
                    if j < keys.len() - 1 {
                        assert(keys.drop_last()[j] == x);
                    }
                }
                if keys.drop_last().to_set().contains(x) {
                    let j = choose|j: int| 0 <= j < keys.drop_last().len() && keys.drop_last()[j] == x;
                    assert(keys[j] == x);
                }
            }
        }
        assert(to_map(del_all(s, keys)) =~= to_map(s).remove_keys(keys.to_set()));
    } else {
        assert(keys.to_set() =~= Set::empty());
        assert(to_map(s).remove_keys(keys.to_set()) =~= to_map(s));
    }
}

/// Index of the last occurrence of `x` in `s`, or -1 when there is none.
pub open spec fn item_index<A>(s: Seq<A>, x: A) -> int
    decreases s.len(),
{
    if s.len() == 0 {
        -1
    } else if s.last() == x {
        s.len() - 1
    } else {
        item_index(s.drop_last(), x)
    }
}

/// `s` without its occurrence of `x` (the last one, should there be several).
pub open spec fn remove_item<A>(s: Seq<A>, x: A) -> Seq<A> {
    let i = item_index(s, x);
    if i >= 0 {
        s.remove(i)
    } else {
        s
    }
}

/// `item_index` returns the last index holding `x`, and -1 exactly when `x` does not occur.
pub proof fn lemma_item_index<A>(s: Seq<A>, x: A)
    ensures
        -1 <= item_index(s, x) < s.len(),
        item_index(s, x) >= 0 ==> s[item_index(s, x)] == x,
        item_index(s, x) == -1 <==> !s.contains(x),
        s.no_duplicates() && item_index(s, x) >= 0 ==> forall|j: int| 0 <= j < s.len() && s[j] == x ==> j == item_index(s, x),
    decreases s.len(),
{
    if s.len() > 0 {
        let d = s.drop_last();
        lemma_item_index(d, x);
        if s.last() != x {
            if item_index(s, x) == -1 {
                assert forall|j: int| 0 <= j < s.len() implies s[j] != x by {
                    if j < d.len() {
                        assert(d[j] == s[j]);
                        assert(!d.contains(x));
                    }
                }
            } else {
                assert(d[item_index(d, x)] == s[item_index(d, x)]);
            }
            if s.contains(x) {
                let j = choose|j: int| 0 <= j < s.len() && s[j] == x;
                assert(d[j] == x);
            }
        }
    }
}

/// Removing an item from a list without duplicates keeps the other items and no duplicates.
pub proof fn lemma_remove_item<A>(s: Seq<A>, x: A)
    requires
        s.no_duplicates(),
    ensures
        remove_item(s, x).no_duplicates(),
        forall|y: A| #[trigger] remove_item(s, x).contains(y) <==> (s.contains(y) && y != x),
{
    lemma_item_index(s, x);
    let i = item_index(s, x);
    let t = remove_item(s, x);
    if i >= 0 {
        assert forall|a: int, b: int| 0 <= a < t.len() && 0 <= b < t.len() && a != b implies t[a] != t[b] by {
            let a2 = if a < i { a } else { a + 1 };
            let b2 = if b < i { b } else { b + 1 };
            assert(t[a] == s[a2] && t[b] == s[b2]);
        }
        assert forall|y: A| #[trigger] t.contains(y) <==> (s.contains(y) && y != x) by {
            if t.contains(y) {
                let a = choose|a: int| 0 <= a < t.len() && t[a] == y;
                let a2 = if a < i { a } else { a + 1 };
                assert(s[a2] == y);
                assert(a2 != i);
            }
            if s.contains(y) && y != x {
                let a2 = choose|a2: int| 0 <= a2 < s.len() && s[a2] == y;
                assert(a2 != i);
                if a2 < i {
                    assert(t[a2] == y);
                } else {
                    assert(t[a2 - 1] == y);
                }
            }
        }
    }
}

/// Appending an absent item keeps no duplicates.
pub proof fn lemma_push_new_item<A>(s: Seq<A>, x: A)
    requires
        s.no_duplicates(),
        !s.contains(x),
    ensures
        s.push(x).no_duplicates(),
        forall|y: A| #[trigger] s.push(x).contains(y) <==> (s.contains(y) || y == x),
{
    let t = s.push(x);
    assert forall|a: int, b: int| 0 <= a < t.len() && 0 <= b < t.len() && a != b implies t[a] != t[b] by {
        if a < s.len() && b < s.len() {
            assert(t[a] == s[a] && t[b] == s[b]);
        } else if a < s.len() {
            assert(t[a] == s[a]);
        } else {
            assert(t[b] == s[b]);
        }
    }
    assert forall|y: A| #[trigger] t.contains(y) <==> (s.contains(y) || y == x) by {
        if t.contains(y) {
            let a = choose|a: int| 0 <= a < t.len() && t[a] == y;
            if a < s.len() {
                assert(s[a] == y);
            }
        }
        if s.contains(y) {
            let a = choose|a: int| 0 <= a < s.len() && s[a] == y;
            assert(t[a] == y);
        }
        if y == x {
            assert(t[s.len() as int] == x);
        }
    }
}

} // verus!
