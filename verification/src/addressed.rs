use vstd::prelude::*;

verus! {

// The ledger stores records in no particular order, but every record is
// reachable only at the address derived from its own fields. This module
// gives the abstraction: a sequence of records, each carrying its derived
// address, viewed as the content-addressed map from address to record. All
// protocol contracts speak of that map; the lemmas below carry sequence
// edits (append, in-place overwrite, removal) over to map edits.

/// The content-addressed map of a record sequence: each record sits at the
/// address `key` derives from it. A later record shadows an earlier one with
/// the same address, but under `keys_unique` no such pair exists.
pub open spec fn keyed_map<K, T>(s: Seq<T>, key: spec_fn(T) -> K) -> Map<K, T>
    decreases s.len(),
{
    if s.len() == 0 {
        Map::empty()
    } else {
        keyed_map(s.drop_last(), key).insert(key(s.last()), s.last())
    }
}

/// No two records of the sequence derive the same address.
pub open spec fn keys_unique<K, T>(s: Seq<T>, key: spec_fn(T) -> K) -> bool {
    forall|i: int, j: int| 0 <= i < j < s.len() ==> key(s[i]) != key(s[j])
}

/// An address is in the map exactly when some record of the sequence derives
/// it.
pub proof fn lemma_keyed_map_contains<K, T>(s: Seq<T>, key: spec_fn(T) -> K, k: K)
    ensures
        keyed_map(s, key).contains_key(k) <==> exists|i: int|
            0 <= i < s.len() && key(s[i]) == k,
    decreases s.len(),
{
    if s.len() == 0 {
    } else {
        let smaller = s.drop_last();
        lemma_keyed_map_contains(smaller, key, k);
        if keyed_map(s, key).contains_key(k) {
            if k == key(s.last()) {
                assert(key(s[s.len() - 1]) == k);
            } else {
                let i = choose|i: int| 0 <= i < smaller.len() && key(smaller[i]) == k;
                assert(key(s[i]) == k);
            }
        }
        if exists|i: int| 0 <= i < s.len() && key(s[i]) == k {
            let i = choose|i: int| 0 <= i < s.len() && key(s[i]) == k;
            if i < s.len() - 1 {
                assert(key(smaller[i]) == k);
            } else {
                assert(k == key(s.last()));
            }
        }
    }
}

/// Dropping the last record keeps the addresses of the rest unique.
pub proof fn lemma_keys_unique_drop_last<K, T>(s: Seq<T>, key: spec_fn(T) -> K)
    requires
        s.len() > 0,
        keys_unique(s, key),
    ensures
        keys_unique(s.drop_last(), key),
{
    assert forall|i: int, j: int|
        0 <= i < j < s.drop_last().len() implies key(s.drop_last()[i]) != key(
        s.drop_last()[j],
    ) by {
        assert(s.drop_last()[i] == s[i]);
        assert(s.drop_last()[j] == s[j]);
    }
}

/// Under unique addresses, the record at index `i` is the one the map holds
/// at its address.
pub proof fn lemma_keyed_map_index<K, T>(s: Seq<T>, key: spec_fn(T) -> K, i: int)
    requires
        keys_unique(s, key),
        0 <= i < s.len(),
    ensures
        keyed_map(s, key).contains_key(key(s[i])),
        keyed_map(s, key)[key(s[i])] == s[i],
    decreases s.len(),
{
    if i == s.len() - 1 {
        assert(s.last() == s[i]);
    } else {
        lemma_keys_unique_drop_last(s, key);
        lemma_keyed_map_index(s.drop_last(), key, i);
        assert(s.drop_last()[i] == s[i]);
        assert(key(s[i]) != key(s[s.len() - 1]));
    }
}

/// Appending a record inserts it into the map at its derived address.
pub proof fn lemma_keyed_map_push<K, T>(s: Seq<T>, key: spec_fn(T) -> K, x: T)
    ensures
        keyed_map(s.push(x), key) == keyed_map(s, key).insert(key(x), x),
{
    assert(s.push(x).drop_last() =~= s);
    assert(s.push(x).last() == x);
}

/// Appending a record at a fresh address keeps the addresses unique.
pub proof fn lemma_keys_unique_push<K, T>(s: Seq<T>, key: spec_fn(T) -> K, x: T)
    requires
        keys_unique(s, key),
        forall|i: int| 0 <= i < s.len() ==> key(s[i]) != key(x),
    ensures
        keys_unique(s.push(x), key),
{
    let t = s.push(x);
    assert forall|i: int, j: int| 0 <= i < j < t.len() implies key(t[i]) != key(t[j]) by {
        if j < s.len() {
            assert(t[i] == s[i]);
            assert(t[j] == s[j]);
        } else {
            assert(t[i] == s[i]);
            assert(t[j] == x);
        }
    }
}

/// Overwriting the record at index `i` with one deriving the same address
/// updates the map at that address and keeps the addresses unique.
pub proof fn lemma_keyed_map_update<K, T>(s: Seq<T>, key: spec_fn(T) -> K, i: int, x: T)
    requires
        keys_unique(s, key),
        0 <= i < s.len(),
        key(x) == key(s[i]),
    ensures
        keyed_map(s.update(i, x), key) == keyed_map(s, key).insert(key(x), x),
        keys_unique(s.update(i, x), key),
    decreases s.len(),
{
    let t = s.update(i, x);
    if i == s.len() - 1 {
        assert(t.drop_last() =~= s.drop_last());
        assert(t.last() == x);
        assert(keyed_map(s.drop_last(), key).insert(key(x), x) =~= keyed_map(s, key).insert(
            key(x),
            x,
        ));
    } else {
        lemma_keys_unique_drop_last(s, key);
        lemma_keyed_map_update(s.drop_last(), key, i, x);
        assert(t.drop_last() =~= s.drop_last().update(i, x));
        assert(t.last() == s.last());
        assert(key(x) != key(s.last())) by {
            assert(key(s[i]) != key(s[s.len() - 1]));
        }
        assert(keyed_map(s.drop_last(), key).insert(key(x), x).insert(key(s.last()), s.last())
            =~= keyed_map(s, key).insert(key(x), x));
    }
    assert forall|p: int, q: int| 0 <= p < q < t.len() implies key(t[p]) != key(t[q]) by {
        assert(key(t[p]) == key(s[p]));
        assert(key(t[q]) == key(s[q]));
    }
}

/// Removing the record at index `i` removes its derived address from the map
/// and keeps the remaining addresses unique.
pub proof fn lemma_keyed_map_remove<K, T>(s: Seq<T>, key: spec_fn(T) -> K, i: int)
    requires
        keys_unique(s, key),
        0 <= i < s.len(),
    ensures
        keyed_map(s.remove(i), key) == keyed_map(s, key).remove(key(s[i])),
        keys_unique(s.remove(i), key),
    decreases s.len(),
{
    let t = s.remove(i);
    if i == s.len() - 1 {
        assert(t =~= s.drop_last());
        lemma_keyed_map_contains(s.drop_last(), key, key(s[i]));
        assert(forall|j: int|
            0 <= j < s.drop_last().len() ==> key(#[trigger] s.drop_last()[j]) != key(s[i])) by {
            assert(forall|j: int| 0 <= j < s.len() - 1 ==> key(#[trigger] s[j]) != key(
                s[s.len() - 1],
            ));
        }
        assert(!keyed_map(s.drop_last(), key).contains_key(key(s[i])));
        assert(keyed_map(s, key).remove(key(s[i])) =~= keyed_map(s.drop_last(), key));
    } else {
        lemma_keys_unique_drop_last(s, key);
        lemma_keyed_map_remove(s.drop_last(), key, i);
        assert(t.drop_last() =~= s.drop_last().remove(i));
        assert(t.last() == s.last());
        assert(key(s[i]) != key(s.last())) by {
            assert(key(s[i]) != key(s[s.len() - 1]));
        }
        assert(keyed_map(s.drop_last(), key).remove(key(s[i])).insert(key(s.last()), s.last())
            =~= keyed_map(s, key).remove(key(s[i])));
    }
    assert forall|p: int, q: int| 0 <= p < q < t.len() implies key(t[p]) != key(t[q]) by {
        let p2: int = if p < i {
            p
        } else {
            p + 1
        };
        let q2: int = if q < i {
            q
        } else {
            q + 1
        };
        assert(t[p] == s[p2]);
        assert(t[q] == s[q2]);
        assert(key(s[p2]) != key(s[q2]));
    }
}

} // verus!
