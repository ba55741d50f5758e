//! Lists of key and value pairs in which a key stands at most once, kept in
//! the order in which the keys were first put in.

use vstd::prelude::*;

verus! {

/// The place of the last pair with key `k`, if there is one.
pub open spec fn assoc_index<K, V>(s: Seq<(K, V)>, k: K) -> Option<int>
    decreases s.len(),
{
    if s.len() == 0 {
        None
    } else if s.last().0 == k {
        Some(s.len() - 1)
    } else {
        assoc_index(s.drop_last(), k)
    }
}

/// The value that the list holds for `k`, if any.
pub open spec fn assoc_get<K, V>(s: Seq<(K, V)>, k: K) -> Option<V> {
    match assoc_index(s, k) {
        Some(i) => Some(s[i].1),
        None => None,
    }
}

/// The list after `k` was given the value `v`: the pair of `k` is replaced
/// where it stands, or a new pair comes last.
pub open spec fn assoc_put<K, V>(s: Seq<(K, V)>, k: K, v: V) -> Seq<(K, V)> {
    match assoc_index(s, k) {
        Some(i) => s.update(i, (k, v)),
        None => s.push((k, v)),
    }
}

/// No key stands twice.
pub open spec fn unique_keys<K, V>(s: Seq<(K, V)>) -> bool {
    forall|i: int, j: int| 0 <= i < j < s.len() ==> s[i].0 != s[j].0
}

/// What `assoc_index` finds: a pair with that key and none after it, or
/// that no pair has the key.
pub proof fn lemma_assoc_index<K, V>(s: Seq<(K, V)>, k: K)
    ensures
        match assoc_index(s, k) {
            Some(i) => 0 <= i < s.len() && s[i].0 == k && forall|j: int|
                i < j < s.len() ==> s[j].0 != k,
            None => forall|j: int| 0 <= j < s.len() ==> s[j].0 != k,
        },
    decreases s.len(),
{
    if s.len() > 0 && s.last().0 != k {
        let t = s.drop_last();
        lemma_assoc_index(t, k);
        assert(forall|j: int| 0 <= j < t.len() ==> t[j] == s[j]);
        match assoc_index(t, k) {
            Some(i) => {
                assert forall|j: int| i < j < s.len() implies s[j].0 != k by {
                    if j < t.len() {
                        assert(t[j] == s[j]);
                    }
                }
            },
            None => {
                assert forall|j: int| 0 <= j < s.len() implies s[j].0 != k by {
                    if j < t.len() {
                        assert(t[j] == s[j]);
                    }
                }
            },
        }
    }
}

/// In a list without repeated keys, a pair is found by its key.
pub proof fn lemma_assoc_index_unique<K, V>(s: Seq<(K, V)>, i: int)
    requires
        unique_keys(s),
        0 <= i < s.len(),
    ensures
        assoc_index(s, s[i].0) == Some(i),
{
    lemma_assoc_index(s, s[i].0);
}

/// Putting a key keeps the keys unique, makes the key hold the new value,
/// and leaves every other key as it was.
pub proof fn lemma_assoc_put<K, V>(s: Seq<(K, V)>, k: K, v: V, other: K)
    requires
        unique_keys(s),
    ensures
        unique_keys(assoc_put(s, k, v)),
        assoc_get(assoc_put(s, k, v), k) == Some(v),
        other != k ==> assoc_get(assoc_put(s, k, v), other) == assoc_get(s, other),
        other != k ==> assoc_index(assoc_put(s, k, v), other) == assoc_index(s, other),
{
    let t = assoc_put(s, k, v);
    lemma_assoc_index(s, k);
    lemma_assoc_index(s, other);
    lemma_assoc_index(t, k);
    lemma_assoc_index(t, other);
    match assoc_index(s, k) {
        Some(i) => {
            assert(t.len() == s.len());
            assert(forall|j: int| 0 <= j < s.len() && j != i ==> t[j] == s[j]);
            assert(t[i] == (k, v));
            assert(unique_keys(t)) by {
                assert forall|a: int, b: int| 0 <= a < b < t.len() implies t[a].0 != t[b].0 by {
                    assert(t[a].0 == s[a].0);
                    assert(t[b].0 == s[b].0);
                }
            }
            lemma_assoc_index_unique(t, i);
            if other != k {
                match assoc_index(s, other) {
                    Some(j) => {
                        assert(t[j] == s[j]);
                        lemma_assoc_index_unique(t, j);
                    },
                    None => {
                        assert(forall|j: int| 0 <= j < t.len() ==> t[j].0 == s[j].0);
                    },
                }
            }
        },
        None => {
            assert(t.drop_last() =~= s);
        },
    }
}

} // verus!
