//! Association lists as maps: the specification side of every keyed
//! collection of the ledger.
//!
//! A collection stores its entries in a vector. Its mathematical content is
//! the map from each key to the value stored with it, which is well defined
//! where no key occurs twice.
use vstd::prelude::*;

verus! {

/// Some entry of `s` has the key `k`.
pub open spec fn has_key<K, V>(s: Seq<(K, V)>, k: K) -> bool {
    exists|i: int| 0 <= i < s.len() && (#[trigger] s[i]).0 == k
}

/// The position of an entry with the key `k`.
pub open spec fn index_of<K, V>(s: Seq<(K, V)>, k: K) -> int {
    choose|i: int| 0 <= i < s.len() && (#[trigger] s[i]).0 == k
}

/// No key occurs twice in `s`.
pub open spec fn distinct_keys<K, V>(s: Seq<(K, V)>) -> bool {
    forall|i: int, j: int| 0 <= i < j < s.len() ==> (#[trigger] s[i]).0 != (#[trigger] s[j]).0
}

/// The map that the entries of `s` describe.
pub open spec fn to_map<K, V>(s: Seq<(K, V)>) -> Map<K, V> {
    Map::new(|k: K| has_key(s, k), |k: K| s[index_of(s, k)].1)
}

/// The entry at position `i` is what the map holds under its key.
pub proof fn lemma_lookup<K, V>(s: Seq<(K, V)>, i: int)
    requires
        distinct_keys(s),
        0 <= i < s.len(),
    ensures
        to_map(s).dom().contains(s[i].0),
        to_map(s)[s[i].0] == s[i].1,
        index_of(s, s[i].0) == i,
{
    let k = s[i].0;
    assert(has_key(s, k));
    let j = index_of(s, k);
    assert(0 <= j < s.len() && s[j].0 == k);
    if j < i {
        assert(s[j].0 != s[i].0);
    } else if i < j {
        assert(s[i].0 != s[j].0);
    }
}

/// A key that no entry has is not in the map.
pub proof fn lemma_absent<K, V>(s: Seq<(K, V)>, k: K)
    requires
        forall|i: int| 0 <= i < s.len() ==> (#[trigger] s[i]).0 != k,
    ensures
        !to_map(s).dom().contains(k),
{
}

/// The empty list describes the empty map.
pub proof fn lemma_empty<K, V>()
    ensures
        to_map(Seq::<(K, V)>::empty()) == Map::<K, V>::empty(),
        distinct_keys(Seq::<(K, V)>::empty()),
{
    assert(to_map(Seq::<(K, V)>::empty()) =~= Map::<K, V>::empty());
}

/// Putting an entry with a new key anywhere into the list inserts it into
/// the map.
pub proof fn lemma_insert<K, V>(s: Seq<(K, V)>, i: int, e: (K, V))
    requires
        distinct_keys(s),
        !has_key(s, e.0),
        0 <= i <= s.len(),
    ensures
        distinct_keys(s.insert(i, e)),
        to_map(s.insert(i, e)) == to_map(s).insert(e.0, e.1),
{
    let t = s.insert(i, e);
    assert forall|a: int, b: int| 0 <= a < b < t.len() implies (#[trigger] t[a]).0 != (
    #[trigger] t[b]).0 by {
        let a0 = if a < i {
            a
        } else {
            a - 1
        };
        let b0 = if b < i {
            b
        } else {
            b - 1
        };
        if a == i {
            assert(t[b] == s[b0]);
            assert(s[b0].0 != e.0);
        } else if b == i {
            assert(t[a] == s[a0]);
            assert(s[a0].0 != e.0);
        } else {
            assert(t[a] == s[a0]);
            assert(t[b] == s[b0]);
            assert(s[a0].0 != s[b0].0);
        }
    }
    assert forall|k: K| to_map(t).dom().contains(k) <==> to_map(s).insert(
        e.0,
        e.1,
    ).dom().contains(k) by {
        if has_key(t, k) {
            let j = index_of(t, k);
            if j < i {
                assert(t[j] == s[j]);
            } else if j > i {
                assert(t[j] == s[j - 1]);
            }
        }
        if k == e.0 {
            assert(t[i] == e);
        } else if has_key(s, k) {
            let j = index_of(s, k);
            if j < i {
                assert(t[j] == s[j]);
            } else {
                assert(t[j + 1] == s[j]);
            }
        }
    }
    assert forall|k: K| to_map(t).dom().contains(k) implies to_map(t)[k] == to_map(s).insert(
        e.0,
        e.1,
    )[k] by {
        let j = index_of(t, k);
        lemma_lookup(t, j);
        if j == i {
        } else if j < i {
            assert(t[j] == s[j]);
            lemma_lookup(s, j);
        } else {
            assert(t[j] == s[j - 1]);
            lemma_lookup(s, j - 1);
        }
    }
    assert(to_map(t) =~= to_map(s).insert(e.0, e.1));
}

/// Replacing the value of the entry at position `i` replaces it in the map.
pub proof fn lemma_update<K, V>(s: Seq<(K, V)>, i: int, v: V)
    requires
        distinct_keys(s),
        0 <= i < s.len(),
    ensures
        distinct_keys(s.update(i, (s[i].0, v))),
        to_map(s.update(i, (s[i].0, v))) == to_map(s).insert(s[i].0, v),
{
    let t = s.update(i, (s[i].0, v));
    assert forall|a: int, b: int| 0 <= a < b < t.len() implies (#[trigger] t[a]).0 != (
    #[trigger] t[b]).0 by {
        assert(t[a].0 == s[a].0);
        assert(t[b].0 == s[b].0);
    }
    assert forall|k: K| to_map(t).dom().contains(k) <==> to_map(s).insert(
        s[i].0,
        v,
    ).dom().contains(k) by {
        if has_key(t, k) {
            let j = index_of(t, k);
            assert(t[j].0 == s[j].0);
        }
        if k == s[i].0 {
            assert(t[i].0 == k);
        } else if has_key(s, k) {
            let j = index_of(s, k);
            assert(t[j].0 == s[j].0);
        }
    }
    assert forall|k: K| to_map(t).dom().contains(k) implies to_map(t)[k] == to_map(s).insert(
        s[i].0,
        v,
    )[k] by {
        let j = index_of(t, k);
        lemma_lookup(t, j);
        if j != i {
            assert(t[j] == s[j]);
            lemma_lookup(s, j);
        }
    }
    assert(to_map(t) =~= to_map(s).insert(s[i].0, v));
}

/// Taking the entry at position `i` out of the list removes its key from
/// the map.
pub proof fn lemma_remove<K, V>(s: Seq<(K, V)>, i: int)
    requires
        distinct_keys(s),
        0 <= i < s.len(),
    ensures
        distinct_keys(s.remove(i)),
        to_map(s.remove(i)) == to_map(s).remove(s[i].0),
{
    let t = s.remove(i);
    assert forall|a: int, b: int| 0 <= a < b < t.len() implies (#[trigger] t[a]).0 != (
    #[trigger] t[b]).0 by {
        let a0 = if a < i {
            a
        } else {
            a + 1
        };
        let b0 = if b < i {
            b
        } else {
            b + 1
        };
        assert(t[a] == s[a0]);
        assert(t[b] == s[b0]);
        assert(s[a0].0 != s[b0].0);
    }
    assert forall|k: K| to_map(t).dom().contains(k) <==> to_map(s).remove(s[i].0).dom().contains(
        k,
    ) by {
        if has_key(t, k) {
            let j = index_of(t, k);
            let j0 = if j < i {
                j
            } else {
                j + 1
            };
            assert(t[j] == s[j0]);
            if j0 < i {
                assert(s[j0].0 != s[i].0);
            } else {
                assert(s[i].0 != s[j0].0);
            }
        }
        if k != s[i].0 && has_key(s, k) {
            let j = index_of(s, k);
            if j < i {
                assert(t[j] == s[j]);
            } else {
                assert(t[j - 1] == s[j]);
            }
        }
    }
    assert forall|k: K| to_map(t).dom().contains(k) implies to_map(t)[k] == to_map(s).remove(
        s[i].0,
    )[k] by {
        let j = index_of(t, k);
        lemma_lookup(t, j);
        let j0 = if j < i {
            j
        } else {
            j + 1
        };
        assert(t[j] == s[j0]);
        lemma_lookup(s, j0);
    }
    assert(to_map(t) =~= to_map(s).remove(s[i].0));
}

} // verus!
