//! Association lists read as maps: the model behind the manager's tables.

use vstd::prelude::*;

verus! {

/// Whether no key occurs twice among the pairs.
pub open spec fn unique_keys<K, V>(s: Seq<(K, V)>) -> bool {
    forall|i: int, j: int| 0 <= i < s.len() && 0 <= j < s.len() && i != j ==> (#[trigger] s[i]).0
        != (#[trigger] s[j]).0
}

/// Whether some pair has the key `k`.
pub open spec fn has_key<K, V>(s: Seq<(K, V)>, k: K) -> bool {
    exists|i: int| 0 <= i < s.len() && (#[trigger] s[i]).0 == k
}

/// The place of a pair with the key `k`.
pub open spec fn index_of<K, V>(s: Seq<(K, V)>, k: K) -> int {
    choose|i: int| 0 <= i < s.len() && (#[trigger] s[i]).0 == k
}

/// The map that sends each key among the pairs to the value beside it.
pub open spec fn as_map<K, V>(s: Seq<(K, V)>) -> Map<K, V> {
    Map::new(|k: K| has_key(s, k), |k: K| s[index_of(s, k)].1)
}

/// With unique keys, the pair at `i` is what the map holds for its key.
pub proof fn lemma_as_map_at<K, V>(s: Seq<(K, V)>, i: int)
    requires
        unique_keys(s),
        0 <= i < s.len(),
    ensures
        as_map(s).contains_key(s[i].0),
        as_map(s)[s[i].0] == s[i].1,
        index_of(s, s[i].0) == i,
{
    let k = s[i].0;
    assert(has_key(s, k));
    let j = index_of(s, k);
    assert(0 <= j < s.len() && s[j].0 == k);
    if j != i {
        assert(s[i].0 != s[j].0);
    }
}

/// Every key of the map is the key of some pair.
pub proof fn lemma_as_map_key<K, V>(s: Seq<(K, V)>, k: K)
    requires
        as_map(s).contains_key(k),
    ensures
        0 <= index_of(s, k) < s.len(),
        s[index_of(s, k)].0 == k,
        as_map(s)[k] == s[index_of(s, k)].1,
{
    assert(has_key(s, k));
}

/// A key that no pair has is no key of the map.
pub proof fn lemma_as_map_absent<K, V>(s: Seq<(K, V)>, k: K)
    requires
        forall|i: int| 0 <= i < s.len() ==> (#[trigger] s[i]).0 != k,
    ensures
        !as_map(s).contains_key(k),
{
}

/// The empty list is the empty map.
pub proof fn lemma_as_map_empty<K, V>()
    ensures
        as_map(Seq::<(K, V)>::empty()) == Map::<K, V>::empty(),
        unique_keys(Seq::<(K, V)>::empty()),
{
    assert(as_map(Seq::<(K, V)>::empty()) =~= Map::<K, V>::empty());
}

/// Appending a pair with a new key inserts it into the map.
pub proof fn lemma_as_map_push<K, V>(s: Seq<(K, V)>, k: K, v: V)
    requires
        unique_keys(s),
        !as_map(s).contains_key(k),
    ensures
        unique_keys(s.push((k, v))),
        as_map(s.push((k, v))) == as_map(s).insert(k, v),
{
    let t = s.push((k, v));
    assert forall|i: int, j: int| 0 <= i < t.len() && 0 <= j < t.len() && i != j implies (
    #[trigger] t[i]).0 != (#[trigger] t[j]).0 by {
        if i < s.len() && j < s.len() {
            assert(s[i].0 != s[j].0);
        } else if i < s.len() {
            assert(has_key(s, s[i].0));
        } else {
            assert(has_key(s, s[j].0));
        }
    }
    assert forall|q: K| as_map(t).contains_key(q) <==> as_map(s).insert(k, v).contains_key(
        q,
    ) by {
        if as_map(t).contains_key(q) {
            lemma_as_map_key(t, q);
            let i = index_of(t, q);
            if i < s.len() {
                assert(s[i].0 == q);
                assert(has_key(s, q));
            }
        }
        if as_map(s).contains_key(q) {
            lemma_as_map_key(s, q);
            let i = index_of(s, q);
            assert(t[i].0 == q);
            assert(has_key(t, q));
        }
        if q == k {
            assert(t[s.len() as int].0 == k);
            assert(has_key(t, q));
        }
    }
    assert forall|q: K| #[trigger] as_map(t).contains_key(q) implies as_map(t)[q] == as_map(
        s,
    ).insert(k, v)[q] by {
        lemma_as_map_key(t, q);
        let i = index_of(t, q);
        lemma_as_map_at(t, i);
        if i < s.len() {
            assert(t[i] == s[i]);
            lemma_as_map_at(s, i);
        }
    }
    assert(as_map(t) =~= as_map(s).insert(k, v));
}

/// Replacing the value of the pair at `i` updates the map at its key.
pub proof fn lemma_as_map_update<K, V>(s: Seq<(K, V)>, i: int, v: V)
    requires
        unique_keys(s),
        0 <= i < s.len(),
    ensures
        unique_keys(s.update(i, (s[i].0, v))),
        as_map(s.update(i, (s[i].0, v))) == as_map(s).insert(s[i].0, v),
{
    let k = s[i].0;
    let t = s.update(i, (k, v));
    assert forall|a: int, b: int| 0 <= a < t.len() && 0 <= b < t.len() && a != b implies (
    #[trigger] t[a]).0 != (#[trigger] t[b]).0 by {
        assert(t[a].0 == s[a].0);
        assert(t[b].0 == s[b].0);
    }
    assert forall|q: K| as_map(t).contains_key(q) <==> as_map(s).insert(k, v).contains_key(
        q,
    ) by {
        if as_map(t).contains_key(q) {
            lemma_as_map_key(t, q);
            let j = index_of(t, q);
            assert(s[j].0 == q);
            assert(has_key(s, q));
        }
        if as_map(s).contains_key(q) {
            lemma_as_map_key(s, q);
            let j = index_of(s, q);
            assert(t[j].0 == q);
            assert(has_key(t, q));
        }
        if q == k {
            assert(t[i].0 == k);
            assert(has_key(t, q));
        }
    }
    assert forall|q: K| #[trigger] as_map(t).contains_key(q) implies as_map(t)[q] == as_map(
        s,
    ).insert(k, v)[q] by {
        lemma_as_map_key(t, q);
        let j = index_of(t, q);
        lemma_as_map_at(t, j);
        if j != i {
            assert(t[j] == s[j]);
            lemma_as_map_at(s, j);
        }
    }
    assert(as_map(t) =~= as_map(s).insert(k, v));
}

/// Taking out the pair at `i` removes its key from the map.
pub proof fn lemma_as_map_remove<K, V>(s: Seq<(K, V)>, i: int)
    requires
        unique_keys(s),
        0 <= i < s.len(),
    ensures
        unique_keys(s.remove(i)),
        as_map(s.remove(i)) == as_map(s).remove(s[i].0),
{
    let k = s[i].0;
    let t = s.remove(i);
    assert forall|a: int| 0 <= a < t.len() implies #[trigger] t[a] == s[if a < i {
        a
    } else {
        a + 1
    }] by {}
    assert forall|a: int, b: int| 0 <= a < t.len() && 0 <= b < t.len() && a != b implies (
    #[trigger] t[a]).0 != (#[trigger] t[b]).0 by {
        let a2 = if a < i {
            a
        } else {
            a + 1
        };
        let b2 = if b < i {
            b
        } else {
            b + 1
        };
        assert(t[a] == s[a2]);
        assert(t[b] == s[b2]);
        assert(s[a2].0 != s[b2].0);
    }
    assert forall|q: K| as_map(t).contains_key(q) <==> as_map(s).remove(k).contains_key(q) by {
        if as_map(t).contains_key(q) {
            lemma_as_map_key(t, q);
            let j = index_of(t, q);
            let j2 = if j < i {
                j
            } else {
                j + 1
            };
            assert(t[j] == s[j2]);
            assert(has_key(s, q));
            assert(s[j2].0 != s[i].0);
        }
        if as_map(s).remove(k).contains_key(q) {
            lemma_as_map_key(s, q);
            let j = index_of(s, q);
            assert(j != i);
            let j3 = if j < i {
                j
            } else {
                j - 1
            };
            assert(t[j3] == s[j]);
            assert(has_key(t, q));
        }
    }
    assert forall|q: K| #[trigger] as_map(t).contains_key(q) implies as_map(t)[q] == as_map(
        s,
    ).remove(k)[q] by {
        lemma_as_map_key(t, q);
        let j = index_of(t, q);
        lemma_as_map_at(t, j);
        let j2 = if j < i {
            j
        } else {
            j + 1
        };
        assert(t[j] == s[j2]);
        lemma_as_map_at(s, j2);
    }
    assert(as_map(t) =~= as_map(s).remove(k));
}

/// Changing every value by `f` changes every value of the map by `f`.
pub proof fn lemma_as_map_values<K, V, W>(s: Seq<(K, V)>, t: Seq<(K, W)>, f: spec_fn(V) -> W)
    requires
        unique_keys(s),
        t.len() == s.len(),
        forall|i: int| 0 <= i < s.len() ==> (#[trigger] t[i]) == (s[i].0, f(s[i].1)),
    ensures
        unique_keys(t),
        as_map(t) == as_map(s).map_values(f),
{
    assert forall|a: int, b: int| 0 <= a < t.len() && 0 <= b < t.len() && a != b implies (
    #[trigger] t[a]).0 != (#[trigger] t[b]).0 by {
        assert(t[a].0 == s[a].0);
        assert(t[b].0 == s[b].0);
    }
    assert forall|q: K| as_map(t).contains_key(q) <==> as_map(s).map_values(f).contains_key(
        q,
    ) by {
        if as_map(t).contains_key(q) {
            lemma_as_map_key(t, q);
            let j = index_of(t, q);
            assert(s[j].0 == q);
            assert(has_key(s, q));
        }
        if as_map(s).contains_key(q) {
            lemma_as_map_key(s, q);
            let j = index_of(s, q);
            assert(t[j].0 == q);
            assert(has_key(t, q));
        }
    }
    assert forall|q: K| #[trigger] as_map(t).contains_key(q) implies as_map(t)[q] == as_map(
        s,
    ).map_values(f)[q] by {
        lemma_as_map_key(t, q);
        let j = index_of(t, q);
        lemma_as_map_at(t, j);
        lemma_as_map_at(s, j);
    }
    assert(as_map(t) =~= as_map(s).map_values(f));
}

} // verus!
