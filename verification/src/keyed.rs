//! Lists of (key, value) pairs whose keys are distinct, read as maps from
//! key to value.

use vstd::prelude::*;

verus! {

/// No key appears twice.
pub open spec fn distinct_keys<K, W>(s: Seq<(K, W)>) -> bool {
    forall|i: int, j: int| 0 <= i < j < s.len() ==> (#[trigger] s[i]).0 != (#[trigger] s[j]).0
}

/// Whether some pair has key `k`.
pub open spec fn has_key<K, W>(s: Seq<(K, W)>, k: K) -> bool {
    exists|i: int| 0 <= i < s.len() && (#[trigger] s[i]).0 == k
}

/// The pairs as a map from key to value.
pub open spec fn pairs_map<K, W>(s: Seq<(K, W)>) -> Map<K, W> {
    Map::new(
        |k: K| has_key(s, k),
        |k: K| s[choose|i: int| 0 <= i < s.len() && (#[trigger] s[i]).0 == k].1,
    )
}

/// With distinct keys, the map gives each pair's value for its key.
pub proof fn lemma_map_at<K, W>(s: Seq<(K, W)>, i: int)
    requires
        distinct_keys(s),
        0 <= i < s.len(),
    ensures
        pairs_map(s).contains_key(s[i].0),
        pairs_map(s)[s[i].0] == s[i].1,
{
    let k = s[i].0;
    assert(has_key(s, k));
    let j = choose|j: int| 0 <= j < s.len() && (#[trigger] s[j]).0 == k;
    if j != i {
        if j < i {
            assert(s[j].0 != s[i].0);
        } else {
            assert(s[i].0 != s[j].0);
        }
    }
}

/// Replacing the value of pair `i` is an insertion into the map.
pub proof fn lemma_map_update<K, W>(s: Seq<(K, W)>, i: int, v: W)
    requires
        distinct_keys(s),
        0 <= i < s.len(),
    ensures
        distinct_keys(s.update(i, (s[i].0, v))),
        pairs_map(s.update(i, (s[i].0, v))) == pairs_map(s).insert(s[i].0, v),
{
    let k = s[i].0;
    let t = s.update(i, (k, v));
    assert(distinct_keys(t)) by {
        assert forall|a: int, b: int| 0 <= a < b < t.len() implies (#[trigger] t[a]).0 != (#[trigger] t[b]).0 by {
            assert(s[a].0 != s[b].0);
        }
    }
    assert forall|x: K| has_key(t, x) <==> has_key(s, x) || x == k by {
        if has_key(t, x) {
            let j = choose|j: int| 0 <= j < t.len() && (#[trigger] t[j]).0 == x;
            assert(s[j].0 == x);
        }
        if has_key(s, x) {
            let j = choose|j: int| 0 <= j < s.len() && (#[trigger] s[j]).0 == x;
            assert(t[j].0 == x);
        }
        if x == k {
            assert(t[i].0 == x);
        }
    }
    assert forall|x: K| #[trigger] pairs_map(t).contains_key(x) implies pairs_map(t)[x] == pairs_map(s).insert(k, v)[x] by {
        let j = choose|j: int| 0 <= j < t.len() && (#[trigger] t[j]).0 == x;
        lemma_map_at(t, j);
        lemma_map_at(s, j);
    }
    assert(pairs_map(t) =~= pairs_map(s).insert(k, v));
}

/// Appending a pair with a new key is an insertion into the map.
pub proof fn lemma_map_push<K, W>(s: Seq<(K, W)>, k: K, v: W)
    requires
        distinct_keys(s),
        !has_key(s, k),
    ensures
        distinct_keys(s.push((k, v))),
        pairs_map(s.push((k, v))) == pairs_map(s).insert(k, v),
{
    let t = s.push((k, v));
    assert(distinct_keys(t)) by {
        assert forall|a: int, b: int| 0 <= a < b < t.len() implies (#[trigger] t[a]).0 != (#[trigger] t[b]).0 by {
            if b == s.len() {
                assert(s[a].0 == t[a].0);
            } else {
                assert(s[a].0 != s[b].0);
            }
        }
    }
    assert forall|x: K| has_key(t, x) <==> has_key(s, x) || x == k by {
        if has_key(t, x) {
            let j = choose|j: int| 0 <= j < t.len() && (#[trigger] t[j]).0 == x;
            if j < s.len() {
                assert(s[j].0 == x);
            }
        }
        if has_key(s, x) {
            let j = choose|j: int| 0 <= j < s.len() && (#[trigger] s[j]).0 == x;
            assert(t[j].0 == x);
        }
        if x == k {
            assert(t[s.len() as int].0 == x);
        }
    }
    assert forall|x: K| #[trigger] pairs_map(t).contains_key(x) implies pairs_map(t)[x] == pairs_map(s).insert(k, v)[x] by {
        let j = choose|j: int| 0 <= j < t.len() && (#[trigger] t[j]).0 == x;
        lemma_map_at(t, j);
        if j < s.len() {
            lemma_map_at(s, j);
        }
    }
    assert(pairs_map(t) =~= pairs_map(s).insert(k, v));
}

/// Dropping pair `i` removes its key from the map.
pub proof fn lemma_map_remove<K, W>(s: Seq<(K, W)>, i: int)
    requires
        distinct_keys(s),
        0 <= i < s.len(),
    ensures
        distinct_keys(s.remove(i)),
        pairs_map(s.remove(i)) == pairs_map(s).remove(s[i].0),
{
    let k = s[i].0;
    let t = s.remove(i);
    assert(distinct_keys(t)) by {
        assert forall|a: int, b: int| 0 <= a < b < t.len() implies (#[trigger] t[a]).0 != (#[trigger] t[b]).0 by {
            if b < i {
                assert(s[a].0 != s[b].0);
            } else if a < i {
                assert(s[a].0 != s[b + 1].0);
            } else {
                assert(s[a + 1].0 != s[b + 1].0);
            }
        }
    }
    assert forall|x: K| has_key(t, x) <==> has_key(s, x) && x != k by {
        if has_key(t, x) {
            let j = choose|j: int| 0 <= j < t.len() && (#[trigger] t[j]).0 == x;
            if j < i {
                assert(s[j].0 == x);
                assert(s[j].0 != s[i].0);
            } else {
                assert(s[j + 1].0 == x);
                assert(s[i].0 != s[j + 1].0);
            }
        }
        if has_key(s, x) && x != k {
            let j = choose|j: int| 0 <= j < s.len() && (#[trigger] s[j]).0 == x;
            if j < i {
                assert(t[j].0 == x);
            } else {
                assert(j != i);
                assert(t[j - 1].0 == x);
            }
        }
    }
    assert forall|x: K| #[trigger] pairs_map(t).contains_key(x) implies pairs_map(t)[x] == pairs_map(s).remove(k)[x] by {
        let j = choose|j: int| 0 <= j < t.len() && (#[trigger] t[j]).0 == x;
        lemma_map_at(t, j);
        if j < i {
            lemma_map_at(s, j);
        } else {
            lemma_map_at(s, j + 1);
        }
    }
    assert(pairs_map(t) =~= pairs_map(s).remove(k));
}

} // verus!
