use vstd::prelude::*;
use vstd::map::*;

verus! {

// A sequence of key/value pairs, read as a finite map. Both the session
// payload and the session table hold their rows this way: a vector whose
// keys never repeat, abstracted to a `Map` for contracts.

/// No key occurs twice in the sequence.
pub open spec fn keys_unique<V>(s: Seq<(Seq<char>, V)>) -> bool {
    forall|i: int, j: int| 0 <= i < j < s.len() ==> s[i].0 != s[j].0
}

/// Some pair of the sequence carries the key `k`.
pub open spec fn has_key<V>(s: Seq<(Seq<char>, V)>, k: Seq<char>) -> bool {
    exists|i: int| 0 <= i < s.len() && s[i].0 == k
}

/// The position of the pair carrying `k`; meaningful when keys are unique.
pub open spec fn key_index<V>(s: Seq<(Seq<char>, V)>, k: Seq<char>) -> int {
    choose|i: int| 0 <= i < s.len() && s[i].0 == k
}

/// The map the pairs denote.
pub open spec fn map_of<V>(s: Seq<(Seq<char>, V)>) -> Map<Seq<char>, V> {
    Map::new(|k: Seq<char>| has_key(s, k), |k: Seq<char>| s[key_index(s, k)].1)
}

/// The pair at a valid position is the one the map returns for its key.
pub proof fn lemma_key_at<V>(s: Seq<(Seq<char>, V)>, i: int)
    requires
        keys_unique(s),
        0 <= i < s.len(),
    ensures
        has_key(s, s[i].0),
        key_index(s, s[i].0) == i,
        map_of(s).contains_key(s[i].0),
        map_of(s)[s[i].0] == s[i].1,
{
    assert(0 <= i < s.len() && s[i].0 == s[i].0);
    assert(has_key(s, s[i].0));
    let j = key_index(s, s[i].0);
    assert(0 <= j < s.len() && s[j].0 == s[i].0);
    if j != i {
        assert(false);
    }
}

/// A key no pair carries is not in the map.
pub proof fn lemma_key_absent<V>(s: Seq<(Seq<char>, V)>, k: Seq<char>)
    requires
        forall|i: int| 0 <= i < s.len() ==> s[i].0 != k,
    ensures
        !has_key(s, k),
        !map_of(s).contains_key(k),
{
}

/// The empty sequence denotes the empty map.
pub proof fn lemma_map_of_empty<V>(s: Seq<(Seq<char>, V)>)
    requires
        s.len() == 0,
    ensures
        map_of(s) =~= Map::<Seq<char>, V>::empty(),
{
}

/// Appending a pair with a fresh key inserts it into the map.
pub proof fn lemma_map_of_push<V>(s: Seq<(Seq<char>, V)>, k: Seq<char>, v: V)
    requires
        keys_unique(s),
        !has_key(s, k),
    ensures
        keys_unique(s.push((k, v))),
        map_of(s.push((k, v))) =~= map_of(s).insert(k, v),
{
    let s2 = s.push((k, v));
    let n = s.len() as int;
    assert forall|i: int, j: int| 0 <= i < j < s2.len() implies s2[i].0 != s2[j].0 by {
        if j < n {
            assert(s2[i] == s[i] && s2[j] == s[j]);
        } else {
            assert(s2[i] == s[i] && s2[j] == (k, v));
            assert(s[i].0 != k);
        }
    }
    assert(s2[n].0 == k);
    lemma_key_at(s2, n);
    assert_maps_equal!(map_of(s2), map_of(s).insert(k, v), q => {
        if q == k {
            lemma_key_at(s2, n);
        } else {
            if has_key(s, q) {
                let i = key_index(s, q);
                assert(0 <= i < s.len() && s[i].0 == q);
                lemma_key_at(s, i);
                assert(s2[i] == s[i]);
                lemma_key_at(s2, i);
            }
            if has_key(s2, q) {
                let i = key_index(s2, q);
                assert(0 <= i < s2.len() && s2[i].0 == q);
                assert(i != n);
                assert(s2[i] == s[i]);
                lemma_key_at(s, i);
            }
        }
    });
}

/// Replacing the pair at a position by one with the same key updates the map.
pub proof fn lemma_map_of_update<V>(s: Seq<(Seq<char>, V)>, i: int, k: Seq<char>, v: V)
    requires
        keys_unique(s),
        0 <= i < s.len(),
        s[i].0 == k,
    ensures
        keys_unique(s.update(i, (k, v))),
        map_of(s.update(i, (k, v))) =~= map_of(s).insert(k, v),
{
    let s2 = s.update(i, (k, v));
    assert forall|j: int| 0 <= j < s.len() implies s2[j].0 == s[j].0 by {
        if j == i {
            assert(s2[j] == (k, v));
        } else {
            assert(s2[j] == s[j]);
        }
    }
    assert(keys_unique(s2));
    lemma_key_at(s2, i);
    assert(map_of(s2)[k] == v);
    assert_maps_equal!(map_of(s2), map_of(s).insert(k, v), q => {
        if q == k {
            lemma_key_at(s2, i);
        } else {
            if has_key(s, q) {
                let j = key_index(s, q);
                assert(0 <= j < s.len() && s[j].0 == q);
                lemma_key_at(s, j);
                assert(j != i);
                assert(s2[j] == s[j]);
                lemma_key_at(s2, j);
            }
            if has_key(s2, q) {
                let j = key_index(s2, q);
                assert(0 <= j < s2.len() && s2[j].0 == q);
                assert(j != i);
                assert(s2[j] == s[j]);
                lemma_key_at(s, j);
            }
        }
    });
}

/// Removing the pair at a position removes exactly its key from the map.
pub proof fn lemma_map_of_remove<V>(s: Seq<(Seq<char>, V)>, i: int)
    requires
        keys_unique(s),
        0 <= i < s.len(),
    ensures
        keys_unique(s.remove(i)),
        map_of(s.remove(i)) =~= map_of(s).remove(s[i].0),
{
    let s2 = s.remove(i);
    let k = s[i].0;
    assert forall|j: int| 0 <= j < s2.len() implies s2[j] == (if j < i {
        s[j]
    } else {
        s[j + 1]
    }) by {
    }
    assert forall|p: int, q: int| 0 <= p < q < s2.len() implies s2[p].0 != s2[q].0 by {
        let p0 = if p < i { p } else { p + 1 };
        let q0 = if q < i { q } else { q + 1 };
        assert(s2[p] == s[p0] && s2[q] == s[q0]);
        assert(0 <= p0 < q0 < s.len());
    }
    assert(keys_unique(s2));
    assert forall|j: int| 0 <= j < s2.len() implies s2[j].0 != k by {
        let j0 = if j < i { j } else { j + 1 };
        assert(s2[j] == s[j0]);
        assert(j0 != i);
        if j0 < i {
            assert(s[j0].0 != s[i].0);
        } else {
            assert(s[i].0 != s[j0].0);
        }
    }
    lemma_key_absent(s2, k);
    assert_maps_equal!(map_of(s2), map_of(s).remove(k), q => {
        if q != k {
            if has_key(s2, q) {
                let j = key_index(s2, q);
                assert(0 <= j < s2.len() && s2[j].0 == q);
                let j0 = if j < i { j } else { j + 1 };
                assert(s2[j] == s[j0]);
                lemma_key_at(s, j0);
                lemma_key_at(s2, j);
            }
            if has_key(s, q) {
                let j = key_index(s, q);
                assert(0 <= j < s.len() && s[j].0 == q);
                lemma_key_at(s, j);
                assert(j != i);
                let j2 = if j < i { j } else { j - 1 };
                assert(s2[j2] == s[j]);
                assert(0 <= j2 < s2.len() && s2[j2].0 == q);
                lemma_key_at(s2, j2);
            }
        }
    });
}

} // verus!
