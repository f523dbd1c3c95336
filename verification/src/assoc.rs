//! Association lists with distinct keys, seen as maps.

use vstd::prelude::*;

verus! {

/// No key appears twice.
pub open spec fn keys_distinct<K, V>(s: Seq<(K, V)>) -> bool {
    forall|i: int, j: int| 0 <= i < s.len() && 0 <= j < s.len() && i != j ==> s[i].0 != s[j].0
}

/// Whether `i` is the position of key `k`.
pub open spec fn key_at<K, V>(s: Seq<(K, V)>, k: K, i: int) -> bool {
    0 <= i < s.len() && s[i].0 == k
}

/// The map that an association list denotes.
pub open spec fn assoc_map<K, V>(s: Seq<(K, V)>) -> Map<K, V> {
    Map::new(|k: K| exists|i: int| key_at(s, k, i), |k: K| s[choose|i: int| key_at(s, k, i)].1)
}

pub proof fn lemma_assoc_at<K, V>(s: Seq<(K, V)>, i: int)
    requires
        keys_distinct(s),
        0 <= i < s.len(),
    ensures
        assoc_map(s).contains_key(s[i].0),
        assoc_map(s)[s[i].0] == s[i].1,
{
    assert(key_at(s, s[i].0, i));
    let j = choose|j: int| key_at(s, s[i].0, j);
}

pub proof fn lemma_assoc_absent<K, V>(s: Seq<(K, V)>, k: K)
    requires
        forall|i: int| 0 <= i < s.len() ==> s[i].0 != k,
    ensures
        !assoc_map(s).contains_key(k),
{
}

pub proof fn lemma_assoc_empty<K, V>()
    ensures
        assoc_map(Seq::<(K, V)>::empty()) == Map::<K, V>::empty(),
{
    assert(assoc_map(Seq::<(K, V)>::empty()) =~= Map::<K, V>::empty());
}

pub proof fn lemma_assoc_update<K, V>(s: Seq<(K, V)>, i: int, v: V)
    requires
        keys_distinct(s),
        0 <= i < s.len(),
    ensures
        keys_distinct(s.update(i, (s[i].0, v))),
        assoc_map(s.update(i, (s[i].0, v))) == assoc_map(s).insert(s[i].0, v),
{
    let t = s.update(i, (s[i].0, v));
    assert forall|k: K| #[trigger] assoc_map(t).contains_key(k) == assoc_map(s).insert(s[i].0, v).contains_key(k) by {
        if k == s[i].0 {
            assert(key_at(t, k, i));
        }
        if exists|j: int| key_at(s, k, j) {
            let j = choose|j: int| key_at(s, k, j);
            assert(key_at(t, k, j));
        }
        if exists|j: int| key_at(t, k, j) {
            let j = choose|j: int| key_at(t, k, j);
            assert(key_at(s, k, j));
        }
    }
    assert forall|k: K| #[trigger] assoc_map(t).contains_key(k) implies assoc_map(t)[k] == assoc_map(s).insert(s[i].0, v)[k] by {
        let j = choose|j: int| key_at(t, k, j);
        if k == s[i].0 {
            assert(j == i);
        } else {
            assert(key_at(s, k, j));
            lemma_assoc_at(s, j);
        }
    }
    assert(assoc_map(t) =~= assoc_map(s).insert(s[i].0, v));
}

pub proof fn lemma_assoc_push<K, V>(s: Seq<(K, V)>, k: K, v: V)
    requires
        keys_distinct(s),
        !assoc_map(s).contains_key(k),
    ensures
        keys_distinct(s.push((k, v))),
        assoc_map(s.push((k, v))) == assoc_map(s).insert(k, v),
{
    let t = s.push((k, v));
    assert forall|i: int| 0 <= i < s.len() implies s[i].0 != k by {
        if s[i].0 == k {
            assert(key_at(s, k, i));
        }
    }
    assert forall|x: K| #[trigger] assoc_map(t).contains_key(x) == assoc_map(s).insert(k, v).contains_key(x) by {
        if exists|j: int| key_at(s, x, j) {
            let j = choose|j: int| key_at(s, x, j);
            assert(key_at(t, x, j));
        }
        if exists|j: int| key_at(t, x, j) {
            let j = choose|j: int| key_at(t, x, j);
            if j < s.len() {
                assert(key_at(s, x, j));
            }
        }
        if x == k {
            assert(key_at(t, x, s.len() as int));
        }
    }
    assert forall|x: K| #[trigger] assoc_map(t).contains_key(x) implies assoc_map(t)[x] == assoc_map(s).insert(k, v)[x] by {
        let j = choose|j: int| key_at(t, x, j);
        if x == k {
            assert(j == s.len());
        } else {
            assert(key_at(s, x, j));
            lemma_assoc_at(s, j);
        }
    }
    assert(assoc_map(t) =~= assoc_map(s).insert(k, v));
}

pub proof fn lemma_assoc_insert<K, V>(s: Seq<(K, V)>, pos: int, k: K, v: V)
    requires
        keys_distinct(s),
        0 <= pos <= s.len(),
        !assoc_map(s).contains_key(k),
    ensures
        keys_distinct(s.insert(pos, (k, v))),
        assoc_map(s.insert(pos, (k, v))) == assoc_map(s).insert(k, v),
{
    let t = s.insert(pos, (k, v));
    assert forall|i: int| 0 <= i < s.len() implies s[i].0 != k by {
        if s[i].0 == k {
            assert(key_at(s, k, i));
        }
    }
    assert forall|i: int, j: int| 0 <= i < t.len() && 0 <= j < t.len() && i != j implies t[i].0 != t[j].0 by {
        let si = if i < pos { i } else { i - 1 };
        let sj = if j < pos { j } else { j - 1 };
        if i != pos && j != pos {
            assert(t[i] == s[si] && t[j] == s[sj]);
        } else if i == pos {
            assert(t[j] == s[sj]);
        } else {
            assert(t[i] == s[si]);
        }
    }
    assert forall|x: K| #[trigger] assoc_map(t).contains_key(x) == assoc_map(s).insert(k, v).contains_key(x) by {
        if exists|j: int| key_at(s, x, j) {
            let j = choose|j: int| key_at(s, x, j);
            if j < pos {
                assert(key_at(t, x, j));
            } else {
                assert(key_at(t, x, j + 1));
            }
        }
        if exists|j: int| key_at(t, x, j) {
            let j = choose|j: int| key_at(t, x, j);
            if j < pos {
                assert(key_at(s, x, j));
            } else if j > pos {
                assert(key_at(s, x, j - 1));
            }
        }
        if x == k {
            assert(key_at(t, x, pos));
        }
    }
    assert forall|x: K| #[trigger] assoc_map(t).contains_key(x) implies assoc_map(t)[x] == assoc_map(s).insert(k, v)[x] by {
        let j = choose|j: int| key_at(t, x, j);
        if x == k {
            if j != pos {
                if j < pos {
                    assert(t[j] == s[j]);
                } else {
                    assert(t[j] == s[j - 1]);
                }
            }
        } else if j < pos {
            assert(key_at(s, x, j));
            lemma_assoc_at(s, j);
        } else {
            assert(j != pos);
            assert(key_at(s, x, j - 1));
            lemma_assoc_at(s, j - 1);
        }
    }
    assert(assoc_map(t) =~= assoc_map(s).insert(k, v));
}

pub proof fn lemma_assoc_remove<K, V>(s: Seq<(K, V)>, i: int)
    requires
        keys_distinct(s),
        0 <= i < s.len(),
    ensures
        keys_distinct(s.remove(i)),
        assoc_map(s.remove(i)) == assoc_map(s).remove(s[i].0),
        s.remove(i).len() == s.len() - 1,
{
    let t = s.remove(i);
    assert forall|a: int, b: int| 0 <= a < t.len() && 0 <= b < t.len() && a != b implies t[a].0 != t[b].0 by {
        let a1 = if a < i { a } else { a + 1 };
        let b1 = if b < i { b } else { b + 1 };
        assert(t[a] == s[a1] && t[b] == s[b1]);
    }
    assert forall|x: K| #[trigger] assoc_map(t).contains_key(x) == assoc_map(s).remove(s[i].0).contains_key(x) by {
        if exists|j: int| key_at(t, x, j) {
            let j = choose|j: int| key_at(t, x, j);
            let j1 = if j < i { j } else { j + 1 };
            assert(key_at(s, x, j1));
            assert(x != s[i].0);
        }
        if x != s[i].0 && exists|j: int| key_at(s, x, j) {
            let j = choose|j: int| key_at(s, x, j);
            if j < i {
                assert(key_at(t, x, j));
            } else {
                assert(j != i);
                assert(key_at(t, x, j - 1));
            }
        }
    }
    assert forall|x: K| #[trigger] assoc_map(t).contains_key(x) implies assoc_map(t)[x] == assoc_map(s).remove(s[i].0)[x] by {
        let j = choose|j: int| key_at(t, x, j);
        let j1 = if j < i { j } else { j + 1 };
        assert(key_at(s, x, j1));
        lemma_assoc_at(s, j1);
    }
    assert(assoc_map(t) =~= assoc_map(s).remove(s[i].0));
}

/// A list with distinct keys has as many entries as its map has keys.
pub proof fn lemma_assoc_len<K, V>(s: Seq<(K, V)>)
    requires
        keys_distinct(s),
    ensures
        assoc_map(s).dom().len() == s.len(),
        assoc_map(s).dom().finite(),
{
    let ks = s.map_values(|e: (K, V)| e.0);
    assert(ks.no_duplicates()) by {
        assert forall|a: int, b: int| 0 <= a < ks.len() && 0 <= b < ks.len() && a != b implies ks[a] != ks[b] by {
            assert(s[a].0 != s[b].0);
        }
    }
    ks.unique_seq_to_set();
    assert forall|k: K| #[trigger] assoc_map(s).dom().contains(k) == ks.to_set().contains(k) by {
        if assoc_map(s).dom().contains(k) {
            let j = choose|j: int| key_at(s, k, j);
            assert(ks[j] == k);
        }
        if ks.to_set().contains(k) {
            let j = choose|j: int| 0 <= j < ks.len() && ks[j] == k;
            assert(key_at(s, k, j));
        }
    }
    assert(assoc_map(s).dom() =~= ks.to_set());
    ks.lemma_cardinality_of_set();
    vstd::seq_lib::seq_to_set_is_finite(ks);
}

} // verus!
