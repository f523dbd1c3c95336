//! Lexicographic order on texts (by code point, as `str`'s `Ord` compares
//! UTF-8 bytes) and the sorting of name lists.

use vstd::prelude::*;
use vstd::string::*;

verus! {

broadcast use vstd::seq_lib::to_multiset_insert;

/// `a` comes strictly before `b` in lexicographic order.
pub open spec fn text_lt(a: Seq<char>, b: Seq<char>) -> bool
    decreases a.len(),
{
    if a.len() == 0 {
        b.len() > 0
    } else if b.len() == 0 {
        false
    } else if a[0] != b[0] {
        a[0] < b[0]
    } else {
        text_lt(a.drop_first(), b.drop_first())
    }
}

/// `a` comes before `b` or equals it.
pub open spec fn text_le(a: Seq<char>, b: Seq<char>) -> bool {
    text_lt(a, b) || a == b
}

/// The texts a list of strings holds.
pub open spec fn texts(v: Seq<String>) -> Seq<Seq<char>> {
    v.map_values(|s: String| s@)
}

/// Every text comes before or equals every later one.
pub open spec fn sorted_texts(s: Seq<Seq<char>>) -> bool {
    forall|i: int, j: int| 0 <= i < j < s.len() ==> text_le(#[trigger] s[i], #[trigger] s[j])
}

pub proof fn lemma_text_lt_irreflexive(a: Seq<char>)
    ensures
        !text_lt(a, a),
    decreases a.len(),
{
    if a.len() > 0 {
        lemma_text_lt_irreflexive(a.drop_first());
    }
}

pub proof fn lemma_text_lt_total(a: Seq<char>, b: Seq<char>)
    ensures
        text_lt(a, b) || a == b || text_lt(b, a),
    decreases a.len(),
{
    if a.len() > 0 && b.len() > 0 && a[0] == b[0] {
        lemma_text_lt_total(a.drop_first(), b.drop_first());
        if a.drop_first() == b.drop_first() {
            assert(a =~= seq![a[0]] + a.drop_first());
            assert(b =~= seq![b[0]] + b.drop_first());
        }
    } else if a.len() == 0 && b.len() == 0 {
        assert(a =~= b);
    }
}

pub proof fn lemma_text_lt_asymmetric(a: Seq<char>, b: Seq<char>)
    requires
        text_lt(a, b),
    ensures
        !text_lt(b, a),
    decreases a.len(),
{
    if a.len() > 0 && b.len() > 0 && a[0] == b[0] {
        lemma_text_lt_asymmetric(a.drop_first(), b.drop_first());
    }
}

pub proof fn lemma_text_lt_transitive(a: Seq<char>, b: Seq<char>, c: Seq<char>)
    requires
        text_lt(a, b),
        text_lt(b, c),
    ensures
        text_lt(a, c),
    decreases a.len(),
{
    if a.len() > 0 && b.len() > 0 && c.len() > 0 && a[0] == b[0] && b[0] == c[0] {
        lemma_text_lt_transitive(a.drop_first(), b.drop_first(), c.drop_first());
    }
}

/// Lexicographic comparison of two texts.
pub fn text_less(a: &str, b: &str) -> (r: bool)
    ensures
        r == text_lt(a@, b@),
{
    let n = a.unicode_len();
    let m = b.unicode_len();
    let mut i: usize = 0;
    assert(a@.skip(0) =~= a@ && b@.skip(0) =~= b@);
    while i < n && i < m && a.get_char(i) == b.get_char(i)
        invariant
            n == a@.len(),
            m == b@.len(),
            i <= n,
            i <= m,
            text_lt(a@, b@) == text_lt(a@.skip(i as int), b@.skip(i as int)),
        decreases n - i,
    {
        proof {
            let ghost x = a@.skip(i as int);
            let y = b@.skip(i as int);
            assert(x.drop_first() =~= a@.skip(i + 1));
            assert(y.drop_first() =~= b@.skip(i + 1));
        }
        i = i + 1;
    }
    let ghost x = a@.skip(i as int);
    if i == n {
        i < m
    } else if i == m {
        false
    } else {
        proof {
            assert(x[0] == a@[i as int]);
        }
        a.get_char(i) < b.get_char(i)
    }
}

/// Sorts names in lexicographic order, keeping every one of them.
pub fn sort_names(names: Vec<String>) -> (sorted: Vec<String>)
    ensures
        sorted_texts(texts(sorted@)),
        texts(sorted@).to_multiset() == texts(names@).to_multiset(),
{
    let mut sorted: Vec<String> = Vec::new();
    let mut i: usize = 0;
    assert(texts(sorted@) =~= texts(names@.take(0)));
    while i < names.len()
        invariant
            i <= names@.len(),
            sorted_texts(texts(sorted@)),
            texts(sorted@).to_multiset() == texts(names@.take(i as int)).to_multiset(),
        decreases names@.len() - i,
    {
        let name = names[i].clone();
        let mut pos: usize = 0;
        while pos < sorted.len() && !text_less(name.as_str(), sorted[pos].as_str())
            invariant
                pos <= sorted@.len(),
                i < names@.len(),
                name@ == names@[i as int]@,
                forall|k: int| 0 <= k < pos ==> !text_lt(name@, #[trigger] sorted@[k]@),
            decreases sorted@.len() - pos,
        {
            pos = pos + 1;
        }
        let ghost before = sorted@;
        sorted.insert(pos, name);
        proof {
            let t = texts(sorted@);
            let tb = texts(before);
            assert(t =~= tb.insert(pos as int, name@));
            assert forall|a: int, b: int| 0 <= a < b < t.len() implies text_le(#[trigger] t[a], #[trigger] t[b]) by {
                if b < pos {
                    assert(t[a] == tb[a] && t[b] == tb[b]);
                } else if b == pos {
                    assert(t[a] == before[a]@);
                    lemma_text_lt_total(name@, before[a]@);
                } else if a == pos {
                    assert(t[b] == tb[b - 1]);
                    if pos < before.len() {
                        assert(text_lt(name@, before[pos as int]@));
                        assert(text_le(tb[pos as int], tb[b - 1]));
                        if text_lt(tb[pos as int], tb[b - 1]) {
                            lemma_text_lt_transitive(name@, tb[pos as int], tb[b - 1]);
                        }
                    }
                } else if a < pos {
                    assert(t[a] == tb[a] && t[b] == tb[b - 1]);
                    assert(a < b - 1);
                } else {
                    assert(t[a] == tb[a - 1] && t[b] == tb[b - 1]);
                }
            }
            assert(texts(names@.take(i + 1)) =~= texts(names@.take(i as int)).push(name@));
            assert(tb.insert(pos as int, name@).to_multiset() == tb.to_multiset().insert(name@));
            vstd::seq_lib::to_multiset_build(texts(names@.take(i as int)), name@);
        }
        i = i + 1;
    }
    assert(names@.take(i as int) =~= names@);
    sorted
}

} // verus!
