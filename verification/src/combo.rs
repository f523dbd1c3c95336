//! Key combinations: a key and the modifiers held with it.

use vstd::prelude::*;
use vstd::string::*;

use crate::error::DomainError;
use crate::key::{is_code_at, is_known_code, known_keys, fallback_label, KeyCode};
use crate::modifier::{modifier_at, modifier_code, modifier_text, rank, Modifier};

verus! {

/// The canonical-order modifier table as a sequence.
pub open spec fn canonical_order() -> Seq<Modifier> {
    Seq::new(8, |i: int| modifier_at(i))
}

/// Modifiers listed in canonical press order without repetition.
pub open spec fn is_canonical(s: Seq<Modifier>) -> bool {
    forall|i: int, j: int| 0 <= i < j < s.len() ==> rank(s[i]) < rank(s[j])
}

/// The canonical form of a modifier list: each modifier it holds, once,
/// in canonical press order.
pub open spec fn canonical_of(s: Seq<Modifier>) -> Seq<Modifier> {
    canonical_order().filter(|m: Modifier| s.contains(m))
}

/// Key codes injected for a combination: modifiers in order, then the key.
pub open spec fn press_codes(modifiers: Seq<Modifier>, key: u16) -> Seq<u16> {
    modifiers.map_values(|m: Modifier| modifier_code(m)).push(key)
}

/// Key and modifiers combination (e.g. `Ctrl+1`).
#[derive(Debug, PartialEq, Eq)]
pub struct KeyCombination {
    modifiers: Vec<Modifier>,
    key: KeyCode,
}

impl View for KeyCombination {
    type V = (Seq<Modifier>, u16);

    closed spec fn view(&self) -> (Seq<Modifier>, u16) {
        (self.modifiers@, self.key@)
    }
}

proof fn lemma_rank_at(m: Modifier)
    ensures
        modifier_at(rank(m)) == m,
        0 <= rank(m) < 8,
{
}

proof fn lemma_at_rank(i: int)
    requires
        0 <= i < 8,
    ensures
        rank(modifier_at(i)) == i,
{
}

/// The modifiers of the first `n` ranks that a list holds, in rank order.
spec fn held_below(s: Seq<Modifier>, n: int) -> Seq<Modifier> {
    canonical_order().take(n).filter(|m: Modifier| s.contains(m))
}

/// The canonical order restricted to the modifiers a list holds, up to a
/// rank: in increasing rank, all below that rank.
proof fn lemma_canonical_prefix(s: Seq<Modifier>, n: int)
    requires
        0 <= n <= 8,
    ensures
        is_canonical(held_below(s, n)),
        forall|i: int| 0 <= i < held_below(s, n).len() ==> rank(#[trigger] held_below(s, n)[i]) < n,
    decreases n,
{
    let p = |m: Modifier| s.contains(m);
    reveal_with_fuel(Seq::<_>::filter, 1);
    if n > 0 {
        lemma_canonical_prefix(s, n - 1);
        lemma_at_rank(n - 1);
        let t = canonical_order().take(n);
        let m = modifier_at(n - 1);
        assert(t.drop_last() =~= canonical_order().take(n - 1));
        assert(t.last() == m);
        let sub = held_below(s, n - 1);
        assert(held_below(s, n) == if s.contains(m) { sub.push(m) } else { sub });
        let h = held_below(s, n);
        assert forall|i: int| 0 <= i < h.len() implies rank(#[trigger] h[i]) < n by {
            if i < sub.len() {
                assert(h[i] == sub[i]);
            }
        }
        assert forall|i: int, j: int| 0 <= i < j < h.len() implies rank(h[i]) < rank(h[j]) by {
            assert(h[i] == sub[i]);
            if j < sub.len() {
                assert(h[j] == sub[j]);
            }
        }
    } else {
        assert(canonical_order().take(0) =~= Seq::<Modifier>::empty());
    }
}

/// Two canonical lists holding the same modifiers are equal.
proof fn lemma_canonical_unique(a: Seq<Modifier>, b: Seq<Modifier>)
    requires
        is_canonical(a),
        is_canonical(b),
        forall|m: Modifier| a.contains(m) <==> b.contains(m),
    ensures
        a == b,
    decreases a.len(),
{
    if a.len() == 0 {
        if b.len() > 0 {
            assert(b.contains(b[0]));
        }
        assert(a =~= b);
    } else {
        assert(a.contains(a[0]));
        assert(b.contains(a[0]));
        assert(b.len() > 0);
        assert(b.contains(b[0]));
        assert(a.contains(b[0]));
        let i = choose|i: int| 0 <= i < a.len() && a[i] == b[0];
        let j = choose|j: int| 0 <= j < b.len() && b[j] == a[0];
        assert(rank(a[0]) <= rank(b[0]));
        assert(rank(b[0]) <= rank(a[0]));
        lemma_rank_at(a[0]);
        lemma_rank_at(b[0]);
        assert(a[0] == b[0]);
        let a1 = a.drop_first();
        let b1 = b.drop_first();
        assert forall|m: Modifier| a1.contains(m) <==> b1.contains(m) by {
            if a1.contains(m) {
                let k = choose|k: int| 0 <= k < a1.len() && a1[k] == m;
                assert(a[k + 1] == m);
                assert(rank(a[0]) < rank(a[k + 1]));
                assert(b.contains(m));
                let l = choose|l: int| 0 <= l < b.len() && b[l] == m;
                if l == 0 {
                    assert(false);
                }
                assert(b1[l - 1] == m);
            }
            if b1.contains(m) {
                let k = choose|k: int| 0 <= k < b1.len() && b1[k] == m;
                assert(b[k + 1] == m);
                assert(rank(b[0]) < rank(b[k + 1]));
                assert(a.contains(m));
                let l = choose|l: int| 0 <= l < a.len() && a[l] == m;
                if l == 0 {
                    assert(false);
                }
                assert(a1[l - 1] == m);
            }
        }
        lemma_canonical_unique(a1, b1);
        assert(a =~= seq![a[0]] + a1);
        assert(b =~= seq![b[0]] + b1);
    }
}

/// The canonical form of any modifier list is canonical.
pub proof fn lemma_canonical_of_is_canonical(s: Seq<Modifier>)
    ensures
        is_canonical(canonical_of(s)),
{
    lemma_canonical_prefix(s, 8);
    assert(canonical_order().take(8) =~= canonical_order());
    assert(held_below(s, 8) == canonical_of(s));
}

/// A canonical list is its own canonical form, and holds no modifier twice.
pub proof fn lemma_canonical_fixed(s: Seq<Modifier>)
    requires
        is_canonical(s),
    ensures
        canonical_of(s) == s,
        s.no_duplicates(),
{
    let p = |m: Modifier| s.contains(m);
    lemma_canonical_prefix(s, 8);
    assert(canonical_order().take(8) =~= canonical_order());
    assert(held_below(s, 8) == canonical_of(s));
    let c = canonical_of(s);
    assert forall|m: Modifier| c.contains(m) <==> s.contains(m) by {
        if c.contains(m) {
            canonical_order().lemma_filter_contains_rev(p, m);
            let k = choose|k: int| 0 <= k < c.len() && c[k] == m;
            canonical_order().lemma_filter_pred(p, k);
        }
        if s.contains(m) {
            lemma_rank_at(m);
            assert(canonical_order()[rank(m)] == m);
            canonical_order().lemma_filter_contains(p, rank(m));
        }
    }
    lemma_canonical_unique(c, s);
    assert forall|i: int, j: int| 0 <= i < s.len() && 0 <= j < s.len() && i != j implies s[i] != s[j] by {
        if i < j {
            assert(rank(s[i]) < rank(s[j]));
        } else {
            assert(rank(s[j]) < rank(s[i]));
        }
    }
}

/// Whether `m` occurs in `v`, and whether it occurs at least twice.
fn occurrences(v: &Vec<Modifier>, m: Modifier) -> (r: (bool, bool))
    ensures
        r.0 == v@.contains(m),
        r.1 == exists|i: int, j: int| 0 <= i < j < v@.len() && v@[i] == m && v@[j] == m,
{
    let mut seen: Option<usize> = None;
    let mut i: usize = 0;
    while i < v.len()
        invariant
            i <= v@.len(),
            seen matches Some(k) ==> k < i && v@[k as int] == m,
            seen is None ==> forall|k: int| 0 <= k < i ==> v@[k] != m,
            forall|a: int, b: int| 0 <= a < b < i ==> !(v@[a] == m && v@[b] == m),
        decreases v@.len() - i,
    {
        if v[i] == m {
            match seen {
                Some(k) => {
                    assert(v@[k as int] == m && v@[i as int] == m);
                    return (true, true);
                },
                None => {
                    seen = Some(i);
                },
            }
        }
        i = i + 1;
    }
    match seen {
        Some(k) => {
            assert(v@[k as int] == m);
            (true, false)
        },
        None => (false, false),
    }
}

impl KeyCombination {
    #[verifier::type_invariant]
    spec fn canonical(self) -> bool {
        is_canonical(self.modifiers@)
    }

    /// Builds a combination; modifiers are normalized into canonical press
    /// order. A modifier given twice is refused.
    pub fn new(modifiers: Vec<Modifier>, key: KeyCode) -> (r: Result<KeyCombination, DomainError>)
        ensures
            r is Ok <==> modifiers@.no_duplicates(),
            r matches Ok(c) ==> c@ == (canonical_of(modifiers@), key@),
            r matches Err(e) ==> e == DomainError::DuplicateModifier,
    {
        let all = Modifier::all();
        let mut result: Vec<Modifier> = Vec::new();
        let mut i: usize = 0;
        while i < 8
            invariant
                all@.len() == 8,
                forall|j: int| 0 <= j < 8 ==> #[trigger] all@[j] == modifier_at(j),
                i <= 8,
                result@ == canonical_order().take(i as int).filter(|m: Modifier| modifiers@.contains(m)),
                forall|x: int| 0 <= x < result@.len() ==> rank(#[trigger] result@[x]) < i,
                is_canonical(result@),
                forall|a: int, b: int|
                    0 <= a < b < modifiers@.len() && modifiers@[a] == modifiers@[b] ==> rank(modifiers@[a]) >= i,
            decreases 8 - i,
        {
            let m = all[i];
            let (present, twice) = occurrences(&modifiers, m);
            if twice {
                let ghost (a, b) = choose|a: int, b: int| 0 <= a < b < modifiers@.len() && modifiers@[a] == m && modifiers@[b] == m;
                assert(modifiers@[a] == modifiers@[b]);
                return Err(DomainError::DuplicateModifier);
            }
            let ghost before = result@;
            if present {
                result.push(m);
            }
            proof {
                lemma_at_rank(i as int);
                let pred = |m: Modifier| modifiers@.contains(m);
                assert(canonical_order().take(i + 1).drop_last() =~= canonical_order().take(i as int));
                assert(canonical_order().take(i + 1).last() == m);
                reveal_with_fuel(Seq::<_>::filter, 1);
                assert(result@ == canonical_order().take(i + 1).filter(pred));
                assert forall|a: int, b: int|
                    0 <= a < b < modifiers@.len() && modifiers@[a] == modifiers@[b] implies rank(modifiers@[a]) >= i + 1 by {
                    if rank(modifiers@[a]) == i {
                        lemma_rank_at(modifiers@[a]);
                    }
                }
            }
            i = i + 1;
        }
        proof {
            assert(canonical_order().take(8) =~= canonical_order());
            assert forall|a: int, b: int| 0 <= a < b < modifiers@.len() implies modifiers@[a] != modifiers@[b] by {
                lemma_rank_at(modifiers@[a]);
            }
        }
        Ok(KeyCombination { modifiers: result, key })
    }

    /// A single key without modifier.
    pub fn plain(key: KeyCode) -> (c: KeyCombination)
        ensures
            c@ == (Seq::<Modifier>::empty(), key@),
    {
        KeyCombination { modifiers: Vec::new(), key }
    }

    pub fn modifiers(&self) -> (m: &[Modifier])
        ensures
            m@ == self@.0,
            is_canonical(m@),
    {
        proof {
            use_type_invariant(self);
        }
        self.modifiers.as_slice()
    }

    pub fn key(&self) -> (k: KeyCode)
        ensures
            k@ == self@.1,
    {
        self.key
    }

    pub fn contains_modifier(&self, modifier: Modifier) -> (r: bool)
        ensures
            r == self@.0.contains(modifier),
    {
        let mut i: usize = 0;
        while i < self.modifiers.len()
            invariant
                i <= self.modifiers@.len(),
                forall|j: int| 0 <= j < i ==> self.modifiers@[j] != modifier,
            decreases self.modifiers@.len() - i,
        {
            if self.modifiers[i] == modifier {
                return true;
            }
            i = i + 1;
        }
        false
    }

    /// Injection sequence: modifiers (canonical order), then the key.
    pub fn press_sequence(&self) -> (seq: Vec<KeyCode>)
        ensures
            seq@.map_values(|k: KeyCode| k@) == press_codes(self@.0, self@.1),
    {
        let mut seq: Vec<KeyCode> = Vec::new();
        let mut i: usize = 0;
        while i < self.modifiers.len()
            invariant
                i <= self.modifiers@.len(),
                seq@.len() == i,
                forall|j: int| 0 <= j < i ==> (#[trigger] seq@[j])@ == modifier_code(self.modifiers@[j]),
            decreases self.modifiers@.len() - i,
        {
            seq.push(self.modifiers[i].key_code());
            i = i + 1;
        }
        seq.push(self.key);
        assert(seq@.map_values(|k: KeyCode| k@) =~= press_codes(self@.0, self@.1));
        seq
    }

    /// Display text: each modifier followed by `+`, then the key label.
    pub fn to_string(&self) -> (s: String)
        ensures
            s@ == combination_text(self@.0, self@.1),
    {
        let mut s = String::new();
        let mut i: usize = 0;
        while i < self.modifiers.len()
            invariant
                i <= self.modifiers@.len(),
                s@ == modifiers_text(self.modifiers@.take(i as int)),
            decreases self.modifiers@.len() - i,
        {
            let text = self.modifiers[i].to_string();
            s.append(text.as_str());
            s.append("+");
            assert(self.modifiers@.take(i + 1).drop_last() =~= self.modifiers@.take(i as int));
            i = i + 1;
        }
        assert(self.modifiers@.take(i as int) =~= self.modifiers@);
        let label = self.key.label();
        s.append(label.as_str());
        proof {
            if is_known_code(self.key@) {
                let j = choose|j: int| is_code_at(self.key@, j) && label@ == known_keys()[j].0@;
                lemma_known_code_label(self.key@, j);
            }
        }
        s
    }
}

/// Display text of a list of modifiers, each followed by `+`.
pub open spec fn modifiers_text(s: Seq<Modifier>) -> Seq<char>
    decreases s.len(),
{
    if s.len() == 0 {
        Seq::empty()
    } else {
        modifiers_text(s.drop_last()) + modifier_text(s.last())@ + "+"@
    }
}

/// The name of the first known entry of a code, or the hexadecimal fallback.
pub open spec fn key_text(code: u16) -> Seq<char> {
    if is_known_code(code) {
        known_keys()[choose|i: int| is_code_at(code, i)].0@
    } else {
        fallback_label(code)
    }
}

/// Display text of a combination (`left-ctrl+KEY_1`).
pub open spec fn combination_text(modifiers: Seq<Modifier>, key: u16) -> Seq<char> {
    modifiers_text(modifiers) + key_text(key)
}

/// Known codes are distinct, so the entry found for a code is the chosen one.
proof fn lemma_known_code_label(code: u16, j: int)
    requires
        is_code_at(code, j),
    ensures
        known_keys()[choose|i: int| is_code_at(code, i)].0@ == known_keys()[j].0@,
{
    let i = choose|i: int| is_code_at(code, i);
    crate::key::lemma_known_codes_distinct(i, j);
}

impl Clone for KeyCombination {
    fn clone(&self) -> (r: Self)
        ensures
            r@ == self@,
    {
        proof {
            use_type_invariant(self);
        }
        let mut modifiers: Vec<Modifier> = Vec::new();
        let mut i: usize = 0;
        while i < self.modifiers.len()
            invariant
                i <= self.modifiers@.len(),
                modifiers@ == self.modifiers@.take(i as int),
            decreases self.modifiers@.len() - i,
        {
            modifiers.push(self.modifiers[i]);
            assert(self.modifiers@.take(i + 1) =~= self.modifiers@.take(i as int).push(self.modifiers@[i as int]));
            i = i + 1;
        }
        assert(self.modifiers@.take(i as int) =~= self.modifiers@);
        KeyCombination { modifiers, key: self.key }
    }
}

} // verus!
