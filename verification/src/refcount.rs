//! Laws of the translator's reference counting of injected keys.

use vstd::prelude::*;

use crate::combo::press_codes;
use crate::event::{Action, EventView, EV_KEY, KEY_PRESS, KEY_RELEASE};
use crate::translation::table_lookup;
use crate::translator::{
    bump, count_of, counts_positive, key_action, press_keys, release_keys, releases_in_order, translate_spec,
    TranslatorView,
};

verus! {

/// How many times `k` occurs in `s`.
pub open spec fn mult(s: Seq<u16>, k: u16) -> nat
    decreases s.len(),
{
    if s.len() == 0 {
        0
    } else {
        mult(s.drop_last(), k) + if s.last() == k {
            1nat
        } else {
            0nat
        }
    }
}

/// Each press action turned into the release of the same key.
pub open spec fn as_releases(actions: Seq<Action>) -> Seq<Action> {
    actions.map_values(|a: Action| match a {
        Action::Key { key, pressed } => Action::Key { key, pressed: !pressed },
        other => other,
    })
}

/// The combination keys of a source code, if the table maps it.
pub open spec fn combination_keys(v: TranslatorView, e: EventView) -> Seq<u16> {
    let found = table_lookup(v.0, (e.0, e.2))->0;
    let combo = found.1;
    press_codes(combo.0, combo.1)
}

/// Pressing `keys` on top of `down` saturates no count.
pub open spec fn no_saturation(down: Map<u16, nat>, keys: Seq<u16>) -> bool {
    forall|k: u16| count_of(down, k) + mult(keys, k) <= u32::MAX
}

/// The same event with another value.
pub open spec fn with_value(e: EventView, value: i32) -> EventView {
    (e.0, e.1, e.2, value)
}

proof fn lemma_mult_prefix(s: Seq<u16>, k: u16)
    requires
        s.len() > 0,
    ensures
        mult(s, k) == mult(s.drop_last(), k) + if s.last() == k { 1nat } else { 0nat },
{
}

proof fn lemma_mult_cons(k0: u16, s: Seq<u16>, k: u16)
    ensures
        mult(seq![k0] + s, k) == mult(s, k) + if k0 == k { 1nat } else { 0nat },
    decreases s.len(),
{
    let t = seq![k0] + s;
    if s.len() == 0 {
        assert(t =~= seq![k0]);
        assert(t.drop_last() =~= Seq::<u16>::empty());
        assert(mult(t, k) == mult(t.drop_last(), k) + if t.last() == k { 1nat } else { 0nat });
    } else {
        lemma_mult_cons(k0, s.drop_last(), k);
        assert(t.drop_last() =~= seq![k0] + s.drop_last());
        assert(t.last() == s.last());
        assert(mult(t, k) == mult(t.drop_last(), k) + if t.last() == k { 1nat } else { 0nat });
        assert(mult(s, k) == mult(s.drop_last(), k) + if s.last() == k { 1nat } else { 0nat });
    }
}

proof fn lemma_mult_reverse(s: Seq<u16>, k: u16)
    ensures
        mult(s.reverse(), k) == mult(s, k),
    decreases s.len(),
{
    if s.len() > 0 {
        lemma_mult_reverse(s.drop_last(), k);
        assert(s.reverse() =~= seq![s.last()] + s.drop_last().reverse());
        lemma_mult_cons(s.last(), s.drop_last().reverse(), k);
    }
}

/// Pressing adds one holder per occurrence, and keeps counts positive.
proof fn lemma_press_counts(down: Map<u16, nat>, keys: Seq<u16>)
    requires
        counts_positive(down),
        no_saturation(down, keys),
    ensures
        counts_positive(press_keys(down, keys).0),
        forall|k: u16| #[trigger] count_of(press_keys(down, keys).0, k) == count_of(down, k) + mult(keys, k),
        forall|i: int|
            0 <= i < press_keys(down, keys).1.len() ==> ((#[trigger] press_keys(down, keys).1[i]) matches Action::Key { pressed, .. } && pressed),
    decreases keys.len(),
{
    if keys.len() > 0 {
        let rest = keys.drop_last();
        assert(no_saturation(down, rest)) by {
            assert forall|k: u16| count_of(down, k) + mult(rest, k) <= u32::MAX by {
                lemma_mult_prefix(keys, k);
            }
        }
        lemma_press_counts(down, rest);
        let (d1, a1) = press_keys(down, rest);
        let k = keys.last();
        lemma_mult_prefix(keys, k);
        let c = count_of(d1, k);
        assert(c == count_of(down, k) + mult(rest, k));
        assert(c < u32::MAX);
        assert(press_keys(down, keys).0 == d1.insert(k, bump(c)));
        assert forall|x: u16| #[trigger] count_of(press_keys(down, keys).0, x) == count_of(down, x) + mult(keys, x) by {
            lemma_mult_prefix(keys, x);
            assert(count_of(d1, x) == count_of(down, x) + mult(rest, x));
        }
    }
}

/// Releasing lets each occurrence go; a key whose holders outnumber its
/// occurrences is never released.
proof fn lemma_release_counts(down: Map<u16, nat>, keys: Seq<u16>)
    requires
        counts_positive(down),
        forall|k: u16| mult(keys, k) <= #[trigger] count_of(down, k),
    ensures
        counts_positive(release_keys(down, keys).0),
        forall|k: u16| #[trigger] count_of(release_keys(down, keys).0, k) == count_of(down, k) - mult(keys, k),
        forall|i: int, k: u16|
            0 <= i < release_keys(down, keys).1.len() && release_keys(down, keys).1[i] == key_action(k, false)
                ==> count_of(down, k) == mult(keys, k),
    decreases keys.len(),
{
    if keys.len() > 0 {
        let rest = keys.drop_last();
        assert forall|k: u16| mult(rest, k) <= #[trigger] count_of(down, k) by {
            lemma_mult_prefix(keys, k);
        }
        lemma_release_counts(down, rest);
        let (d1, a1) = release_keys(down, rest);
        let k = keys.last();
        lemma_mult_prefix(keys, k);
        assert(count_of(d1, k) == count_of(down, k) - mult(rest, k));
        assert(count_of(d1, k) >= 1);
        assert(d1.contains_key(k));
        let r = release_keys(down, keys);
        if d1[k] <= 1 {
            assert(r == (d1.remove(k), a1.push(key_action(k, false))));
        } else {
            assert(r == (d1.insert(k, (d1[k] - 1) as nat), a1));
        }
        assert forall|x: u16| #[trigger] count_of(r.0, x) == count_of(down, x) - mult(keys, x) by {
            lemma_mult_prefix(keys, x);
            assert(count_of(d1, x) == count_of(down, x) - mult(rest, x));
        }
        assert forall|i: int, x: u16| 0 <= i < r.1.len() && r.1[i] == key_action(x, false)
            implies count_of(down, x) == mult(keys, x) by {
            lemma_mult_prefix(keys, x);
            if i < a1.len() {
                assert(r.1[i] == a1[i]);
                assert(count_of(down, x) == mult(rest, x));
            } else {
                assert(x == k);
            }
        }
    }
}

proof fn lemma_release_cons(down: Map<u16, nat>, k: u16, s: Seq<u16>)
    ensures
        release_keys(down, seq![k] + s) == ({
            let (d1, a1) = release_keys(down, seq![k]);
            let (d2, a2) = release_keys(d1, s);
            (d2, a1 + a2)
        }),
    decreases s.len(),
{
    if s.len() == 0 {
        assert(seq![k] + s =~= seq![k]);
        let (d1, a1) = release_keys(down, seq![k]);
        assert(a1 + Seq::<Action>::empty() =~= a1);
    } else {
        lemma_release_cons(down, k, s.drop_last());
        assert((seq![k] + s).drop_last() =~= seq![k] + s.drop_last());
        assert((seq![k] + s).last() == s.last());
        let (d1, a1) = release_keys(down, seq![k]);
        let (d2, a2) = release_keys(d1, s.drop_last());
        let (d3, a3) = release_keys(d1, s);
        assert(seq![k].drop_last() =~= Seq::<u16>::empty());
        if d2.contains_key(s.last()) && d2[s.last()] <= 1 {
            assert(a1 + a2.push(key_action(s.last(), false)) =~= (a1 + a2).push(key_action(s.last(), false)));
        }
    }
}

/// Letting go of the keys of a press, in reverse order, restores the counts
/// and releases exactly what the press injected.
proof fn lemma_press_then_release(down: Map<u16, nat>, keys: Seq<u16>)
    requires
        counts_positive(down),
        no_saturation(down, keys),
    ensures
        release_keys(press_keys(down, keys).0, keys.reverse()) == (down, as_releases(press_keys(down, keys).1).reverse()),
    decreases keys.len(),
{
    if keys.len() > 0 {
        let rest = keys.drop_last();
        let k = keys.last();
        assert(no_saturation(down, rest)) by {
            assert forall|x: u16| count_of(down, x) + mult(rest, x) <= u32::MAX by {
                lemma_mult_prefix(keys, x);
            }
        }
        lemma_press_counts(down, rest);
        lemma_press_then_release(down, rest);
        let (d1, a1) = press_keys(down, rest);
        let c = count_of(d1, k);
        lemma_mult_prefix(keys, k);
        assert(c + 1 <= u32::MAX);
        let d2 = d1.insert(k, bump(c));
        assert(keys.reverse() =~= seq![k] + rest.reverse());
        lemma_release_cons(d2, k, rest.reverse());
        assert(seq![k].drop_last() =~= Seq::<u16>::empty());
        assert(seq![k].last() == k);
        assert(release_keys(d2, seq![k].drop_last()) == (d2, Seq::<Action>::empty()));
        assert(d2.contains_key(k) && d2[k] == c + 1);
        let (d3, a3) = release_keys(d2, seq![k]);
        if c == 0 {
            assert(!d1.contains_key(k));
            assert(d3 =~= d1);
            assert(as_releases(a1.push(key_action(k, true))).reverse() =~= seq![key_action(k, false)]
                + as_releases(a1).reverse());
        } else {
            assert(d3 =~= d1);
            assert(a3 =~= Seq::<Action>::empty());
            assert(Seq::<Action>::empty() + as_releases(a1).reverse() =~= as_releases(a1).reverse());
        }
    }
}

/// A release undoes a press: pressing a mapped code that is not held and
/// releasing it again leaves the translator as it was, and the release lets
/// go, in reverse order, of exactly the keys the press injected.
pub proof fn lemma_release_undoes_press(v: TranslatorView, e: EventView)
    requires
        counts_positive(v.2),
        e.1 == EV_KEY,
        e.3 == KEY_PRESS,
        table_lookup(v.0, (e.0, e.2)) is Some,
        !v.1.contains_key((e.0, e.2)),
        no_saturation(v.2, combination_keys(v, e)),
    ensures
        ({
            let (v1, pressed) = translate_spec(v, e);
            let (v2, released) = translate_spec(v1, with_value(e, KEY_RELEASE));
            v2 == v && released == as_releases(pressed).reverse()
        }),
{
    let keys = combination_keys(v, e);
    lemma_press_then_release(v.2, keys);
    let (v1, pressed) = translate_spec(v, e);
    assert(v1.1[(e.0, e.2)] == keys);
    assert(v1.1.remove((e.0, e.2)) =~= v.1);
}

/// Two holders share a key: once a second code holding keys is pressed on
/// top of a first one, releasing the first lets go of none of the second
/// one's keys, and the second press injects none of the keys the first
/// already holds.
pub proof fn lemma_shared_keys_outlive_first_holder(v: TranslatorView, e1: EventView, e2: EventView)
    requires
        counts_positive(v.2),
        e1.1 == EV_KEY && e1.3 == KEY_PRESS,
        e2.1 == EV_KEY && e2.3 == KEY_PRESS,
        (e1.0, e1.2) != (e2.0, e2.2),
        table_lookup(v.0, (e1.0, e1.2)) is Some,
        table_lookup(v.0, (e2.0, e2.2)) is Some,
        forall|k: u16|
            count_of(v.2, k) + mult(combination_keys(v, e1), k) + mult(combination_keys(v, e2), k)
                <= u32::MAX,
    ensures
        ({
            let (v1, a1) = translate_spec(v, e1);
            let (v2, a2) = translate_spec(v1, e2);
            let (v3, a3) = translate_spec(v2, with_value(e1, KEY_RELEASE));
            &&& forall|k: u16|
                combination_keys(v, e1).contains(k) ==> !a2.contains(key_action(k, true))
            &&& forall|k: u16|
                combination_keys(v, e2).contains(k) ==> !a3.contains(key_action(k, false))
        }),
{
    let keys1 = combination_keys(v, e1);
    let keys2 = combination_keys(v, e2);
    assert(no_saturation(v.2, keys1)) by {
        assert forall|k: u16| count_of(v.2, k) + mult(keys1, k) <= u32::MAX by {}
    }
    lemma_press_counts(v.2, keys1);
    let (v1, a1) = translate_spec(v, e1);
    assert(combination_keys(v1, e2) == keys2);
    assert(no_saturation(v1.2, keys2)) by {
        assert forall|k: u16| count_of(v1.2, k) + mult(keys2, k) <= u32::MAX by {}
    }
    lemma_press_counts(v1.2, keys2);
    let (v2, a2) = translate_spec(v1, e2);
    assert forall|k: u16| keys1.contains(k) implies !a2.contains(key_action(k, true)) by {
        lemma_mult_positive(keys1, k);
        lemma_press_injects_only_fresh(v1.2, keys2, k);
    }
    assert(v2.1.contains_key((e1.0, e1.2)));
    assert(v2.1[(e1.0, e1.2)] == keys1);
    let rev = keys1.reverse();
    assert forall|k: u16| mult(rev, k) <= #[trigger] count_of(v2.2, k) by {
        lemma_mult_reverse(keys1, k);
    }
    lemma_release_counts(v2.2, rev);
    let (v3, a3) = translate_spec(v2, with_value(e1, KEY_RELEASE));
    assert forall|k: u16| keys2.contains(k) implies !a3.contains(key_action(k, false)) by {
        lemma_mult_positive(keys2, k);
        lemma_mult_reverse(keys1, k);
        if a3.contains(key_action(k, false)) {
            let i = choose|i: int| 0 <= i < a3.len() && a3[i] == key_action(k, false);
        }
    }
}

proof fn lemma_mult_positive(s: Seq<u16>, k: u16)
    requires
        s.contains(k),
    ensures
        mult(s, k) >= 1,
    decreases s.len(),
{
    if s.last() != k {
        let i = choose|i: int| 0 <= i < s.len() && s[i] == k;
        assert(s.drop_last()[i] == k);
        lemma_mult_positive(s.drop_last(), k);
    }
}

/// A press injects only keys that had no holder.
proof fn lemma_press_injects_only_fresh(down: Map<u16, nat>, keys: Seq<u16>, k: u16)
    requires
        count_of(down, k) >= 1,
        counts_positive(down),
    ensures
        !press_keys(down, keys).1.contains(key_action(k, true)),
        count_of(press_keys(down, keys).0, k) >= 1,
    decreases keys.len(),
{
    if keys.len() > 0 {
        lemma_press_injects_only_fresh(down, keys.drop_last(), k);
        let (d1, a1) = press_keys(down, keys.drop_last());
        if press_keys(down, keys).1.contains(key_action(k, true)) {
            let i = choose|i: int| 0 <= i < press_keys(down, keys).1.len() && press_keys(down, keys).1[i] == key_action(k, true);
            if i < a1.len() {
                assert(a1[i] == key_action(k, true));
            }
        }
    }
}

/// Whether each injected key appears at most once among the actions.
pub open spec fn keys_once(actions: Seq<Action>) -> bool {
    forall|i: int, j: int|
        0 <= i < j < actions.len() && actions[i] is Key && actions[j] is Key ==> actions[i]->key@
            != actions[j]->key@
}

/// Pressing keys injects exactly the keys whose count leaves zero, each
/// once, and only presses; counts never fall.
proof fn lemma_press_edges(down: Map<u16, nat>, keys: Seq<u16>)
    requires
        counts_positive(down),
    ensures
        counts_positive(press_keys(down, keys).0),
        forall|k: u16| count_of(down, k) <= #[trigger] count_of(press_keys(down, keys).0, k),
        forall|k: u16|
            #[trigger] press_keys(down, keys).1.contains(key_action(k, true)) <==> (count_of(down, k) == 0
                && count_of(press_keys(down, keys).0, k) > 0),
        forall|i: int|
            0 <= i < press_keys(down, keys).1.len() ==> (#[trigger] press_keys(down, keys).1[i]) == key_action(
                press_keys(down, keys).1[i]->key@,
                true,
            ),
        keys_once(press_keys(down, keys).1),
    decreases keys.len(),
{
    if keys.len() > 0 {
        let rest = keys.drop_last();
        lemma_press_edges(down, rest);
        let (d1, a1) = press_keys(down, rest);
        let k0 = keys.last();
        let c = count_of(d1, k0);
        let (d2, a2) = press_keys(down, keys);
        assert(d2 == d1.insert(k0, bump(c)));
        assert forall|k: u16| count_of(down, k) <= #[trigger] count_of(d2, k) by {
            if k != k0 {
                assert(count_of(d2, k) == count_of(d1, k));
            }
        }
        if c == 0 {
            assert(a2 == a1.push(key_action(k0, true)));
            assert(!a1.contains(key_action(k0, true)));
            assert forall|k: u16| #[trigger] a2.contains(key_action(k, true)) <==> (count_of(down, k) == 0
                && count_of(d2, k) > 0) by {
                if a2.contains(key_action(k, true)) && k != k0 {
                    let i = choose|i: int| 0 <= i < a2.len() && a2[i] == key_action(k, true);
                    assert(a1[i] == key_action(k, true));
                    assert(a1.contains(key_action(k, true)));
                }
                if k != k0 && count_of(down, k) == 0 && count_of(d2, k) > 0 {
                    assert(a1.contains(key_action(k, true)));
                    let i = choose|i: int| 0 <= i < a1.len() && a1[i] == key_action(k, true);
                    assert(a2[i] == key_action(k, true));
                }
                if k == k0 {
                    assert(a2[a1.len() as int] == key_action(k, true));
                }
            }
            assert forall|i: int, j: int|
                0 <= i < j < a2.len() && a2[i] is Key && a2[j] is Key implies a2[i]->key@ != a2[j]->key@ by {
                if j == a1.len() {
                    assert(a1[i] == key_action(a1[i]->key@, true));
                    if a1[i]->key@ == k0 {
                        assert(a1.contains(key_action(k0, true)));
                    }
                }
            }
        } else {
            assert(a2 == a1);
        }
    }
}

/// Letting keys go releases exactly the keys whose count falls to zero,
/// each once, and only releases; counts never rise.
proof fn lemma_release_edges(down: Map<u16, nat>, keys: Seq<u16>)
    requires
        counts_positive(down),
    ensures
        counts_positive(release_keys(down, keys).0),
        forall|k: u16| #[trigger] count_of(release_keys(down, keys).0, k) <= count_of(down, k),
        forall|k: u16|
            #[trigger] release_keys(down, keys).1.contains(key_action(k, false)) <==> (count_of(down, k) > 0
                && count_of(release_keys(down, keys).0, k) == 0),
        forall|i: int|
            0 <= i < release_keys(down, keys).1.len() ==> (#[trigger] release_keys(down, keys).1[i]) == key_action(
                release_keys(down, keys).1[i]->key@,
                false,
            ),
        keys_once(release_keys(down, keys).1),
    decreases keys.len(),
{
    if keys.len() > 0 {
        let rest = keys.drop_last();
        lemma_release_edges(down, rest);
        let (d1, a1) = release_keys(down, rest);
        let k0 = keys.last();
        let (d2, a2) = release_keys(down, keys);
        assert(d2 == if d1.contains_key(k0) {
            if d1[k0] <= 1 {
                d1.remove(k0)
            } else {
                d1.insert(k0, (d1[k0] - 1) as nat)
            }
        } else {
            d1
        });
        assert forall|k: u16| #[trigger] count_of(d2, k) <= count_of(down, k) by {
            assert(count_of(d1, k) <= count_of(down, k));
            if k != k0 {
                assert(count_of(d2, k) == count_of(d1, k));
            }
        }
        if d1.contains_key(k0) && d1[k0] <= 1 {
            assert(d2 == d1.remove(k0));
            assert(a2 == a1.push(key_action(k0, false)));
            assert(count_of(d1, k0) == 1);
            assert(!a1.contains(key_action(k0, false)));
            assert forall|k: u16| #[trigger] a2.contains(key_action(k, false)) <==> (count_of(down, k) > 0
                && count_of(d2, k) == 0) by {
                if a2.contains(key_action(k, false)) && k != k0 {
                    let i = choose|i: int| 0 <= i < a2.len() && a2[i] == key_action(k, false);
                    assert(a1[i] == key_action(k, false));
                    assert(a1.contains(key_action(k, false)));
                }
                if k != k0 && count_of(down, k) > 0 && count_of(d2, k) == 0 {
                    assert(count_of(d1, k) == count_of(d2, k));
                    assert(a1.contains(key_action(k, false)));
                    let i = choose|i: int| 0 <= i < a1.len() && a1[i] == key_action(k, false);
                    assert(a2[i] == key_action(k, false));
                }
                if k == k0 {
                    assert(a2[a1.len() as int] == key_action(k, false));
                }
            }
            assert forall|i: int, j: int|
                0 <= i < j < a2.len() && a2[i] is Key && a2[j] is Key implies a2[i]->key@ != a2[j]->key@ by {
                if j == a1.len() {
                    assert(a1[i] == key_action(a1[i]->key@, false));
                    if a1[i]->key@ == k0 {
                        assert(a1.contains(key_action(k0, false)));
                    }
                }
            }
        } else if d1.contains_key(k0) {
            assert(d2 == d1.insert(k0, (d1[k0] - 1) as nat));
            assert(a2 == a1);
            assert forall|k: u16| #[trigger] a2.contains(key_action(k, false)) <==> (count_of(down, k) > 0
                && count_of(d2, k) == 0) by {
                if k != k0 {
                    assert(count_of(d1, k) == count_of(d2, k));
                }
            }
        } else {
            assert(d2 == d1 && a2 == a1);
        }
    }
}

/// Per key, a translated event injects a press exactly when the key's count
/// leaves zero and a release exactly when it falls back to zero; no key
/// appears twice among the actions. (A second press of a code already held
/// counts its keys again, so a later release leaves them down.)
pub proof fn lemma_translate_edges(v: TranslatorView, e: EventView)
    requires
        counts_positive(v.2),
    ensures
        ({
            let (v1, actions) = translate_spec(v, e);
            &&& forall|k: u16|
                #[trigger] actions.contains(key_action(k, true)) <==> (count_of(v.2, k) == 0 && count_of(v1.2, k)
                    > 0)
            &&& forall|k: u16|
                #[trigger] actions.contains(key_action(k, false)) <==> (count_of(v.2, k) > 0 && count_of(v1.2, k)
                    == 0)
            &&& keys_once(actions)
        }),
{
    let source = (e.0, e.2);
    let (v1, actions) = translate_spec(v, e);
    if e.1 != EV_KEY || table_lookup(v.0, source) is None {
        assert(actions == seq![crate::event::forward_of(e)]);
        assert forall|k: u16| !actions.contains(key_action(k, true)) && !actions.contains(key_action(k, false)) by {
            if actions.contains(key_action(k, true)) || actions.contains(key_action(k, false)) {
                assert(actions[0] is Forward);
            }
        }
    } else {
        let combo = (table_lookup(v.0, source)->0).1;
        if e.3 == KEY_PRESS {
            let keys = press_codes(combo.0, combo.1);
            lemma_press_edges(v.2, keys);
            assert forall|k: u16| !actions.contains(key_action(k, false)) by {
                if actions.contains(key_action(k, false)) {
                    let i = choose|i: int| 0 <= i < actions.len() && actions[i] == key_action(k, false);
                    assert(actions[i] == key_action(actions[i]->key@, true));
                }
            }
            assert forall|k: u16| !(count_of(v.2, k) > 0 && count_of(v1.2, k) == 0) by {
            }
        } else if e.3 == KEY_RELEASE && v.1.contains_key(source) {
            let keys = v.1[source].reverse();
            lemma_release_edges(v.2, keys);
            assert forall|k: u16| !actions.contains(key_action(k, true)) by {
                if actions.contains(key_action(k, true)) {
                    let i = choose|i: int| 0 <= i < actions.len() && actions[i] == key_action(k, true);
                    assert(actions[i] == key_action(actions[i]->key@, false));
                }
            }
            assert forall|k: u16| !(count_of(v.2, k) == 0 && count_of(v1.2, k) > 0) by {
            }
        } else {
            assert(actions.len() == 0);
            assert forall|k: u16| !actions.contains(key_action(k, true)) && !actions.contains(key_action(k, false)) by {
            }
        }
    }
}

/// A held source code with the keys it holds.
pub type Holding = (crate::calibration::CodeView, Seq<u16>);

/// The held source codes with the keys each holds.
pub open spec fn holdings(held: Map<crate::calibration::CodeView, Seq<u16>>) -> Set<Holding> {
    held.dom().map(|s: crate::calibration::CodeView| (s, held[s]))
}

/// Adds how many times a holding holds `k`.
pub open spec fn add_mult(k: u16) -> spec_fn(nat, Holding) -> nat {
    |acc: nat, h: Holding| acc + mult(h.1, k)
}

/// How many times the held combinations hold `k`, all together.
pub open spec fn held_mult(held: Map<crate::calibration::CodeView, Seq<u16>>, k: u16) -> nat {
    holdings(held).fold(0nat, add_mult(k))
}

/// The count of every injected key is how many times the held combinations
/// hold it.
pub open spec fn counts_match(v: TranslatorView) -> bool {
    &&& v.1.dom().finite()
    &&& forall|k: u16| #[trigger] count_of(v.2, k) == held_mult(v.1, k)
}

proof fn lemma_add_mult_commutative(k: u16)
    ensures
        vstd::set::fold::is_fun_commutative(add_mult(k)),
{
}

proof fn lemma_mult_contains(s: Seq<u16>, k: u16)
    ensures
        mult(s, k) > 0 <==> s.contains(k),
    decreases s.len(),
{
    if s.len() > 0 {
        lemma_mult_contains(s.drop_last(), k);
        if s.drop_last().contains(k) {
            let i = choose|i: int| 0 <= i < s.drop_last().len() && s.drop_last()[i] == k;
            assert(s[i] == k);
        }
        if s.contains(k) {
            let i = choose|i: int| 0 <= i < s.len() && s[i] == k;
            if i < s.len() - 1 {
                assert(s.drop_last()[i] == k);
            }
        }
    }
}

/// Adding a source code that is not held adds its holding.
proof fn lemma_holdings_insert(held: Map<crate::calibration::CodeView, Seq<u16>>, s: crate::calibration::CodeView, keys: Seq<u16>)
    requires
        held.dom().finite(),
        !held.contains_key(s),
    ensures
        holdings(held).finite(),
        !holdings(held).contains((s, keys)),
        holdings(held.insert(s, keys)) == holdings(held).insert((s, keys)),
{
    let f = |x: crate::calibration::CodeView| (x, held[x]);
    held.dom().lemma_map_finite(f);
    let h2 = held.insert(s, keys);
    assert forall|h: Holding| #[trigger] holdings(h2).contains(h) <==> holdings(held).insert((s, keys)).contains(h) by {
        if holdings(h2).contains(h) {
            let x = choose|x: crate::calibration::CodeView| h2.dom().contains(x) && h == (x, h2[x]);
            if x != s {
                assert(held.dom().contains(x) && h == (x, held[x]));
            }
        }
        if holdings(held).contains(h) {
            let x = choose|x: crate::calibration::CodeView| held.dom().contains(x) && h == (x, held[x]);
            assert(h2.dom().contains(x) && h == (x, h2[x]));
        }
        if h == (s, keys) {
            assert(h2.dom().contains(s) && h == (s, h2[s]));
        }
    }
    assert(holdings(h2) =~= holdings(held).insert((s, keys)));
}

/// Adding a holding adds how often it holds each key.
proof fn lemma_held_mult_insert(held: Map<crate::calibration::CodeView, Seq<u16>>, s: crate::calibration::CodeView, keys: Seq<u16>, k: u16)
    requires
        held.dom().finite(),
        !held.contains_key(s),
    ensures
        held_mult(held.insert(s, keys), k) == held_mult(held, k) + mult(keys, k),
{
    lemma_holdings_insert(held, s, keys);
    lemma_add_mult_commutative(k);
    vstd::set::fold::lemma_fold_insert(holdings(held), 0nat, add_mult(k), (s, keys));
}

/// The held combinations hold a key exactly when one of them holds it.
proof fn lemma_held_mult_positive(held: Map<crate::calibration::CodeView, Seq<u16>>, k: u16)
    requires
        held.dom().finite(),
    ensures
        held_mult(held, k) > 0 <==> exists|s: crate::calibration::CodeView| #[trigger] held.contains_key(s)
            && held[s].contains(k),
    decreases held.dom().len(),
{
    if held.dom().len() == 0 {
        assert(held.dom() =~= Set::<crate::calibration::CodeView>::empty());
        assert(holdings(held) =~= Set::<Holding>::empty());
        vstd::set::fold::lemma_fold_empty(0nat, add_mult(k));
    } else {
        let s = held.dom().choose();
        let rest = held.remove(s);
        assert(rest.insert(s, held[s]) =~= held);
        lemma_held_mult_positive(rest, k);
        lemma_held_mult_insert(rest, s, held[s], k);
        lemma_mult_contains(held[s], k);
        if exists|x: crate::calibration::CodeView| #[trigger] held.contains_key(x) && held[x].contains(k) {
            let x = choose|x: crate::calibration::CodeView| #[trigger] held.contains_key(x) && held[x].contains(k);
            if x != s {
                assert(rest.contains_key(x) && rest[x].contains(k));
            }
        }
        if exists|x: crate::calibration::CodeView| #[trigger] rest.contains_key(x) && rest[x].contains(k) {
            let x = choose|x: crate::calibration::CodeView| #[trigger] rest.contains_key(x) && rest[x].contains(k);
            assert(held.contains_key(x) && held[x].contains(k));
        }
    }
}

/// A translator that holds nothing matches its counts.
pub proof fn lemma_idle_counts_match(table: Seq<crate::translation::EntryView>)
    ensures
        counts_match((table, Map::<crate::calibration::CodeView, Seq<u16>>::empty(), Map::<u16, nat>::empty())),
{
    let held = Map::<crate::calibration::CodeView, Seq<u16>>::empty();
    assert(held.dom() =~= Set::<crate::calibration::CodeView>::empty());
    assert forall|k: u16| #[trigger] count_of(Map::<u16, nat>::empty(), k) == held_mult(held, k) by {
        assert(holdings(held) =~= Set::<Holding>::empty());
        vstd::set::fold::lemma_fold_empty(0nat, add_mult(k));
    }
}

/// Whether an event presses a mapped code that is already held: the one
/// case where the counts outgrow the held combinations.
pub open spec fn presses_held_code(v: TranslatorView, e: EventView) -> bool {
    &&& e.1 == EV_KEY
    &&& e.3 == KEY_PRESS
    &&& table_lookup(v.0, (e.0, e.2)) is Some
    &&& v.1.contains_key((e.0, e.2))
}

/// Every event but a second press of a held code keeps each injected key's
/// count equal to how many times the held combinations hold it (unless a
/// count would pass the 32-bit ceiling).
pub proof fn lemma_translate_keeps_counts(v: TranslatorView, e: EventView)
    requires
        counts_match(v),
        counts_positive(v.2),
        !presses_held_code(v, e),
        e.1 == EV_KEY && e.3 == KEY_PRESS && table_lookup(v.0, (e.0, e.2)) is Some ==> no_saturation(
            v.2,
            combination_keys(v, e),
        ),
    ensures
        counts_match(translate_spec(v, e).0),
        counts_positive(translate_spec(v, e).0.2),
{
    let src = (e.0, e.2);
    let (v1, actions) = translate_spec(v, e);
    if e.1 == EV_KEY && table_lookup(v.0, src) is Some {
        if e.3 == KEY_PRESS {
            let keys = combination_keys(v, e);
            lemma_press_counts(v.2, keys);
            assert forall|k: u16| #[trigger] count_of(v1.2, k) == held_mult(v1.1, k) by {
                lemma_held_mult_insert(v.1, src, keys, k);
            }
        } else if e.3 == KEY_RELEASE && v.1.contains_key(src) {
            let keys = v.1[src];
            let rest = v.1.remove(src);
            assert(rest.insert(src, keys) =~= v.1);
            assert forall|k: u16| mult(keys.reverse(), k) <= #[trigger] count_of(v.2, k) by {
                lemma_mult_reverse(keys, k);
                lemma_held_mult_insert(rest, src, keys, k);
            }
            lemma_release_counts(v.2, keys.reverse());
            assert forall|k: u16| #[trigger] count_of(v1.2, k) == held_mult(v1.1, k) by {
                lemma_mult_reverse(keys, k);
                lemma_held_mult_insert(rest, src, keys, k);
            }
        }
    }
}

/// Per key, in terms of the held combinations: but for a second press of a
/// held code, an event injects a key exactly when no held combination held
/// it before and one does after, and releases it exactly when the last
/// combination holding it lets it go; no key appears twice.
pub proof fn lemma_translate_held_edges(v: TranslatorView, e: EventView)
    requires
        counts_match(v),
        counts_positive(v.2),
        !presses_held_code(v, e),
        e.1 == EV_KEY && e.3 == KEY_PRESS && table_lookup(v.0, (e.0, e.2)) is Some ==> no_saturation(
            v.2,
            combination_keys(v, e),
        ),
    ensures
        ({
            let (v1, actions) = translate_spec(v, e);
            &&& forall|k: u16|
                #[trigger] actions.contains(key_action(k, true)) <==> (held_mult(v.1, k) == 0 && held_mult(v1.1, k) > 0)
            &&& forall|k: u16|
                #[trigger] actions.contains(key_action(k, false)) <==> (held_mult(v.1, k) > 0 && held_mult(v1.1, k) == 0)
            &&& keys_once(actions)
        }),
{
    lemma_translate_keeps_counts(v, e);
    lemma_translate_edges(v, e);
    let (v1, actions) = translate_spec(v, e);
    assert forall|k: u16| count_of(v.2, k) == held_mult(v.1, k) && count_of(v1.2, k) == held_mult(v1.1, k) by {
    }
}

/// Releasing everything lets go of exactly the keys some held combination
/// holds, when the counts match the held combinations.
pub proof fn lemma_release_all_held(v: TranslatorView, actions: Seq<Action>)
    requires
        counts_match(v),
        counts_positive(v.2),
        releases_in_order(actions, v.2),
    ensures
        forall|k: u16|
            #[trigger] actions.contains(key_action(k, false)) <==> exists|s: crate::calibration::CodeView|
                #[trigger] v.1.contains_key(s) && v.1[s].contains(k),
{
    assert forall|k: u16|
        #[trigger] actions.contains(key_action(k, false)) <==> exists|s: crate::calibration::CodeView|
            #[trigger] v.1.contains_key(s) && v.1[s].contains(k) by {
        lemma_held_mult_positive(v.1, k);
        assert(count_of(v.2, k) == held_mult(v.1, k));
        if actions.contains(key_action(k, false)) {
            let i = choose|i: int| 0 <= i < actions.len() && actions[i] == key_action(k, false);
            assert(actions[i]->key@ == k);
        }
        if v.2.contains_key(k) {
            let i = choose|i: int| 0 <= i < actions.len() && actions[i]->key@ == k;
            assert(actions[i] matches Action::Key { pressed, .. } && !pressed);
            assert(actions[i] == key_action(k, false));
        }
    }
}

} // verus!
