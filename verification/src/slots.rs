//! Specifications over the 12 per-button slots that calibrations and
//! profiles keep (slot `i` belongs to button `i + 1`).

use vstd::prelude::*;

verus! {

/// Number of filled slots.
pub open spec fn count_some<T>(s: Seq<Option<T>>) -> nat
    decreases s.len(),
{
    if s.len() == 0 {
        0
    } else {
        count_some(s.drop_last()) + if s.last() is Some {
            1nat
        } else {
            0nat
        }
    }
}

/// Every slot is filled.
pub open spec fn all_some<T>(s: Seq<Option<T>>) -> bool {
    forall|i: int| 0 <= i < s.len() ==> (#[trigger] s[i]) is Some
}

/// The filled slots as (button number, value), in button order.
pub open spec fn present<T>(s: Seq<Option<T>>) -> Seq<(int, T)>
    decreases s.len(),
{
    if s.len() == 0 {
        Seq::empty()
    } else {
        present(s.drop_last()) + match s.last() {
            Some(v) => seq![(s.len() as int, v)],
            None => Seq::empty(),
        }
    }
}

/// The button numbers of the empty slots, in button order.
pub open spec fn absent<T>(s: Seq<Option<T>>) -> Seq<int>
    decreases s.len(),
{
    if s.len() == 0 {
        Seq::empty()
    } else {
        absent(s.drop_last()) + if s.last() is None {
            seq![s.len() as int]
        } else {
            Seq::empty()
        }
    }
}

/// The empty slots and the filled ones share the slots out, and a slot is
/// listed empty exactly when it holds nothing.
pub proof fn lemma_absent<T>(s: Seq<Option<T>>)
    ensures
        absent(s).len() + count_some(s) == s.len(),
        forall|b: int| absent(s).contains(b) <==> 1 <= b <= s.len() && s[b - 1] is None,
    decreases s.len(),
{
    if s.len() > 0 {
        let t = s.drop_last();
        lemma_absent(t);
        assert forall|b: int| absent(s).contains(b) <==> 1 <= b <= s.len() && s[b - 1] is None by {
            let tail: Seq<int> = if s.last() is None { seq![s.len() as int] } else { Seq::empty() };
            assert(absent(s) == absent(t) + tail);
            if absent(s).contains(b) {
                let k = choose|k: int| 0 <= k < absent(s).len() && absent(s)[k] == b;
                if k < absent(t).len() {
                    assert(absent(t)[k] == b);
                    assert(absent(t).contains(b));
                    assert(s[b - 1] == t[b - 1]);
                } else {
                    assert(tail[k - absent(t).len()] == b);
                }
            }
            if 1 <= b <= s.len() && s[b - 1] is None {
                if b < s.len() {
                    assert(t[b - 1] == s[b - 1]);
                    assert(absent(t).contains(b));
                    let k = choose|k: int| 0 <= k < absent(t).len() && absent(t)[k] == b;
                    assert(absent(s)[k] == b);
                } else {
                    assert(absent(s)[absent(t).len() as int] == b);
                }
            }
        }
    } else {
        assert(absent(s) =~= Seq::<int>::empty());
    }
}

/// Twelve empty slots.
pub open spec fn empty_slots<T>() -> Seq<Option<T>> {
    Seq::new(12, |i: int| None)
}

pub proof fn lemma_take_step<T>(s: Seq<Option<T>>, i: int)
    requires
        0 <= i < s.len(),
    ensures
        s.take(i + 1).drop_last() == s.take(i),
        s.take(i + 1).last() == s[i],
        s.take(i + 1).len() == i + 1,
{
    assert(s.take(i + 1).drop_last() =~= s.take(i));
}

pub proof fn lemma_present_len<T>(s: Seq<Option<T>>)
    ensures
        present(s).len() == count_some(s),
    decreases s.len(),
{
    if s.len() > 0 {
        lemma_present_len(s.drop_last());
    }
}

/// Entries of `present` are exactly the filled slots, strictly increasing.
pub proof fn lemma_present_members<T>(s: Seq<Option<T>>)
    ensures
        forall|k: int|
            0 <= k < present(s).len() ==> {
                let (b, v) = #[trigger] present(s)[k];
                1 <= b <= s.len() && s[b - 1] == Some(v)
            },
        forall|k: int, l: int| 0 <= k < l < present(s).len() ==> present(s)[k].0 < present(s)[l].0,
        forall|i: int|
            0 <= i < s.len() && (#[trigger] s[i]) is Some ==> exists|k: int|
                0 <= k < present(s).len() && present(s)[k] == (i + 1, s[i]->0),
    decreases s.len(),
{
    if s.len() > 0 {
        let p = s.drop_last();
        lemma_present_members(p);
        assert forall|i: int| 0 <= i < s.len() && (#[trigger] s[i]) is Some implies exists|k: int|
            0 <= k < present(s).len() && present(s)[k] == (i + 1, s[i]->0) by {
            if i < s.len() - 1 {
                assert(p[i] == s[i]);
                let k = choose|k: int| 0 <= k < present(p).len() && present(p)[k] == (i + 1, p[i]->0);
                assert(present(s)[k] == present(p)[k]);
            } else {
                assert(present(s)[present(p).len() as int] == (i + 1, s[i]->0));
            }
        }
    }
}

/// Filling every slot leaves no empty one.
pub proof fn lemma_all_some_count<T>(s: Seq<Option<T>>)
    ensures
        all_some(s) <==> count_some(s) == s.len(),
        count_some(s) <= s.len(),
    decreases s.len(),
{
    if s.len() > 0 {
        lemma_all_some_count(s.drop_last());
        if all_some(s) {
            assert(all_some(s.drop_last()));
        }
        if count_some(s) == s.len() {
            assert forall|i: int| 0 <= i < s.len() implies (#[trigger] s[i]) is Some by {
                if i < s.len() - 1 {
                    assert(s.drop_last()[i] == s[i]);
                }
            }
        }
    }
}

} // verus!
