//! Stateful event translator.

use vstd::prelude::*;

use crate::assoc::{
    assoc_map, key_at, keys_distinct, lemma_assoc_absent, lemma_assoc_at, lemma_assoc_empty,
    lemma_assoc_len, lemma_assoc_push, lemma_assoc_remove, lemma_assoc_update,
};
use crate::calibration::CodeView;
use crate::combo::press_codes;
use crate::event::{forward_of, forwarded, Action, EventView, InputEvent, EV_KEY, KEY_PRESS, KEY_RELEASE};
use crate::key::KeyCode;
use crate::node::NodeId;
use crate::translation::{table_lookup, EntryView, TranslationTable};

verus! {

/// View of a translator: the table, the key codes held for each source
/// code, and how many holders each injected key has.
pub type TranslatorView = (Seq<EntryView>, Map<CodeView, Seq<u16>>, Map<u16, nat>);

/// Number of holders of an injected key (zero when it is not down).
pub open spec fn count_of(down: Map<u16, nat>, k: u16) -> nat {
    if down.contains_key(k) {
        down[k]
    } else {
        0
    }
}

/// One more holder; the count stays at the 32-bit ceiling once there.
pub open spec fn bump(c: nat) -> nat {
    if c < u32::MAX {
        c + 1
    } else {
        c
    }
}

pub open spec fn key_action(k: u16, pressed: bool) -> Action {
    Action::Key { key: KeyCode(k), pressed }
}

/// Presses keys in order: each gains a holder, and a key that had none is injected.
pub open spec fn press_keys(down: Map<u16, nat>, keys: Seq<u16>) -> (Map<u16, nat>, Seq<Action>)
    decreases keys.len(),
{
    if keys.len() == 0 {
        (down, Seq::empty())
    } else {
        let (d1, a1) = press_keys(down, keys.drop_last());
        let k = keys.last();
        let c = count_of(d1, k);
        (d1.insert(k, bump(c)), if c == 0 {
            a1.push(key_action(k, true))
        } else {
            a1
        })
    }
}

/// Lets keys go in order: each loses a holder, and a key left without
/// holder is released.
pub open spec fn release_keys(down: Map<u16, nat>, keys: Seq<u16>) -> (Map<u16, nat>, Seq<Action>)
    decreases keys.len(),
{
    if keys.len() == 0 {
        (down, Seq::empty())
    } else {
        let (d1, a1) = release_keys(down, keys.drop_last());
        let k = keys.last();
        if d1.contains_key(k) {
            if d1[k] <= 1 {
                (d1.remove(k), a1.push(key_action(k, false)))
            } else {
                (d1.insert(k, (d1[k] - 1) as nat), a1)
            }
        } else {
            (d1, a1)
        }
    }
}

/// What one event does to a translator, and the actions it yields.
///
/// Non-key events and codes the table does not map are forwarded as-is. A
/// press of a mapped code presses its combination (modifiers, then key);
/// its release lets the same keys go in reverse order; repeats are
/// swallowed, as is a release of a code that is not held.
pub open spec fn translate_spec(v: TranslatorView, e: EventView) -> (TranslatorView, Seq<Action>) {
    let (table, held, down) = v;
    let source = (e.0, e.2);
    if e.1 != EV_KEY {
        (v, seq![forward_of(e)])
    } else {
        match table_lookup(table, source) {
            None => (v, seq![forward_of(e)]),
            Some((_button, combo)) => {
                if e.3 == KEY_PRESS {
                    let keys = press_codes(combo.0, combo.1);
                    let (d1, actions) = press_keys(down, keys);
                    ((table, held.insert(source, keys), d1), actions)
                } else if e.3 == KEY_RELEASE {
                    if held.contains_key(source) {
                        let (d1, actions) = release_keys(down, held[source].reverse());
                        ((table, held.remove(source), d1), actions)
                    } else {
                        (v, Seq::empty())
                    }
                } else {
                    (v, Seq::empty())
                }
            },
        }
    }
}

/// `actions` releases every key of `down` once, in increasing code order.
pub open spec fn releases_in_order(actions: Seq<Action>, down: Map<u16, nat>) -> bool {
    &&& forall|i: int| 0 <= i < actions.len() ==> ((#[trigger] actions[i]) matches Action::Key { pressed, .. } && !pressed)
    &&& forall|i: int, j: int| 0 <= i < j < actions.len() ==> actions[i]->key@ < actions[j]->key@
    &&& forall|k: u16| down.contains_key(k) <==> exists|i: int| 0 <= i < actions.len() && actions[i]->key@ == k
}

/// With nothing held, a release in order is empty.
pub proof fn lemma_idle_releases_nothing(actions: Seq<Action>, down: Map<u16, nat>)
    requires
        releases_in_order(actions, down),
        down == Map::<u16, nat>::empty(),
    ensures
        actions.len() == 0,
{
    if actions.len() > 0 {
        assert(down.contains_key(actions[0]->key@));
    }
}

spec fn codes_of(v: Seq<KeyCode>) -> Seq<u16> {
    v.map_values(|k: KeyCode| k@)
}

spec fn down_seq(v: Seq<(KeyCode, u32)>) -> Seq<(u16, nat)> {
    v.map_values(|e: (KeyCode, u32)| (e.0@, e.1 as nat))
}

spec fn down_ok(v: Seq<(KeyCode, u32)>) -> bool {
    &&& keys_distinct(down_seq(v))
    &&& forall|i: int| 0 <= i < v.len() ==> (#[trigger] v[i]).1 >= 1
}

spec fn held_seq(v: Seq<(NodeId, u16, Vec<KeyCode>)>) -> Seq<(CodeView, Seq<u16>)> {
    v.map_values(|e: (NodeId, u16, Vec<KeyCode>)| ((e.0@, e.1), codes_of(e.2@)))
}

/// Every injected key in a well-formed state has at least one holder.
pub open spec fn counts_positive(down: Map<u16, nat>) -> bool {
    forall|k: u16| down.contains_key(k) ==> 1 <= #[trigger] down[k] <= u32::MAX
}

fn down_find(down: &Vec<(KeyCode, u32)>, k: u16) -> (r: Option<usize>)
    ensures
        r matches Some(j) ==> key_at(down_seq(down@), k, j as int),
        r is None ==> forall|j: int| 0 <= j < down@.len() ==> down_seq(down@)[j].0 != k,
{
    let mut j: usize = 0;
    while j < down.len()
        invariant
            j <= down@.len(),
            forall|x: int| 0 <= x < j ==> down_seq(down@)[x].0 != k,
        decreases down@.len() - j,
    {
        if down[j].0.0 == k {
            return Some(j);
        }
        j = j + 1;
    }
    None
}

proof fn lemma_down_counts(v: Seq<(KeyCode, u32)>)
    requires
        down_ok(v),
    ensures
        counts_positive(assoc_map(down_seq(v))),
{
    let s = down_seq(v);
    assert forall|k: u16| assoc_map(s).contains_key(k) implies 1 <= #[trigger] assoc_map(s)[k] <= u32::MAX by {
        let j = choose|j: int| key_at(s, k, j);
        lemma_assoc_at(s, j);
    }
}

fn press_into(down: &mut Vec<(KeyCode, u32)>, keys: &Vec<KeyCode>) -> (actions: Vec<Action>)
    requires
        down_ok(old(down)@),
    ensures
        down_ok(final(down)@),
        (assoc_map(down_seq(final(down)@)), actions@) == press_keys(
            assoc_map(down_seq(old(down)@)),
            codes_of(keys@),
        ),
{
    let ghost d0 = assoc_map(down_seq(down@));
    let mut actions: Vec<Action> = Vec::new();
    let mut i: usize = 0;
    while i < keys.len()
        invariant
            i <= keys@.len(),
            down_ok(down@),
            (assoc_map(down_seq(down@)), actions@) == press_keys(d0, codes_of(keys@).take(i as int)),
        decreases keys@.len() - i,
    {
        let k = keys[i];
        let ghost before = down@;
        proof {
            assert(codes_of(keys@).take(i + 1).drop_last() =~= codes_of(keys@).take(i as int));
            assert(codes_of(keys@).take(i + 1).last() == k@);
        }
        match down_find(down, k.0) {
            Some(j) => {
                let c = down[j].1;
                let nc = if c < u32::MAX {
                    c + 1
                } else {
                    c
                };
                down.set(j, (k, nc));
                proof {
                    lemma_assoc_at(down_seq(before), j as int);
                    lemma_assoc_update(down_seq(before), j as int, nc as nat);
                    assert(down_seq(down@) =~= down_seq(before).update(j as int, (k@, nc as nat)));
                }
            },
            None => {
                proof {
                    lemma_assoc_absent(down_seq(before), k@);
                    lemma_assoc_push(down_seq(before), k@, 1);
                }
                down.push((k, 1));
                actions.push(Action::Key { key: k, pressed: true });
                assert(down_seq(down@) =~= down_seq(before).push((k@, 1nat)));
            },
        }
        i = i + 1;
    }
    assert(codes_of(keys@).take(keys@.len() as int) =~= codes_of(keys@));
    actions
}

fn release_from(down: &mut Vec<(KeyCode, u32)>, keys: &Vec<KeyCode>) -> (actions: Vec<Action>)
    requires
        down_ok(old(down)@),
    ensures
        down_ok(final(down)@),
        (assoc_map(down_seq(final(down)@)), actions@) == release_keys(
            assoc_map(down_seq(old(down)@)),
            codes_of(keys@).reverse(),
        ),
{
    let ghost d0 = assoc_map(down_seq(down@));
    let ghost order = codes_of(keys@).reverse();
    let mut actions: Vec<Action> = Vec::new();
    let n = keys.len();
    let mut t: usize = 0;
    while t < n
        invariant
            n == keys@.len(),
            order == codes_of(keys@).reverse(),
            t <= n,
            down_ok(down@),
            (assoc_map(down_seq(down@)), actions@) == release_keys(d0, order.take(t as int)),
        decreases n - t,
    {
        let k = keys[n - 1 - t];
        let ghost before = down@;
        proof {
            assert(order.take(t + 1).drop_last() =~= order.take(t as int));
            assert(order.take(t + 1).last() == k@);
        }
        match down_find(down, k.0) {
            Some(j) => {
                let c = down[j].1;
                proof {
                    lemma_assoc_at(down_seq(before), j as int);
                }
                if c <= 1 {
                    proof {
                        lemma_assoc_remove(down_seq(before), j as int);
                    }
                    down.remove(j);
                    actions.push(Action::Key { key: k, pressed: false });
                    assert(down_seq(down@) =~= down_seq(before).remove(j as int));
                } else {
                    down.set(j, (k, c - 1));
                    proof {
                        lemma_assoc_update(down_seq(before), j as int, (c - 1) as nat);
                        assert(down_seq(down@) =~= down_seq(before).update(j as int, (k@, (c - 1) as nat)));
                    }
                }
            },
            None => {
                proof {
                    lemma_assoc_absent(down_seq(before), k@);
                }
            },
        }
        t = t + 1;
    }
    assert(order.take(n as int) =~= order);
    actions
}

fn held_find(held: &Vec<(NodeId, u16, Vec<KeyCode>)>, node: &NodeId, code: u16) -> (r: Option<usize>)
    ensures
        r matches Some(j) ==> key_at(held_seq(held@), (node@, code), j as int),
        r is None ==> forall|j: int| 0 <= j < held@.len() ==> held_seq(held@)[j].0 != (node@, code),
{
    let mut j: usize = 0;
    while j < held.len()
        invariant
            j <= held@.len(),
            forall|x: int| 0 <= x < j ==> held_seq(held@)[x].0 != (node@, code),
        decreases held@.len() - j,
    {
        if held[j].1 == code && held[j].0.same_as(node) {
            return Some(j);
        }
        j = j + 1;
    }
    None
}

fn clone_keys(keys: &Vec<KeyCode>) -> (r: Vec<KeyCode>)
    ensures
        r@ == keys@,
{
    let mut r: Vec<KeyCode> = Vec::new();
    let mut i: usize = 0;
    while i < keys.len()
        invariant
            i <= keys@.len(),
            r@ == keys@.take(i as int),
        decreases keys@.len() - i,
    {
        r.push(keys[i]);
        assert(keys@.take(i + 1) =~= keys@.take(i as int).push(keys@[i as int]));
        i = i + 1;
    }
    assert(keys@.take(i as int) =~= keys@);
    r
}

/// Sorts distinct key codes increasingly.
fn sorted_codes(codes: &Vec<u16>) -> (r: Vec<u16>)
    requires
        codes@.no_duplicates(),
    ensures
        forall|i: int, j: int| 0 <= i < j < r@.len() ==> r@[i] < r@[j],
        r@.to_set() == codes@.to_set(),
        r@.len() == codes@.len(),
{
    let mut r: Vec<u16> = Vec::new();
    let mut i: usize = 0;
    while i < codes.len()
        invariant
            i <= codes@.len(),
            codes@.no_duplicates(),
            r@.len() == i,
            forall|a: int, b: int| 0 <= a < b < r@.len() ==> r@[a] < r@[b],
            forall|x: u16| r@.contains(x) <==> codes@.take(i as int).contains(x),
        decreases codes@.len() - i,
    {
        let k = codes[i];
        let mut pos: usize = 0;
        while pos < r.len() && r[pos] < k
            invariant
                pos <= r@.len(),
                forall|a: int| 0 <= a < pos ==> r@[a] < k,
            decreases r@.len() - pos,
        {
            pos = pos + 1;
        }
        proof {
            assert(!codes@.take(i as int).contains(k)) by {
                if codes@.take(i as int).contains(k) {
                    let a = choose|a: int| 0 <= a < i && codes@.take(i as int)[a] == k;
                    assert(codes@[a] == codes@[i as int]);
                }
            }
            assert(!r@.contains(k));
            if pos < r@.len() {
                assert(r@[pos as int] != k);
            }
        }
        let ghost before = r@;
        r.insert(pos, k);
        proof {
            assert forall|a: int, b: int| 0 <= a < b < r@.len() implies r@[a] < r@[b] by {
                if b < pos {
                } else if a < pos && b == pos {
                } else if a < pos {
                    assert(r@[b] == before[b - 1]);
                    if pos < before.len() {
                        assert(before[pos as int] > k);
                    }
                } else if a == pos {
                    assert(r@[b] == before[b - 1]);
                    assert(before[pos as int] > k);
                    assert(before[pos as int] <= before[b - 1]);
                } else {
                    assert(r@[a] == before[a - 1] && r@[b] == before[b - 1]);
                }
            }
            let next = codes@.take(i + 1);
            assert(next =~= codes@.take(i as int).push(k));
            assert forall|x: u16| r@.contains(x) <==> next.contains(x) by {
                if r@.contains(x) {
                    let a = choose|a: int| 0 <= a < r@.len() && r@[a] == x;
                    if a < pos {
                        assert(before[a] == x);
                    } else if a > pos {
                        assert(before[a - 1] == x);
                    }
                    if x != k {
                        assert(before.contains(x));
                        assert(codes@.take(i as int).contains(x));
                        let c = choose|c: int| 0 <= c < i && codes@.take(i as int)[c] == x;
                        assert(next[c] == x);
                    } else {
                        assert(next[i as int] == x);
                    }
                }
                if next.contains(x) {
                    let c = choose|c: int| 0 <= c < next.len() && next[c] == x;
                    if c == i {
                        assert(r@[pos as int] == x);
                    } else {
                        assert(codes@.take(i as int)[c] == x);
                        assert(before.contains(x));
                        let a = choose|a: int| 0 <= a < before.len() && before[a] == x;
                        if a < pos {
                            assert(r@[a] == x);
                        } else {
                            assert(r@[a + 1] == x);
                        }
                    }
                }
            }
        }
        i = i + 1;
    }
    proof {
        assert(codes@.take(i as int) =~= codes@);
        assert forall|x: u16| r@.to_set().contains(x) == codes@.to_set().contains(x) by {}
        assert(r@.to_set() =~= codes@.to_set());
    }
    r
}

/// Stateful event translator.
///
/// Forwards everything as-is, except calibrated and mapped codes, which are
/// translated to key combinations. Injected codes are reference-counted:
/// two buttons holding the same key or modifier inject it once and release
/// it only when the last holder releases.
pub struct Translator {
    table: TranslationTable,
    held: Vec<(NodeId, u16, Vec<KeyCode>)>,
    down: Vec<(KeyCode, u32)>,
}

impl View for Translator {
    type V = TranslatorView;

    closed spec fn view(&self) -> TranslatorView {
        (self.table@, assoc_map(held_seq(self.held@)), assoc_map(down_seq(self.down@)))
    }
}

impl Translator {
    #[verifier::type_invariant]
    spec fn well_formed(self) -> bool {
        &&& keys_distinct(held_seq(self.held@))
        &&& down_ok(self.down@)
    }

    /// Every injected key has between one and `u32::MAX` holders.
    pub fn check_well_formed(&self)
        ensures
            counts_positive(self@.2),
            self@.1.dom().finite(),
    {
        proof {
            use_type_invariant(self);
            lemma_down_counts(self.down@);
            lemma_assoc_len(held_seq(self.held@));
        }
    }

    pub fn new(table: TranslationTable) -> (t: Translator)
        ensures
            t@ == (table@, Map::<CodeView, Seq<u16>>::empty(), Map::<u16, nat>::empty()),
    {
        let t = Translator { table, held: Vec::new(), down: Vec::new() };
        proof {
            assert(held_seq(t.held@) =~= Seq::empty());
            assert(down_seq(t.down@) =~= Seq::empty());
            lemma_assoc_empty::<CodeView, Seq<u16>>();
            lemma_assoc_empty::<u16, nat>();
        }
        t
    }

    pub fn table(&self) -> (t: &TranslationTable)
        ensures
            t@ == self@.0,
    {
        &self.table
    }

    /// Replaces the table and releases everything held.
    pub fn set_table(&mut self, table: TranslationTable) -> (cleanup: Vec<Action>)
        ensures
            final(self)@ == (table@, Map::<CodeView, Seq<u16>>::empty(), Map::<u16, nat>::empty()),
            releases_in_order(cleanup@, old(self)@.2),
    {
        let cleanup = self.release_all();
        proof {
            use_type_invariant(&*self);
        }
        self.table = table;
        cleanup
    }

    /// Translates one event, updating what is held.
    pub fn translate(&mut self, event: &InputEvent) -> (actions: Vec<Action>)
        ensures
            (final(self)@, actions@) == translate_spec(old(self)@, event@),
    {
        proof {
            use_type_invariant(&*self);
        }
        if event.event_type != EV_KEY {
            return vec![forwarded(event)];
        }
        let found = self.table.lookup(&event.node, event.code);
        let combination = match found {
            None => {
                return vec![forwarded(event)];
            },
            Some((_, combination)) => combination.clone(),
        };
        let ghost source = (event.node@, event.code);
        if event.value == KEY_PRESS {
            let sequence = combination.press_sequence();
            let mut down: Vec<(KeyCode, u32)> = Vec::new();
            std::mem::swap(&mut down, &mut self.down);
            let actions = press_into(&mut down, &sequence);
            std::mem::swap(&mut down, &mut self.down);
            let mut held: Vec<(NodeId, u16, Vec<KeyCode>)> = Vec::new();
            std::mem::swap(&mut held, &mut self.held);
            let ghost before = held@;
            match held_find(&held, &event.node, event.code) {
                Some(j) => {
                    held.set(j, (event.node.clone(), event.code, sequence));
                    proof {
                        lemma_assoc_update(held_seq(before), j as int, codes_of(sequence@));
                        assert(held_seq(held@) =~= held_seq(before).update(
                            j as int,
                            (source, codes_of(sequence@)),
                        ));
                    }
                },
                None => {
                    proof {
                        lemma_assoc_absent(held_seq(before), source);
                        lemma_assoc_push(held_seq(before), source, codes_of(sequence@));
                    }
                    held.push((event.node.clone(), event.code, sequence));
                    assert(held_seq(held@) =~= held_seq(before).push((source, codes_of(sequence@))));
                },
            }
            std::mem::swap(&mut held, &mut self.held);
            actions
        } else if event.value == KEY_RELEASE {
            let mut held: Vec<(NodeId, u16, Vec<KeyCode>)> = Vec::new();
            std::mem::swap(&mut held, &mut self.held);
            let ghost before = held@;
            match held_find(&held, &event.node, event.code) {
                None => {
                    proof {
                        lemma_assoc_absent(held_seq(before), source);
                    }
                    std::mem::swap(&mut held, &mut self.held);
                    Vec::new()
                },
                Some(j) => {
                    proof {
                        lemma_assoc_at(held_seq(before), j as int);
                        lemma_assoc_remove(held_seq(before), j as int);
                    }
                    let (_, _, pressed) = held.remove(j);
                    assert(held_seq(held@) =~= held_seq(before).remove(j as int));
                    std::mem::swap(&mut held, &mut self.held);
                    let mut down: Vec<(KeyCode, u32)> = Vec::new();
                    std::mem::swap(&mut down, &mut self.down);
                    let actions = release_from(&mut down, &pressed);
                    std::mem::swap(&mut down, &mut self.down);
                    actions
                },
            }
        } else {
            Vec::new()
        }
    }

    /// Releases all injected keys still held, in increasing code order.
    pub fn release_all(&mut self) -> (actions: Vec<Action>)
        ensures
            final(self)@ == (old(self)@.0, Map::<CodeView, Seq<u16>>::empty(), Map::<u16, nat>::empty()),
            releases_in_order(actions@, old(self)@.2),
    {
        proof {
            use_type_invariant(&*self);
        }
        let ghost d0 = self@.2;
        let mut codes: Vec<u16> = Vec::new();
        let mut i: usize = 0;
        while i < self.down.len()
            invariant
                i <= self.down@.len(),
                codes@ == down_seq(self.down@).take(i as int).map_values(|e: (u16, nat)| e.0),
            decreases self.down@.len() - i,
        {
            codes.push(self.down[i].0.0);
            assert(down_seq(self.down@).take(i + 1) =~= down_seq(self.down@).take(i as int).push(
                down_seq(self.down@)[i as int],
            ));
            assert(codes@ =~= down_seq(self.down@).take(i + 1).map_values(|e: (u16, nat)| e.0));
            i = i + 1;
        }
        let ghost ds = down_seq(self.down@);
        assert(ds.take(i as int) =~= ds);
        proof {
            assert forall|a: int, b: int| 0 <= a < b < codes@.len() implies codes@[a] != codes@[b] by {
                assert(ds[a].0 != ds[b].0);
            }
        }
        let sorted = sorted_codes(&codes);
        let mut actions: Vec<Action> = Vec::new();
        let mut j: usize = 0;
        while j < sorted.len()
            invariant
                j <= sorted@.len(),
                actions@.len() == j,
                forall|x: int| 0 <= x < j ==> #[trigger] actions@[x] == key_action(sorted@[x], false),
            decreases sorted@.len() - j,
        {
            actions.push(Action::Key { key: KeyCode(sorted[j]), pressed: false });
            j = j + 1;
        }
        proof {
            assert forall|k: u16| d0.contains_key(k) <==> exists|x: int| 0 <= x < actions@.len() && actions@[x]->key@ == k by {
                if d0.contains_key(k) {
                    let p = choose|p: int| key_at(ds, k, p);
                    assert(codes@[p] == k);
                    assert(codes@.to_set().contains(k));
                    assert(sorted@.to_set().contains(k));
                    let x = choose|x: int| 0 <= x < sorted@.len() && sorted@[x] == k;
                    assert(actions@[x]->key@ == k);
                }
                if exists|x: int| 0 <= x < actions@.len() && actions@[x]->key@ == k {
                    let x = choose|x: int| 0 <= x < actions@.len() && actions@[x]->key@ == k;
                    assert(sorted@[x] == k);
                    assert(sorted@.to_set().contains(k));
                    assert(codes@.to_set().contains(k));
                    let p = choose|p: int| 0 <= p < codes@.len() && codes@[p] == k;
                    assert(key_at(ds, k, p));
                }
            }
        }
        let mut held: Vec<(NodeId, u16, Vec<KeyCode>)> = Vec::new();
        std::mem::swap(&mut held, &mut self.held);
        let mut down: Vec<(KeyCode, u32)> = Vec::new();
        std::mem::swap(&mut down, &mut self.down);
        proof {
            assert(held_seq(self.held@) =~= Seq::empty());
            assert(down_seq(self.down@) =~= Seq::empty());
            lemma_assoc_empty::<CodeView, Seq<u16>>();
            lemma_assoc_empty::<u16, nat>();
        }
        actions
    }

    /// Number of source codes whose combination is still held.
    pub fn held_count(&self) -> (n: usize)
        ensures
            n == self@.1.dom().len(),
    {
        proof {
            use_type_invariant(self);
            lemma_assoc_len(held_seq(self.held@));
        }
        self.held.len()
    }
}

} // verus!
