//! Device-side rules: where input nodes live, which nodes belong to the
//! mouse, which raw events are kept, what the mirror device advertises and
//! what it is sent.

use vstd::prelude::*;

use crate::error::AppError;
use crate::event::{Action, InputEvent, BTN_EXTRA, BTN_LEFT, BTN_MIDDLE, BTN_RIGHT, BTN_SIDE, EV_ABS, EV_KEY, EV_MSC, EV_REL, EV_SYN};
use crate::key::{known_keys, KeyCode};
use crate::node::NodeId;
use crate::order::{sort_names, sorted_texts, texts};
use crate::ports::{Caps, CapsView};
use crate::text::{concat3, contains_text, is_blank, occurs_at, starts_with};

verus! {

/// Directory of stable input node identifiers.
pub const BY_ID_DIR: &'static str = "/dev/input/by-id";

/// Name prefix of the Razer Naga Trinity's nodes.
pub const TRINITY_PREFIX: &'static str = "usb-Razer_Razer_Naga_Trinity";

/// Path of a node (a by-id name).
pub fn resolve_node(node: &NodeId) -> (path: String)
    ensures
        path@ == BY_ID_DIR@ + "/"@ + node@,
{
    concat3(BY_ID_DIR, "/", node.as_str())
}

/// The domain event of a raw event; synchronisation and miscellaneous
/// events are dropped (they are implicit on injection).
pub fn convert_event(node: &NodeId, event_type: u16, code: u16, value: i32) -> (r: Option<InputEvent>)
    ensures
        event_type == EV_SYN || event_type == EV_MSC ==> r is None,
        !(event_type == EV_SYN || event_type == EV_MSC) ==> (r matches Some(e) && e@ == (
            node@,
            event_type,
            code,
            value,
        )),
{
    if event_type == EV_SYN || event_type == EV_MSC {
        return None;
    }
    Some(InputEvent { node: node.clone(), event_type, code, value })
}

/// The raw events (type, code, value) injecting an action: a forwarded
/// event is kept when it is a key, relative or absolute one; a key action
/// is a key event of value 1 (press) or 0 (release).
pub open spec fn raw_of(a: Action) -> Seq<(u16, u16, i32)> {
    match a {
        Action::Forward { event_type, code, value } => if event_type == EV_KEY || event_type == EV_REL
            || event_type == EV_ABS {
            seq![(event_type, code, value)]
        } else {
            Seq::empty()
        },
        Action::Key { key, pressed } => seq![(EV_KEY, key@, if pressed { 1i32 } else { 0i32 })],
    }
}

/// The raw events injecting a list of actions, in order.
pub open spec fn raw_events_of(actions: Seq<Action>) -> Seq<(u16, u16, i32)>
    decreases actions.len(),
{
    if actions.len() == 0 {
        Seq::empty()
    } else {
        raw_events_of(actions.drop_last()) + raw_of(actions.last())
    }
}

/// Forwarding one more event appends its raw event: a forwarded key,
/// relative or absolute event is injected once as it came (a click passes
/// through), any other forwarded event is dropped.
pub proof fn lemma_raw_events_forward(before: Seq<Action>, event_type: u16, code: u16, value: i32)
    ensures
        event_type == EV_KEY || event_type == EV_REL || event_type == EV_ABS ==> raw_events_of(
            before.push(Action::Forward { event_type, code, value }),
        ) == raw_events_of(before).push((event_type, code, value)),
        event_type != EV_KEY && event_type != EV_REL && event_type != EV_ABS ==> raw_events_of(
            before.push(Action::Forward { event_type, code, value }),
        ) == raw_events_of(before),
{
    let a = Action::Forward { event_type, code, value };
    assert(before.push(a).drop_last() =~= before);
    assert(before.push(a).last() == a);
    if event_type == EV_KEY || event_type == EV_REL || event_type == EV_ABS {
        assert(raw_events_of(before) + seq![(event_type, code, value)] =~= raw_events_of(before).push(
            (event_type, code, value),
        ));
    } else {
        assert(raw_events_of(before) + Seq::<(u16, u16, i32)>::empty() =~= raw_events_of(before));
    }
}

/// Injecting one more key appends one key event of its code, of value 1
/// when pressed and 0 when released.
pub proof fn lemma_raw_events_key(before: Seq<Action>, key: KeyCode, pressed: bool)
    ensures
        raw_events_of(before.push(Action::Key { key, pressed })) == raw_events_of(before).push(
            (EV_KEY, key@, if pressed { 1i32 } else { 0i32 }),
        ),
{
    let a = Action::Key { key, pressed };
    assert(before.push(a).drop_last() =~= before);
    assert(before.push(a).last() == a);
    let ev = (EV_KEY, key@, if pressed { 1i32 } else { 0i32 });
    assert(raw_events_of(before) + seq![ev] =~= raw_events_of(before).push(ev));
}

/// The raw events of two lists of actions one after the other are those
/// of the first followed by those of the second.
pub proof fn lemma_raw_events_concat(first: Seq<Action>, second: Seq<Action>)
    ensures
        raw_events_of(first + second) == raw_events_of(first) + raw_events_of(second),
    decreases second.len(),
{
    if second.len() == 0 {
        assert(first + second =~= first);
        assert(raw_events_of(first) + raw_events_of(second) =~= raw_events_of(first));
    } else {
        let rest = second.drop_last();
        lemma_raw_events_concat(first, rest);
        assert((first + second).drop_last() =~= first + rest);
        assert((first + second).last() == second.last());
        assert(raw_events_of(first) + raw_events_of(rest) + raw_of(second.last()) =~= raw_events_of(first) + (
        raw_events_of(rest) + raw_of(second.last())));
    }
}

/// The raw events injecting a list of actions.
pub fn raw_events(actions: &[Action]) -> (events: Vec<(u16, u16, i32)>)
    ensures
        events@ == raw_events_of(actions@),
{
    let mut events: Vec<(u16, u16, i32)> = Vec::new();
    let mut i: usize = 0;
    while i < actions.len()
        invariant
            i <= actions@.len(),
            events@ == raw_events_of(actions@.take(i as int)),
        decreases actions@.len() - i,
    {
        proof {
            assert(actions@.take(i + 1).drop_last() =~= actions@.take(i as int));
        }
        let ghost before = events@;
        match actions[i] {
            Action::Forward { event_type, code, value } => {
                if event_type == EV_KEY || event_type == EV_REL || event_type == EV_ABS {
                    events.push((event_type, code, value));
                }
            },
            Action::Key { key, pressed } => {
                events.push((EV_KEY, key.code(), if pressed { 1i32 } else { 0i32 }));
            },
        }
        assert(events@ =~= before + raw_of(actions@[i as int]));
        i = i + 1;
    }
    assert(actions@.take(i as int) =~= actions@);
    events
}

/// A name holding `-event-`.
pub open spec fn has_event_marker(name: Seq<char>) -> bool {
    exists|i: int| occurs_at(name, "-event-"@, i)
}

/// A by-id name that is an event node of the device: it starts with the
/// device prefix and holds `-event-` (no `-mouse`, no `-hidraw`).
pub open spec fn is_event_node(prefix: Seq<char>, name: Seq<char>) -> bool {
    occurs_at(name, prefix, 0) && has_event_marker(name)
}

/// The event nodes of a listing, in listing order.
pub open spec fn event_nodes(prefix: Seq<char>, names: Seq<Seq<char>>) -> Seq<Seq<char>>
    decreases names.len(),
{
    if names.len() == 0 {
        Seq::empty()
    } else {
        event_nodes(prefix, names.drop_last()) + if is_event_node(prefix, names.last()) {
            seq![names.last()]
        } else {
            Seq::<Seq<char>>::empty()
        }
    }
}

/// The names of a list of nodes.
pub open spec fn node_names(nodes: Seq<NodeId>) -> Seq<Seq<char>> {
    nodes.map_values(|n: NodeId| n@)
}

/// Locates input nodes by their by-id name: the prefix selects the device.
#[derive(Debug, Clone, PartialEq, Eq)]
pub struct ByIdLocator {
    prefix: String,
    by_id_dir: String,
}

impl ByIdLocator {
    /// The device prefix.
    pub closed spec fn prefix_view(&self) -> Seq<char> {
        self.prefix@
    }

    /// The directory listed.
    pub closed spec fn dir_view(&self) -> Seq<char> {
        self.by_id_dir@
    }

    pub fn new(prefix: &str) -> (l: ByIdLocator)
        ensures
            l.prefix_view() == prefix@,
            l.dir_view() == BY_ID_DIR@,
    {
        ByIdLocator { prefix: String::from_str(prefix), by_id_dir: String::from_str(BY_ID_DIR) }
    }

    /// Preset for the Razer Naga Trinity.
    pub fn trinity() -> (l: ByIdLocator)
        ensures
            l.prefix_view() == TRINITY_PREFIX@,
            l.dir_view() == BY_ID_DIR@,
    {
        ByIdLocator::new(TRINITY_PREFIX)
    }

    pub fn with_by_id_dir(self, dir: &str) -> (l: ByIdLocator)
        ensures
            l.prefix_view() == self.prefix_view(),
            l.dir_view() == dir@,
    {
        ByIdLocator { prefix: self.prefix, by_id_dir: String::from_str(dir) }
    }

    pub fn prefix(&self) -> (p: &str)
        ensures
            p@ == self.prefix_view(),
    {
        self.prefix.as_str()
    }

    pub fn by_id_dir(&self) -> (d: &str)
        ensures
            d@ == self.dir_view(),
    {
        self.by_id_dir.as_str()
    }

    /// The device's event nodes among the names of a directory listing,
    /// sorted by name.
    pub fn locate_in(&self, names: Vec<String>) -> (r: Result<Vec<NodeId>, AppError>)
        ensures
            r matches Ok(nodes) && sorted_texts(node_names(nodes@)) && node_names(nodes@).to_multiset() == event_nodes(
                self.prefix_view(),
                texts(names@),
            ).to_multiset(),
    {
        proof {
            reveal_strlit("-event-");
        }
        let ghost ns = texts(names@);
        let mut kept: Vec<String> = Vec::new();
        let mut i: usize = 0;
        while i < names.len()
            invariant
                ns == texts(names@),
                i <= names@.len(),
                texts(kept@) == event_nodes(self.prefix_view(), ns.take(i as int)),
                forall|j: int| 0 <= j < kept@.len() ==> has_event_marker(#[trigger] kept@[j]@),
            decreases names@.len() - i,
        {
            proof {
                assert(ns.take(i + 1).drop_last() =~= ns.take(i as int));
                assert(ns.take(i + 1).last() == names@[i as int]@);
            }
            let name = names[i].as_str();
            let ghost before = texts(kept@);
            let ghost old_kept = kept@;
            if starts_with(name, self.prefix.as_str()) && contains_text(name, "-event-") {
                kept.push(String::from_str(name));
                assert(texts(kept@) =~= before.push(name@));
                assert(has_event_marker(name@));
                assert forall|j: int| 0 <= j < kept@.len() implies has_event_marker(#[trigger] kept@[j]@) by {
                    if j < old_kept.len() {
                        assert(kept@[j] == old_kept[j]);
                    } else {
                        assert(kept@[j]@ == name@);
                    }
                }
            } else {
                assert(texts(kept@) =~= before);
            }
            i = i + 1;
        }
        assert(ns.take(i as int) =~= ns);
        let ghost kept_view = kept@;
        let sorted = sort_names(kept);
        let mut nodes: Vec<NodeId> = Vec::new();
        let mut k: usize = 0;
        while k < sorted.len()
            invariant
                k <= sorted@.len(),
                nodes@.len() == k,
                forall|j: int| 0 <= j < k ==> (#[trigger] nodes@[j])@ == sorted@[j]@,
                texts(sorted@).to_multiset() == texts(kept_view).to_multiset(),
                forall|j: int| 0 <= j < kept_view.len() ==> has_event_marker(#[trigger] kept_view[j]@),
            decreases sorted@.len() - k,
        {
            let name = sorted[k].as_str();
            proof {
                reveal_strlit("-event-");
                assert(texts(sorted@).to_multiset().count(name@) > 0) by {
                    vstd::seq_lib::to_multiset_contains(texts(sorted@), name@);
                    assert(texts(sorted@)[k as int] == name@);
                }
                vstd::seq_lib::to_multiset_contains(texts(kept_view), name@);
                let j = choose|j: int| 0 <= j < texts(kept_view).len() && texts(kept_view)[j] == name@;
                assert(kept_view[j]@ == name@);
                let x = choose|x: int| occurs_at(kept_view[j]@, "-event-"@, x);
                assert(name@.subrange(x, x + 6)[0] == name@[x]);
                assert("-event-"@[0] == '-');
                assert(name@[x] == '-');
                assert(!is_blank(name@));
            }
            let node = match NodeId::new(name) {
                Ok(n) => n,
                Err(e) => {
                    proof {
                        assert(false);
                    }
                    return Err(AppError::Domain(e));
                },
            };
            nodes.push(node);
            k = k + 1;
        }
        assert(node_names(nodes@) =~= texts(sorted@));
        Ok(nodes)
    }
}

impl Default for ByIdLocator {
    fn default() -> (l: ByIdLocator)
        ensures
            l.prefix_view() == TRINITY_PREFIX@,
            l.dir_view() == BY_ID_DIR@,
    {
        ByIdLocator::trinity()
    }
}

/// The mouse buttons the mirror always advertises.
pub open spec fn mouse_buttons() -> Set<u16> {
    set![BTN_LEFT, BTN_RIGHT, BTN_MIDDLE, BTN_SIDE, BTN_EXTRA]
}

/// The codes of the known keys.
pub open spec fn known_codes() -> Set<u16> {
    Set::new(|c: u16| exists|i: int| 0 <= i < known_keys().len() && known_keys()[i].1 == c)
}

/// The union of the key, relative, absolute and miscellaneous codes of
/// several capability sets.
pub open spec fn union_caps(caps: Seq<CapsView>) -> CapsView
    decreases caps.len(),
{
    if caps.len() == 0 {
        (Set::empty(), Set::empty(), Set::empty(), Set::empty())
    } else {
        let u = union_caps(caps.drop_last());
        let c = caps.last();
        (u.0.union(c.0), u.1.union(c.1), u.2.union(c.2), u.3.union(c.3))
    }
}

/// Capabilities of the mirror: the union of the nodes' capabilities, every
/// known key and the mouse buttons.
pub fn mirror_caps(node_caps: &[Caps]) -> (caps: Caps)
    ensures
        ({
            let u = union_caps(node_caps@.map_values(|c: Caps| c@));
            caps@ == (u.0.union(known_codes()).union(mouse_buttons()), u.1, u.2, u.3)
        }),
{
    let ghost views = node_caps@.map_values(|c: Caps| c@);
    let mut caps = Caps::new();
    let mut i: usize = 0;
    while i < node_caps.len()
        invariant
            views == node_caps@.map_values(|c: Caps| c@),
            i <= node_caps@.len(),
            caps@ == union_caps(views.take(i as int)),
        decreases node_caps@.len() - i,
    {
        proof {
            assert(views.take(i + 1).drop_last() =~= views.take(i as int));
        }
        caps.merge(&node_caps[i]);
        i = i + 1;
    }
    assert(views.take(i as int) =~= views);
    let ghost u = caps@;
    let table = KeyCode::known();
    let mut k: usize = 0;
    while k < table.len()
        invariant
            table@ == known_keys(),
            k <= table@.len(),
            caps@ == (u.0.union(Set::new(|c: u16| exists|j: int| 0 <= j < k && known_keys()[j].1 == c)), u.1, u.2, u.3),
        decreases table@.len() - k,
    {
        caps.add_key_code(table[k].1);
        proof {
            assert(Set::new(|c: u16| exists|j: int| 0 <= j < k + 1 && known_keys()[j].1 == c) =~= Set::new(
                |c: u16| exists|j: int| 0 <= j < k && known_keys()[j].1 == c,
            ).insert(table@[k as int].1));
            assert(caps@.0 =~= u.0.union(Set::new(|c: u16| exists|j: int| 0 <= j < k + 1 && known_keys()[j].1 == c)));
        }
        k = k + 1;
    }
    assert(Set::new(|c: u16| exists|j: int| 0 <= j < k && known_keys()[j].1 == c) =~= known_codes());
    caps.add_key_code(BTN_LEFT);
    caps.add_key_code(BTN_RIGHT);
    caps.add_key_code(BTN_MIDDLE);
    caps.add_key_code(BTN_SIDE);
    caps.add_key_code(BTN_EXTRA);
    assert(caps@.0 =~= u.0.union(known_codes()).union(mouse_buttons()));
    caps
}

} // verus!
