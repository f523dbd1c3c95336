//! Test doubles for the ports.

use std::collections::VecDeque;

use vstd::prelude::*;

use crate::assoc::{assoc_map, keys_distinct, lemma_assoc_at, lemma_assoc_absent, lemma_assoc_insert, lemma_assoc_remove, lemma_assoc_update};
use crate::calibration::{Calibration, CodeView};
use crate::error::AppError;
use crate::event::{Action, EventView, InputEvent};
use crate::node::NodeId;
use crate::order::{texts, lemma_text_lt_asymmetric, lemma_text_lt_irreflexive, lemma_text_lt_total, lemma_text_lt_transitive, text_less, text_lt};
use crate::ports::{CalibrationRepository, Caps, CapsView, DeviceLocator, InputEventSource, OutputEventSink, ProfileRepository};
use crate::profile::{Profile, ProfileView};
use crate::session::event_views;
use crate::text::{concat3, str_eq};

verus! {

/// The names of a list of nodes.
pub open spec fn node_views(nodes: Seq<NodeId>) -> Seq<Seq<char>> {
    nodes.map_values(|n: NodeId| n@)
}

/// The events of each pending batch.
pub open spec fn batch_views(batches: Seq<Vec<InputEvent>>) -> Seq<Seq<EventView>> {
    batches.map_values(|b: Vec<InputEvent>| event_views(b@))
}

/// The message of a missing profile.
pub open spec fn missing_profile(name: Seq<char>) -> Seq<char> {
    "profile '"@ + name + "'"@
}

/// A copy of a list of nodes.
fn clone_nodes(nodes: &[NodeId]) -> (r: Vec<NodeId>)
    ensures
        node_views(r@) == node_views(nodes@),
{
    let mut r: Vec<NodeId> = Vec::new();
    let mut i: usize = 0;
    while i < nodes.len()
        invariant
            i <= nodes@.len(),
            r@.len() == i,
            forall|k: int| 0 <= k < i ==> (#[trigger] r@[k])@ == nodes@[k]@,
        decreases nodes@.len() - i,
    {
        r.push(nodes[i].clone());
        i = i + 1;
    }
    assert(node_views(r@) =~= node_views(nodes@));
    r
}

/// Scriptable source: yields pushed batches, then empty.
#[derive(Debug, Clone)]
pub struct FakeSource {
    batches: VecDeque<Vec<InputEvent>>,
    grabbed: Vec<NodeId>,
    release_count: usize,
}

impl View for FakeSource {
    /// Pending batches, grabbed nodes, releases so far.
    type V = (Seq<Seq<EventView>>, Seq<Seq<char>>, nat);

    closed spec fn view(&self) -> (Seq<Seq<EventView>>, Seq<Seq<char>>, nat) {
        (batch_views(self.batches@), node_views(self.grabbed@), self.release_count as nat)
    }
}

impl FakeSource {
    pub fn new() -> (s: FakeSource)
        ensures
            s@ == (Seq::<Seq<EventView>>::empty(), Seq::<Seq<char>>::empty(), 0nat),
    {
        let s = FakeSource { batches: VecDeque::new(), grabbed: Vec::new(), release_count: 0 };
        assert(batch_views(s.batches@) =~= Seq::<Seq<EventView>>::empty());
        assert(node_views(s.grabbed@) =~= Seq::<Seq<char>>::empty());
        s
    }

    /// Queues a batch that a later read returns.
    pub fn push_batch(&mut self, events: Vec<InputEvent>)
        ensures
            final(self)@ == (old(self)@.0.push(event_views(events@)), old(self)@.1, old(self)@.2),
    {
        let ghost before = self.batches@;
        self.batches.push_back(events);
        assert(batch_views(self.batches@) =~= batch_views(before).push(event_views(events@)));
    }

    pub fn release_count(&self) -> (n: usize)
        ensures
            n == self@.2,
    {
        self.release_count
    }
}

impl Default for FakeSource {
    fn default() -> (s: FakeSource)
        ensures
            s@ == (Seq::<Seq<EventView>>::empty(), Seq::<Seq<char>>::empty(), 0nat),
    {
        FakeSource::new()
    }
}

impl InputEventSource for FakeSource {
    open spec fn follows_model() -> bool {
        true
    }

    open spec fn grabbed_names(&self) -> Seq<Seq<char>> {
        self@.1
    }

    fn grab(&mut self, nodes: &[NodeId]) -> (r: Result<(), AppError>)
        ensures
            r is Ok,
            final(self)@ == (old(self)@.0, node_views(nodes@), old(self)@.2),
    {
        self.grabbed = clone_nodes(nodes);
        Ok(())
    }

    /// Counts the release (saturating) and forgets the grabbed nodes.
    fn release(&mut self) -> (r: Result<(), AppError>)
        ensures
            r is Ok,
            final(self)@ == (
                old(self)@.0,
                Seq::<Seq<char>>::empty(),
                if old(self)@.2 < usize::MAX { (old(self)@.2 + 1) as nat } else { old(self)@.2 },
            ),
    {
        self.release_count = self.release_count.saturating_add(1);
        self.grabbed = Vec::new();
        assert(node_views(self.grabbed@) =~= Seq::<Seq<char>>::empty());
        Ok(())
    }

    fn read_events(&mut self) -> (r: Result<Vec<InputEvent>, AppError>)
        ensures
            old(self)@.0.len() == 0 ==> (r matches Ok(b) && b@.len() == 0 && final(self)@ == old(self)@),
            old(self)@.0.len() > 0 ==> (r matches Ok(b) && event_views(b@) == old(self)@.0[0] && final(self)@ == (
                old(self)@.0.drop_first(),
                old(self)@.1,
                old(self)@.2,
            )),
    {
        let ghost before = self.batches@;
        match self.batches.pop_front() {
            Some(batch) => {
                assert(batch_views(self.batches@) =~= batch_views(before).drop_first());
                Ok(batch)
            },
            None => Ok(Vec::new()),
        }
    }

    fn grabbed(&self) -> (g: &[NodeId])
        ensures
            node_views(g@) == self@.1,
    {
        self.grabbed.as_slice()
    }
}

/// Recording sink: stores everything emitted to it.
#[derive(Debug, Clone)]
pub struct FakeSink {
    device: Option<String>,
    caps: Option<Caps>,
    log: Vec<Action>,
    destroy_count: usize,
}

/// Device name, capabilities, emitted actions, destructions so far.
pub type SinkView = (Option<Seq<char>>, Option<CapsView>, Seq<Action>, nat);

impl View for FakeSink {
    type V = SinkView;

    closed spec fn view(&self) -> SinkView {
        (
            match self.device {
                Some(d) => Some(d@),
                None => None,
            },
            match self.caps {
                Some(c) => Some(c@),
                None => None,
            },
            self.log@,
            self.destroy_count as nat,
        )
    }
}

impl FakeSink {
    pub fn new() -> (s: FakeSink)
        ensures
            s@ == (None::<Seq<char>>, None::<CapsView>, Seq::<Action>::empty(), 0nat),
    {
        FakeSink { device: None, caps: None, log: Vec::new(), destroy_count: 0 }
    }

    pub fn device(&self) -> (d: Option<&str>)
        ensures
            d is Some <==> self@.0 is Some,
            d matches Some(d) ==> self@.0 == Some(d@),
    {
        match &self.device {
            Some(d) => Some(d.as_str()),
            None => None,
        }
    }

    pub fn was_created(&self) -> (r: bool)
        ensures
            r == self@.0 is Some,
    {
        self.device.is_some()
    }

    pub fn caps(&self) -> (c: Option<&Caps>)
        ensures
            c is Some <==> self@.1 is Some,
            c matches Some(c) ==> self@.1 == Some(c@),
    {
        match &self.caps {
            Some(c) => Some(c),
            None => None,
        }
    }

    pub fn emitted(&self) -> (a: &[Action])
        ensures
            a@ == self@.2,
    {
        self.log.as_slice()
    }

    pub fn destroy_count(&self) -> (n: usize)
        ensures
            n == self@.3,
    {
        self.destroy_count
    }
}

impl Default for FakeSink {
    fn default() -> (s: FakeSink)
        ensures
            s@ == (None::<Seq<char>>, None::<CapsView>, Seq::<Action>::empty(), 0nat),
    {
        FakeSink::new()
    }
}

impl OutputEventSink for FakeSink {
    open spec fn follows_model() -> bool {
        true
    }

    open spec fn emitted_actions(&self) -> Seq<Action> {
        self@.2
    }

    open spec fn mirror(&self) -> Option<(Seq<char>, CapsView)> {
        match (self@.0, self@.1) {
            (Some(n), Some(c)) => Some((n, c)),
            _ => None,
        }
    }

    /// Remembers the device and its capabilities, and clears the log.
    fn create(&mut self, name: &str, caps: &Caps) -> (r: Result<(), AppError>)
        ensures
            r is Ok,
            final(self)@ == (Some(name@), Some(caps@), Seq::<Action>::empty(), old(self)@.3),
    {
        self.device = Some(String::from_str(name));
        self.caps = Some(caps.clone());
        self.log = Vec::new();
        Ok(())
    }

    fn emit(&mut self, actions: &[Action]) -> (r: Result<(), AppError>)
        ensures
            r is Ok,
            final(self)@ == (old(self)@.0, old(self)@.1, old(self)@.2 + actions@, old(self)@.3),
    {
        let ghost before = self.log@;
        let mut i: usize = 0;
        while i < actions.len()
            invariant
                i <= actions@.len(),
                self.log@ == before + actions@.take(i as int),
                self.device == old(self).device,
                self.caps == old(self).caps,
                self.destroy_count == old(self).destroy_count,
            decreases actions@.len() - i,
        {
            self.log.push(actions[i]);
            assert(before + actions@.take(i + 1) =~= (before + actions@.take(i as int)).push(actions@[i as int]));
            i = i + 1;
        }
        assert(actions@.take(i as int) =~= actions@);
        Ok(())
    }

    /// Counts the destruction (saturating) and forgets the device.
    fn destroy(&mut self) -> (r: Result<(), AppError>)
        ensures
            r is Ok,
            final(self)@ == (
                None::<Seq<char>>,
                None::<CapsView>,
                old(self)@.2,
                if old(self)@.3 < usize::MAX { (old(self)@.3 + 1) as nat } else { old(self)@.3 },
            ),
    {
        self.destroy_count = self.destroy_count.saturating_add(1);
        self.device = None;
        self.caps = None;
        Ok(())
    }
}

/// Name and contents of each stored profile.
pub open spec fn profile_entries(profiles: Seq<Profile>) -> Seq<(Seq<char>, ProfileView)> {
    profiles.map_values(|p: Profile| (p@.0, p@))
}

/// In-memory profile repository, kept in name order.
#[derive(Debug)]
pub struct MemoryProfileRepository {
    profiles: Vec<Profile>,
}

impl View for MemoryProfileRepository {
    type V = Map<Seq<char>, ProfileView>;

    closed spec fn view(&self) -> Map<Seq<char>, ProfileView> {
        assoc_map(profile_entries(self.profiles@))
    }
}

impl MemoryProfileRepository {
    #[verifier::type_invariant]
    spec fn names_increase(self) -> bool {
        forall|i: int, j: int| 0 <= i < j < self.profiles@.len() ==> text_lt(#[trigger] self.profiles@[i]@.0, #[trigger] self.profiles@[j]@.0)
    }

    proof fn lemma_distinct(profiles: Seq<Profile>)
        requires
            forall|i: int, j: int| 0 <= i < j < profiles.len() ==> text_lt(#[trigger] profiles[i]@.0, #[trigger] profiles[j]@.0),
        ensures
            keys_distinct(profile_entries(profiles)),
    {
        let e = profile_entries(profiles);
        assert forall|i: int, j: int| 0 <= i < e.len() && 0 <= j < e.len() && i != j implies e[i].0 != e[j].0 by {
            if i < j {
                lemma_text_lt_irreflexive(profiles[i]@.0);
                assert(text_lt(profiles[i]@.0, profiles[j]@.0));
            } else {
                lemma_text_lt_irreflexive(profiles[j]@.0);
                assert(text_lt(profiles[j]@.0, profiles[i]@.0));
            }
        }
    }

    pub fn new() -> (r: MemoryProfileRepository)
        ensures
            r@ == Map::<Seq<char>, ProfileView>::empty(),
    {
        let r = MemoryProfileRepository { profiles: Vec::new() };
        proof {
            crate::assoc::lemma_assoc_empty::<Seq<char>, ProfileView>();
            assert(profile_entries(r.profiles@) =~= Seq::<(Seq<char>, ProfileView)>::empty());
        }
        r
    }

    /// First position whose name does not come before `name`.
    fn position(&self, name: &str) -> (pos: usize)
        ensures
            pos <= self.profiles@.len(),
            forall|k: int| 0 <= k < pos ==> text_lt(#[trigger] self.profiles@[k]@.0, name@),
            pos < self.profiles@.len() ==> !text_lt(self.profiles@[pos as int]@.0, name@),
    {
        let mut pos: usize = 0;
        while pos < self.profiles.len() && text_less(self.profiles[pos].name(), name)
            invariant
                pos <= self.profiles@.len(),
                forall|k: int| 0 <= k < pos ==> text_lt(#[trigger] self.profiles@[k]@.0, name@),
            decreases self.profiles@.len() - pos,
        {
            pos = pos + 1;
        }
        pos
    }

    /// The position of `name`, if it is stored.
    fn find(&self, name: &str) -> (r: Option<usize>)
        ensures
            r matches Some(i) ==> i < self.profiles@.len() && self.profiles@[i as int]@.0 == name@,
            r is None ==> !self@.contains_key(name@),
    {
        proof {
            use_type_invariant(self);
        }
        let pos = self.position(name);
        if pos < self.profiles.len() && str_eq(self.profiles[pos].name(), name) {
            return Some(pos);
        }
        proof {
            let e = profile_entries(self.profiles@);
            assert forall|i: int| 0 <= i < e.len() implies e[i].0 != name@ by {
                if i < pos {
                    lemma_text_lt_irreflexive(name@);
                } else if i > pos {
                    lemma_text_lt_total(self.profiles@[pos as int]@.0, name@);
                    assert(text_lt(self.profiles@[pos as int]@.0, self.profiles@[i]@.0));
                    if e[i].0 == name@ {
                        lemma_text_lt_asymmetric(self.profiles@[pos as int]@.0, name@);
                    }
                } else {
                    lemma_text_lt_total(self.profiles@[pos as int]@.0, name@);
                }
            }
            lemma_assoc_absent(e, name@);
        }
        None
    }
}

impl Default for MemoryProfileRepository {
    fn default() -> (r: MemoryProfileRepository)
        ensures
            r@ == Map::<Seq<char>, ProfileView>::empty(),
    {
        MemoryProfileRepository::new()
    }
}

impl Clone for MemoryProfileRepository {
    fn clone(&self) -> (r: MemoryProfileRepository)
        ensures
            r@ == self@,
    {
        proof {
            use_type_invariant(self);
        }
        let mut profiles: Vec<Profile> = Vec::new();
        let mut i: usize = 0;
        while i < self.profiles.len()
            invariant
                i <= self.profiles@.len(),
                profiles@.len() == i,
                forall|k: int| 0 <= k < i ==> (#[trigger] profiles@[k])@ == self.profiles@[k]@,
                forall|a: int, b: int| 0 <= a < b < self.profiles@.len() ==> text_lt(#[trigger] self.profiles@[a]@.0, #[trigger] self.profiles@[b]@.0),
            decreases self.profiles@.len() - i,
        {
            profiles.push(self.profiles[i].clone());
            i = i + 1;
        }
        assert(profile_entries(profiles@) =~= profile_entries(self.profiles@));
        MemoryProfileRepository { profiles }
    }
}

impl ProfileRepository for MemoryProfileRepository {
    open spec fn follows_model() -> bool {
        true
    }

    open spec fn stored(&self) -> Map<Seq<char>, ProfileView> {
        self@
    }

    /// The stored names, in lexicographic order.
    fn list(&self) -> (r: Result<Vec<String>, AppError>)
        ensures
            r matches Ok(names) && names@.len() == self@.dom().len() && (forall|i: int, j: int|
                0 <= i < j < names@.len() ==> text_lt(#[trigger] names@[i]@, #[trigger] names@[j]@)) && (forall|n: Seq<char>|
                self@.contains_key(n) <==> exists|i: int| 0 <= i < names@.len() && #[trigger] names@[i]@ == n),
    {
        proof {
            use_type_invariant(self);
            Self::lemma_distinct(self.profiles@);
            crate::assoc::lemma_assoc_len(profile_entries(self.profiles@));
        }
        let mut names: Vec<String> = Vec::new();
        let mut i: usize = 0;
        while i < self.profiles.len()
            invariant
                i <= self.profiles@.len(),
                names@.len() == i,
                forall|k: int| 0 <= k < i ==> (#[trigger] names@[k])@ == self.profiles@[k]@.0,
            decreases self.profiles@.len() - i,
        {
            names.push(String::from_str(self.profiles[i].name()));
            i = i + 1;
        }
        proof {
            let e = profile_entries(self.profiles@);
            assert forall|n: Seq<char>| self@.contains_key(n) <==> exists|i: int| 0 <= i < names@.len() && #[trigger] names@[i]@ == n by {
                if self@.contains_key(n) {
                    let j = choose|j: int| crate::assoc::key_at(e, n, j);
                    assert(names@[j]@ == n);
                }
                if exists|i: int| 0 <= i < names@.len() && #[trigger] names@[i]@ == n {
                    let j = choose|j: int| 0 <= j < names@.len() && #[trigger] names@[j]@ == n;
                    lemma_assoc_at(e, j);
                }
            }
            assert forall|n: Seq<char>| texts(names@).to_set().contains(n) <==> self@.dom().contains(n) by {
                if texts(names@).to_set().contains(n) {
                    let j = choose|j: int| 0 <= j < texts(names@).len() && texts(names@)[j] == n;
                    assert(names@[j]@ == n);
                }
                if self@.dom().contains(n) {
                    let j = choose|j: int| 0 <= j < names@.len() && #[trigger] names@[j]@ == n;
                    assert(texts(names@)[j] == n);
                }
            }
            assert(texts(names@).to_set() =~= self@.dom());
        }
        Ok(names)
    }

    fn load(&self, name: &str) -> (r: Result<Profile, AppError>)
        ensures
            self@.contains_key(name@) ==> (r matches Ok(p) && p@ == self@[name@]),
            !self@.contains_key(name@) ==> (r matches Err(AppError::NotFound(m)) && m@ == missing_profile(name@)),
    {
        proof {
            use_type_invariant(self);
            Self::lemma_distinct(self.profiles@);
        }
        match self.find(name) {
            Some(i) => {
                proof {
                    lemma_assoc_at(profile_entries(self.profiles@), i as int);
                }
                Ok(self.profiles[i].clone())
            },
            None => Err(AppError::NotFound(concat3("profile '", name, "'"))),
        }
    }

    /// Stores the profile under its name, replacing any profile of that name.
    fn save(&mut self, profile: &Profile) -> (r: Result<(), AppError>)
        ensures
            r is Ok,
            final(self)@ == old(self)@.insert(profile@.0, profile@),
    {
        proof {
            use_type_invariant(&*self);
            Self::lemma_distinct(self.profiles@);
        }
        let name = profile.name();
        let pos = self.position(name);
        let mut profiles: Vec<Profile> = Vec::new();
        std::mem::swap(&mut profiles, &mut self.profiles);
        let ghost before = profiles@;
        let ghost e = profile_entries(before);
        if pos < profiles.len() && str_eq(profiles[pos].name(), name) {
            profiles.set(pos, profile.clone());
            proof {
                assert(profile_entries(profiles@) =~= e.update(pos as int, (e[pos as int].0, profile@)));
                lemma_assoc_update(e, pos as int, profile@);
                assert forall|i: int, j: int| 0 <= i < j < profiles@.len() implies text_lt(#[trigger] profiles@[i]@.0, #[trigger] profiles@[j]@.0) by {
                    assert(profiles@[i]@.0 == before[i]@.0 && profiles@[j]@.0 == before[j]@.0);
                }
            }
        } else {
            proof {
                let e = profile_entries(before);
                assert forall|i: int| 0 <= i < e.len() implies e[i].0 != name@ by {
                    if i < pos {
                        lemma_text_lt_irreflexive(name@);
                    } else {
                        assert(pos < before.len());
                        lemma_text_lt_total(before[pos as int]@.0, name@);
                        if i > pos {
                            assert(text_lt(before[pos as int]@.0, before[i]@.0));
                            if e[i].0 == name@ {
                                lemma_text_lt_asymmetric(before[pos as int]@.0, name@);
                            }
                        }
                    }
                }
                lemma_assoc_absent(e, name@);
                lemma_assoc_insert(e, pos as int, name@, profile@);
            }
            profiles.insert(pos, profile.clone());
            proof {
                assert(profile_entries(profiles@) =~= e.insert(pos as int, (name@, profile@)));
                assert forall|i: int, j: int| 0 <= i < j < profiles@.len() implies text_lt(#[trigger] profiles@[i]@.0, #[trigger] profiles@[j]@.0) by {
                    if j < pos {
                        assert(profiles@[i] == before[i] && profiles@[j] == before[j]);
                    } else if j == pos {
                        assert(profiles@[i] == before[i]);
                    } else if i == pos {
                        assert(profiles@[j] == before[j - 1]);
                        assert(pos < before.len());
                        lemma_text_lt_total(before[pos as int]@.0, name@);
                        if j - 1 > pos {
                            assert(text_lt(before[pos as int]@.0, before[j - 1]@.0));
                            if before[pos as int]@.0 != name@ {
                                lemma_text_lt_transitive(name@, before[pos as int]@.0, before[j - 1]@.0);
                            }
                        }
                    } else if i < pos {
                        assert(profiles@[i] == before[i] && profiles@[j] == before[j - 1]);
                    } else {
                        assert(profiles@[i] == before[i - 1] && profiles@[j] == before[j - 1]);
                    }
                }
            }
        }
        self.profiles = profiles;
        Ok(())
    }

    fn delete(&mut self, name: &str) -> (r: Result<(), AppError>)
        ensures
            old(self)@.contains_key(name@) ==> r is Ok && final(self)@ == old(self)@.remove(name@),
            !old(self)@.contains_key(name@) ==> (r matches Err(AppError::NotFound(m)) && m@ == missing_profile(name@)
                && final(self)@ == old(self)@),
    {
        proof {
            use_type_invariant(&*self);
            Self::lemma_distinct(self.profiles@);
        }
        match self.find(name) {
            Some(i) => {
                let mut profiles: Vec<Profile> = Vec::new();
                std::mem::swap(&mut profiles, &mut self.profiles);
                let ghost before = profiles@;
                profiles.remove(i);
                proof {
                    let e = profile_entries(before);
                    lemma_assoc_at(e, i as int);
                    lemma_assoc_remove(e, i as int);
                    assert(profile_entries(profiles@) =~= e.remove(i as int));
                    assert forall|a: int, b: int| 0 <= a < b < profiles@.len() implies text_lt(#[trigger] profiles@[a]@.0, #[trigger] profiles@[b]@.0) by {
                        let sa = if a < i { a } else { a + 1 };
                        let sb = if b < i { b } else { b + 1 };
                        assert(profiles@[a] == before[sa] && profiles@[b] == before[sb]);
                    }
                }
                self.profiles = profiles;
                Ok(())
            },
            None => Err(AppError::NotFound(concat3("profile '", name, "'"))),
        }
    }
}

/// In-memory calibration repository.
#[derive(Debug)]
pub struct MemoryCalibrationRepository {
    calibration: Option<Calibration>,
}

impl View for MemoryCalibrationRepository {
    type V = Option<Seq<Option<CodeView>>>;

    closed spec fn view(&self) -> Option<Seq<Option<CodeView>>> {
        match self.calibration {
            Some(c) => Some(c@),
            None => None,
        }
    }
}

impl MemoryCalibrationRepository {
    pub fn new() -> (r: MemoryCalibrationRepository)
        ensures
            r@ is None,
    {
        MemoryCalibrationRepository { calibration: None }
    }
}

impl Default for MemoryCalibrationRepository {
    fn default() -> (r: MemoryCalibrationRepository)
        ensures
            r@ is None,
    {
        MemoryCalibrationRepository::new()
    }
}

impl Clone for MemoryCalibrationRepository {
    fn clone(&self) -> (r: MemoryCalibrationRepository)
        ensures
            r@ == self@,
    {
        match &self.calibration {
            Some(c) => MemoryCalibrationRepository { calibration: Some(c.clone()) },
            None => MemoryCalibrationRepository { calibration: None },
        }
    }
}

impl CalibrationRepository for MemoryCalibrationRepository {
    open spec fn follows_model() -> bool {
        true
    }

    open spec fn stored_calibration(&self) -> Option<Seq<Option<CodeView>>> {
        self@
    }

    fn load(&self) -> (r: Result<Option<Calibration>, AppError>)
        ensures
            r matches Ok(c) && (c is Some <==> self@ is Some) && (c matches Some(c) ==> self@ == Some(c@)),
    {
        match &self.calibration {
            Some(c) => Ok(Some(c.clone())),
            None => Ok(None),
        }
    }

    fn save(&mut self, calibration: &Calibration) -> (r: Result<(), AppError>)
        ensures
            r is Ok,
            final(self)@ == Some(calibration@),
    {
        self.calibration = Some(calibration.clone());
        Ok(())
    }
}

/// Static locator.
#[derive(Debug, Clone, Default)]
pub struct StaticLocator {
    pub nodes: Vec<NodeId>,
}

impl StaticLocator {
    pub fn new(nodes: Vec<NodeId>) -> (r: StaticLocator)
        ensures
            r.nodes@ == nodes@,
    {
        StaticLocator { nodes }
    }
}

impl DeviceLocator for StaticLocator {
    fn locate(&self) -> (r: Result<Vec<NodeId>, AppError>)
        ensures
            r matches Ok(nodes) && node_views(nodes@) == node_views(self.nodes@),
    {
        Ok(clone_nodes(self.nodes.as_slice()))
    }
}

} // verus!
