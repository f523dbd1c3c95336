//! Remapping engine: grabs the source, translates, injects into the mirror.

use vstd::prelude::*;

use crate::calibration::{Calibration, CodeView};
use crate::error::{AppError, DomainError};
use crate::event::{forward_of, forwarded, is_press, Action, EventView, InputEvent};
use crate::node::NodeId;
use crate::ports::{names_of, Caps, InputEventSource, OutputEventSink};
use crate::profile::{Profile, ProfileView};
use crate::session::{event_views, feed_outcome, CalibrationSession, SessionView};
use crate::slots::all_some;
use crate::translation::{table_lookup, table_of, TranslationTable};
use crate::translator::{lemma_idle_releases_nothing, releases_in_order, translate_spec, Translator, TranslatorView};

verus! {

/// Name of the virtual device created by the engine.
pub const MIRROR_DEVICE_NAME: &'static str = "trinity-mapper-mirror";

/// View of an engine: its translator (present while active), the
/// remembered calibration and profile, and the calibration session.
pub type EngineView = (
    Option<TranslatorView>,
    Option<Seq<Option<CodeView>>>,
    Option<ProfileView>,
    Option<SessionView>,
);

/// A translator state with nothing held over a table.
pub open spec fn fresh_translator(table: Seq<crate::translation::EntryView>) -> TranslatorView {
    (table, Map::empty(), Map::empty())
}

/// Translates a batch in order.
pub open spec fn translate_all(t: TranslatorView, evs: Seq<EventView>) -> (TranslatorView, Seq<Action>)
    decreases evs.len(),
{
    if evs.len() == 0 {
        (t, Seq::empty())
    } else {
        let (t1, a1) = translate_all(t, evs.drop_last());
        let (t2, a2) = translate_spec(t1, evs.last());
        (t2, a1 + a2)
    }
}

/// During calibration: every event forwarded raw, except the presses of a
/// batch that captured a button.
pub open spec fn calibration_passthrough(evs: Seq<EventView>, swallow: bool) -> Seq<Action>
    decreases evs.len(),
{
    if evs.len() == 0 {
        Seq::empty()
    } else {
        calibration_passthrough(evs.drop_last(), swallow) + if swallow && is_press(evs.last()) {
            Seq::empty()
        } else {
            seq![forward_of(evs.last())]
        }
    }
}

/// What a batch does to an engine: the new state, the actions to inject,
/// and whether it succeeded (a calibration conflict fails it).
pub open spec fn process_spec(v: EngineView, evs: Seq<EventView>) -> (EngineView, Seq<Action>, bool) {
    match v.3 {
        Some(s) => {
            let (s1, captured, ok) = feed_outcome(s, evs);
            if ok {
                ((v.0, v.1, v.2, Some(s1)), calibration_passthrough(evs, captured > 0), true)
            } else {
                (v, Seq::empty(), false)
            }
        },
        None => match v.0 {
            Some(t) => {
                let (t1, actions) = translate_all(t, evs);
                ((Some(t1), v.1, v.2, v.3), actions, true)
            },
            None => (v, Seq::empty(), true),
        },
    }
}

/// The translator once the table is rebuilt: armed from the remembered
/// calibration and profile when both are there and the calibration is
/// complete, unchanged otherwise.
pub open spec fn rebuilt(v: EngineView) -> Option<TranslatorView> {
    match (v.0, v.1, v.2) {
        (Some(_), Some(c), Some(p)) => if all_some(c) {
            Some(fresh_translator(table_of(c, p.1)))
        } else {
            v.0
        },
        _ => v.0,
    }
}

/// Turning translation off and on again gives back the armed profile's
/// translation, idle: what resuming rebuilds does not depend on the
/// translator that suspending left.
pub proof fn lemma_resume_after_suspend(v: EngineView)
    requires
        rearms(v),
    ensures
        rebuilt((Some(fresh_translator(Seq::empty())), v.1, v.2, v.3)) == rebuilt(v),
        rebuilt(v) == Some(fresh_translator(table_of(v.1->0, (v.2->0).1))),
{
}

/// Translation turned off is a full passthrough: over the empty table,
/// every event of a batch is forwarded as-is and the translator stays idle.
pub proof fn lemma_suspended_forwards_everything(evs: Seq<EventView>)
    ensures
        translate_all(fresh_translator(Seq::empty()), evs) == (
            fresh_translator(Seq::empty()),
            evs.map_values(|e: EventView| forward_of(e)),
        ),
    decreases evs.len(),
{
    if evs.len() > 0 {
        lemma_suspended_forwards_everything(evs.drop_last());
        let t = fresh_translator(Seq::empty());
        assert(table_lookup(Seq::empty(), (evs.last().0, evs.last().2)) is None);
        assert(evs.map_values(|e: EventView| forward_of(e)) =~= evs.drop_last().map_values(|e: EventView| forward_of(e))
            + seq![forward_of(evs.last())]);
    } else {
        assert(evs.map_values(|e: EventView| forward_of(e)) =~= Seq::<Action>::empty());
    }
}

/// Turning translation off and on again re-arms the table of the
/// remembered calibration and profile, with nothing held, whatever was
/// held when it was turned off.
pub proof fn lemma_toggle_rearms(v: EngineView)
    requires
        v.0 is Some,
        v.1 matches Some(c) && all_some(c),
        v.2 is Some,
    ensures
        rebuilt((Some(fresh_translator(Seq::empty())), v.1, v.2, v.3)) == Some(
            fresh_translator(table_of(v.1->0, (v.2->0).1)),
        ),
{
}

/// Nothing is held: either the engine is inactive or its translator has
/// no key down.
pub open spec fn nothing_held(v: EngineView) -> bool {
    v.0 matches Some(t) ==> t.2 == Map::<u16, nat>::empty()
}

/// The keys an engine's translator holds down (none when inactive).
pub open spec fn held_down(v: EngineView) -> Map<u16, nat> {
    match v.0 {
        Some(t) => t.2,
        None => Map::empty(),
    }
}

/// Whether re-arming rebuilds the table: the engine runs and remembers a
/// complete calibration and a profile.
pub open spec fn rearms(v: EngineView) -> bool {
    &&& v.0 is Some
    &&& v.1 matches Some(c) && all_some(c)
    &&& v.2 is Some
}

/// `after` is `before` followed by the release, in code order, of every
/// key of `down` (nothing when none is down).
pub open spec fn released_after(before: Seq<Action>, after: Seq<Action>, down: Map<u16, nat>) -> bool {
    exists|a: Seq<Action>| releases_in_order(a, down) && after == before + a
}

/// With nothing down, `released_after` means nothing was added.
pub proof fn lemma_nothing_released(before: Seq<Action>)
    ensures
        released_after(before, before, Map::empty()),
{
    let a = Seq::<Action>::empty();
    assert(before + a =~= before);
    assert(releases_in_order(a, Map::empty()));
}

/// An error carrying the given message about the engine state.
pub open spec fn is_state_error(e: AppError, message: &str) -> bool {
    e matches AppError::InvalidState(m) && m@ == message@
}

/// Remapping engine: grabs the source, translates, injects into the mirror.
///
/// Started without calibration or profile, it forwards everything as-is;
/// `set_calibration` + `set_profile` arm translation, and
/// `begin_calibration` switches to guided calibration mode (captured codes
/// are swallowed, the rest is forwarded raw).
pub struct Engine<S, O> {
    source: S,
    sink: O,
    state: EngineState,
}

/// Moves a value out of an option, leaving nothing behind.
fn take_out<T>(o: &mut Option<T>) -> (r: Option<T>)
    ensures
        r == *old(o),
        *final(o) is None,
    no_unwind
{
    let mut r: Option<T> = None;
    std::mem::swap(&mut r, o);
    r
}

/// What the engine remembers besides its ports.
struct EngineState {
    translator: Option<Translator>,
    calibration: Option<Calibration>,
    profile: Option<Profile>,
    calibrating: Option<CalibrationSession>,
}

impl<S: InputEventSource, O: OutputEventSink> View for Engine<S, O> {
    type V = EngineView;

    closed spec fn view(&self) -> EngineView {
        (
            match self.state.translator {
                Some(t) => Some(t@),
                None => None,
            },
            match self.state.calibration {
                Some(c) => Some(c@),
                None => None,
            },
            match self.state.profile {
                Some(p) => Some(p@),
                None => None,
            },
            match self.state.calibrating {
                Some(s) => Some(s@),
                None => None,
            },
        )
    }
}

impl EngineState {
    /// No key is held down while a calibration runs.
    #[verifier::type_invariant]
    spec fn calibration_holds_nothing(self) -> bool {
        self.calibrating is Some ==> (self.translator matches Some(t) ==> t@.2 == Map::<u16, nat>::empty())
    }
}

impl<S: InputEventSource, O: OutputEventSink> Engine<S, O> {
    pub fn new(source: S, sink: O) -> (e: Self)
        ensures
            e@ == (None::<TranslatorView>, None::<Seq<Option<CodeView>>>, None::<ProfileView>, None::<SessionView>),
    {
        Engine { source, sink, state: EngineState { translator: None, calibration: None, profile: None, calibrating: None } }
    }

    /// The event source the engine reads.
    pub closed spec fn source_spec(&self) -> S {
        self.source
    }

    /// The sink the engine injects into.
    pub closed spec fn sink_spec(&self) -> O {
        self.sink
    }

    pub fn source(&self) -> (r: &S)
        ensures
            *r == self.source_spec(),
    {
        &self.source
    }

    pub fn source_mut(&mut self) -> (r: &mut S)
        ensures
            *r == old(self).source_spec(),
            final(self).source_spec() == *final(r),
            final(self).sink_spec() == old(self).sink_spec(),
            final(self)@ == old(self)@,
    {
        &mut self.source
    }

    pub fn sink(&self) -> (r: &O)
        ensures
            *r == self.sink_spec(),
    {
        &self.sink
    }

    /// No key is held down while a calibration runs.
    pub fn check_calibration_holds_nothing(&self)
        ensures
            self@.3 is Some ==> nothing_held(self@),
    {
        proof {
            use_type_invariant(&self.state);
        }
    }

    pub fn is_active(&self) -> (r: bool)
        ensures
            r == self@.0 is Some,
    {
        self.state.translator.is_some()
    }

    pub fn is_calibrating(&self) -> (r: bool)
        ensures
            r == self@.3 is Some,
    {
        self.state.calibrating.is_some()
    }

    pub fn grabbed_nodes(&self) -> (g: &[NodeId])
        ensures
            S::follows_model() ==> names_of(g@) == self.source_spec().grabbed_names(),
    {
        self.source.grabbed()
    }

    /// Grabs the nodes and creates the mirror; everything passes through
    /// until a profile is applied.
    pub fn start(&mut self, nodes: &[NodeId], caps: &Caps) -> (r: Result<(), AppError>)
        ensures
            old(self)@.0 is Some ==> (r matches Err(e) && is_state_error(e, "engine already active") && final(self)@ == old(self)@),
            old(self)@.0 is None ==> (r is Ok ==> final(self)@ == (
                Some(fresh_translator(Seq::empty())),
                old(self)@.1,
                old(self)@.2,
                old(self)@.3,
            )),
            old(self)@.0 is None ==> (r is Err ==> final(self)@ == old(self)@),
            old(self)@.0 is Some ==> final(self).sink_spec() == old(self).sink_spec() && final(self).source_spec() == old(self).source_spec(),
            old(self)@.0 is None && r is Ok && O::follows_model() ==> final(self).sink_spec().mirror() == Some(
                (MIRROR_DEVICE_NAME@, caps@),
            ) && final(self).sink_spec().emitted_actions().len() == 0,
            old(self)@.0 is None && r is Ok && S::follows_model() ==> final(self).source_spec().grabbed_names()
                == names_of(nodes@),
            old(self)@.0 is None && r is Err && S::follows_model() ==> final(self).source_spec().grabbed_names()
                == old(self).source_spec().grabbed_names(),
            old(self)@.0 is None && r is Err && O::follows_model() ==> (final(self).sink_spec().mirror() == old(self).sink_spec().mirror() && final(self).sink_spec().emitted_actions() == old(self).sink_spec().emitted_actions()) || (final(self).sink_spec().mirror() is None
                && final(self).sink_spec().emitted_actions().len() == 0),
    {
        if self.is_active() {
            return Err(AppError::InvalidState(String::from_str("engine already active")));
        }
        self.sink.create(MIRROR_DEVICE_NAME, caps)?;
        if let Err(err) = self.source.grab(nodes) {
            let _ = self.sink.destroy();
            return Err(err);
        }
        self.state.translator = Some(Translator::new(TranslationTable::empty()));
        Ok(())
    }

    /// Releases every held key, releases the grab and destroys the mirror.
    pub fn stop(&mut self) -> (r: Result<(), AppError>)
        ensures
            old(self)@.0 is None ==> (r matches Err(e) && is_state_error(e, "engine is not active") && final(self)@ == old(self)@),
            old(self)@.0 is Some ==> (r is Ok ==> final(self)@ == (
                None::<TranslatorView>,
                old(self)@.1,
                old(self)@.2,
                None::<SessionView>,
            )),
            old(self)@.0 is Some ==> (r is Err ==> final(self)@ == (
                None::<TranslatorView>,
                old(self)@.1,
                old(self)@.2,
                old(self)@.3,
            )),
            old(self)@.0 is None ==> final(self).sink_spec() == old(self).sink_spec() && final(self).source_spec() == old(self).source_spec(),
            old(self)@.0 is Some && r is Ok && O::follows_model() ==> released_after(old(self).sink_spec().emitted_actions(), final(self).sink_spec().emitted_actions(), held_down(old(self)@))
                && final(self).sink_spec().mirror() is None,
            old(self)@.0 is Some && r is Ok && S::follows_model() ==> final(self).source_spec().grabbed_names().len()
                == 0,
    {
        let mut translator = match take_out(&mut self.state.translator) {
            Some(t) => t,
            None => {
                return Err(AppError::InvalidState(String::from_str("engine is not active")));
            },
        };
        let cleanup = translator.release_all();
        if cleanup.len() > 0 {
            self.sink.emit(cleanup.as_slice())?;
        }
        self.source.release()?;
        self.sink.destroy()?;
        self.state.calibrating = None;
        Ok(())
    }

    /// Remembers the calibration and re-arms translation.
    pub fn set_calibration(&mut self, calibration: Calibration) -> (r: Result<(), AppError>)
        ensures
            ({
                let v = (old(self)@.0, Some(calibration@), old(self)@.2, old(self)@.3);
                final(self)@ == (rebuilt(v), v.1, v.2, v.3)
            }),
            nothing_held(old(self)@) ==> r is Ok,
            final(self).source_spec() == old(self).source_spec(),
            !rearms((old(self)@.0, Some(calibration@), old(self)@.2, old(self)@.3)) || nothing_held(old(self)@) ==> final(self).sink_spec() == old(self).sink_spec(),
            rearms((old(self)@.0, Some(calibration@), old(self)@.2, old(self)@.3)) && r is Ok && O::follows_model() ==> released_after(old(self).sink_spec().emitted_actions(), final(self).sink_spec().emitted_actions(), held_down(old(self)@))
                && final(self).sink_spec().mirror() == old(self).sink_spec().mirror(),
    {
        proof {
            use_type_invariant(&self.state);
        }
        self.state.calibration = Some(calibration);
        self.rebuild_table()
    }

    /// Remembers the profile and re-arms translation.
    pub fn set_profile(&mut self, profile: Profile) -> (r: Result<(), AppError>)
        ensures
            ({
                let v = (old(self)@.0, old(self)@.1, Some(profile@), old(self)@.3);
                final(self)@ == (rebuilt(v), v.1, v.2, v.3)
            }),
            nothing_held(old(self)@) ==> r is Ok,
            final(self).source_spec() == old(self).source_spec(),
            !rearms((old(self)@.0, old(self)@.1, Some(profile@), old(self)@.3)) || nothing_held(old(self)@) ==> final(self).sink_spec() == old(self).sink_spec(),
            rearms((old(self)@.0, old(self)@.1, Some(profile@), old(self)@.3)) && r is Ok && O::follows_model() ==> released_after(old(self).sink_spec().emitted_actions(), final(self).sink_spec().emitted_actions(), held_down(old(self)@))
                && final(self).sink_spec().mirror() == old(self).sink_spec().mirror(),
    {
        proof {
            use_type_invariant(&self.state);
        }
        self.state.profile = Some(profile);
        self.rebuild_table()
    }

    /// Switches to full passthrough: releases held keys and clears the
    /// translation table. Grab and mirror stay in place: tearing devices
    /// down on toggle races the compositor.
    pub fn suspend_translation(&mut self) -> (r: Result<(), AppError>)
        ensures
            final(self)@ == (
                match old(self)@.0 {
                    Some(t) => Some(fresh_translator(Seq::empty())),
                    None => None,
                },
                old(self)@.1,
                old(self)@.2,
                old(self)@.3,
            ),
            nothing_held(old(self)@) ==> r is Ok,
            final(self).source_spec() == old(self).source_spec(),
            old(self)@.0 is None || nothing_held(old(self)@) ==> final(self).sink_spec() == old(self).sink_spec(),
            old(self)@.0 is Some && r is Ok && O::follows_model() ==> released_after(old(self).sink_spec().emitted_actions(), final(self).sink_spec().emitted_actions(), held_down(old(self)@))
                && final(self).sink_spec().mirror() == old(self).sink_spec().mirror(),
    {
        match take_out(&mut self.state.translator) {
            Some(mut translator) => {
                let cleanup = translator.set_table(TranslationTable::empty());
                proof {
                    if nothing_held(old(self)@) {
                        lemma_idle_releases_nothing(cleanup@, (old(self)@.0->0).2);
                    }
                }
                self.state.translator = Some(translator);
                if cleanup.len() > 0 {
                    self.sink.emit(cleanup.as_slice())?;
                }
                Ok(())
            },
            None => Ok(()),
        }
    }

    /// Re-arms the translator with the remembered calibration and profile.
    pub fn resume_translation(&mut self) -> (r: Result<(), AppError>)
        ensures
            final(self)@ == (rebuilt(old(self)@), old(self)@.1, old(self)@.2, old(self)@.3),
            nothing_held(old(self)@) ==> r is Ok,
            final(self).source_spec() == old(self).source_spec(),
            !rearms(old(self)@) || nothing_held(old(self)@) ==> final(self).sink_spec() == old(self).sink_spec(),
            rearms(old(self)@) && r is Ok && O::follows_model() ==> released_after(old(self).sink_spec().emitted_actions(), final(self).sink_spec().emitted_actions(), held_down(old(self)@))
                && final(self).sink_spec().mirror() == old(self).sink_spec().mirror(),
    {
        self.rebuild_table()
    }

    fn rebuild_table(&mut self) -> (r: Result<(), AppError>)
        ensures
            final(self)@ == (rebuilt(old(self)@), old(self)@.1, old(self)@.2, old(self)@.3),
            nothing_held(old(self)@) ==> r is Ok,
            final(self).source_spec() == old(self).source_spec(),
            !rearms(old(self)@) || nothing_held(old(self)@) ==> final(self).sink_spec() == old(self).sink_spec(),
            rearms(old(self)@) && r is Ok && O::follows_model() ==> released_after(old(self).sink_spec().emitted_actions(), final(self).sink_spec().emitted_actions(), held_down(old(self)@))
                && final(self).sink_spec().mirror() == old(self).sink_spec().mirror(),
    {
        let table = match (&self.state.calibration, &self.state.profile) {
            (Some(calibration), Some(profile)) => {
                if !calibration.is_complete() {
                    return Ok(());
                }
                match TranslationTable::build(calibration, profile) {
                    Ok(table) => table,
                    Err(err) => {
                        return Err(AppError::Domain(err));
                    },
                }
            },
            _ => {
                return Ok(());
            },
        };
        match take_out(&mut self.state.translator) {
            Some(mut translator) => {
                let cleanup = translator.set_table(table);
                proof {
                    if nothing_held(old(self)@) {
                        lemma_idle_releases_nothing(cleanup@, (old(self)@.0->0).2);
                    }
                }
                self.state.translator = Some(translator);
                if cleanup.len() > 0 {
                    self.sink.emit(cleanup.as_slice())?;
                }
                Ok(())
            },
            None => Ok(()),
        }
    }

    pub fn active_profile(&self) -> (p: Option<&Profile>)
        ensures
            p is Some <==> self@.2 is Some,
            p matches Some(p) ==> self@.2 == Some(p@),
    {
        match &self.state.profile {
            Some(p) => Some(p),
            None => None,
        }
    }

    /// Switches to guided calibration: releases held keys, swallows
    /// captured codes, forwards the rest raw.
    pub fn begin_calibration(&mut self) -> (r: Result<(), AppError>)
        ensures
            old(self)@.0 is None ==> (r matches Err(e) && is_state_error(e, "engine is not active") && final(self)@ == old(self)@),
            old(self)@.0 is Some ==> (r is Ok ==> final(self)@ == (
                Some(fresh_translator((old(self)@.0->0).0)),
                old(self)@.1,
                old(self)@.2,
                Some(CalibrationSession::initial_view()),
            )),
            old(self)@.0 is Some ==> (r is Err ==> final(self)@ == (
                Some(fresh_translator((old(self)@.0->0).0)),
                old(self)@.1,
                old(self)@.2,
                old(self)@.3,
            )),
            old(self)@.0 is Some && nothing_held(old(self)@) ==> r is Ok,
            final(self).source_spec() == old(self).source_spec(),
            old(self)@.0 is None || nothing_held(old(self)@) ==> final(self).sink_spec() == old(self).sink_spec(),
            old(self)@.0 is Some && r is Ok && O::follows_model() ==> released_after(old(self).sink_spec().emitted_actions(), final(self).sink_spec().emitted_actions(), held_down(old(self)@))
                && final(self).sink_spec().mirror() == old(self).sink_spec().mirror(),
    {
        let mut translator = match take_out(&mut self.state.translator) {
            Some(t) => t,
            None => {
                return Err(AppError::InvalidState(String::from_str("engine is not active")));
            },
        };
        let cleanup = translator.release_all();
        proof {
            if nothing_held(old(self)@) {
                lemma_idle_releases_nothing(cleanup@, (old(self)@.0->0).2);
            }
        }
        self.state.translator = Some(translator);
        if cleanup.len() > 0 {
            self.sink.emit(cleanup.as_slice())?;
        }
        self.state.calibrating = Some(CalibrationSession::new());
        Ok(())
    }

    pub fn cancel_calibration(&mut self)
        ensures
            final(self).source_spec() == old(self).source_spec(),
            final(self).sink_spec() == old(self).sink_spec(),
            final(self)@ == (old(self)@.0, old(self)@.1, old(self)@.2, None::<SessionView>),
    {
        self.state.calibrating = None;
    }

    /// Progress: (expected button, captured count). `None` outside calibration.
    pub fn calibration_progress(&self) -> (p: Option<(Option<u8>, usize)>)
        ensures
            p is Some <==> self@.3 is Some,
            p matches Some((current, count)) ==> {
                let s = self@.3->0;
                &&& count == s.1
                &&& (s.1 < 12 ==> current == Some((s.1 + 1) as u8))
                &&& (s.1 >= 12 ==> current is None)
            },
    {
        match &self.state.calibrating {
            Some(session) => {
                let current = match session.current_button() {
                    Some(button) => Some(button.number()),
                    None => None,
                };
                Some((current, session.captured_count()))
            },
            None => None,
        }
    }

    /// Calibration captures so far: (button, node, code), in button order.
    pub fn calibration_snapshot(&self) -> (snapshot: Vec<(u8, NodeId, u16)>)
        ensures
            self@.3 is None ==> snapshot@.len() == 0,
            self@.3 matches Some(s) ==> snapshot@.map_values(|e: (u8, NodeId, u16)| (e.0 as int, (e.1@, e.2)))
                == crate::slots::present(s.0),
    {
        match &self.state.calibrating {
            Some(session) => {
                let pairs = session.captured().buttons();
                let mut snapshot: Vec<(u8, NodeId, u16)> = Vec::new();
                let mut i: usize = 0;
                while i < pairs.len()
                    invariant
                        i <= pairs@.len(),
                        snapshot@.len() == i,
                        forall|j: int|
                            0 <= j < i ==> (#[trigger] snapshot@[j]).0 == pairs@[j].0@ && snapshot@[j].1@
                                == pairs@[j].1@.0 && snapshot@[j].2 == pairs@[j].1@.1,
                    decreases pairs@.len() - i,
                {
                    let (button, code) = (&pairs[i].0, &pairs[i].1);
                    snapshot.push((button.number(), code.node().clone(), code.code()));
                    i = i + 1;
                }
                assert(snapshot@.map_values(|e: (u8, NodeId, u16)| (e.0 as int, (e.1@, e.2))) =~= pairs@.map_values(
                    |e: (crate::button::Button, crate::calibration::PhysicalCode)| (e.0@ as int, e.1@),
                ));
                snapshot
            },
            None => Vec::new(),
        }
    }

    /// Ends calibration: stores it and re-arms translation.
    pub fn finish_calibration(&mut self) -> (r: Result<Calibration, AppError>)
        ensures
            old(self)@.3 is None ==> (r matches Err(e) && is_state_error(e, "no calibration in progress") && final(self)@ == old(self)@),
            old(self)@.3 matches Some(s) ==> s.1 < 12 ==> (r matches Err(AppError::Domain(
                DomainError::IncompleteCalibration { missing },
            )) && final(self)@ == old(self)@ && missing@.len() == 12 - s.1 && forall|i: int|
                0 <= i < missing@.len() ==> #[trigger] missing@[i] == s.1 + 1 + i),
            old(self)@.3 matches Some(s) ==> s.1 == 12 ==> ({
                let v = (old(self)@.0, Some(s.0), old(self)@.2, None::<SessionView>);
                &&& final(self)@ == (rebuilt(v), v.1, v.2, v.3)
                &&& r matches Ok(c) ==> c@ == s.0
                &&& nothing_held(old(self)@) ==> r is Ok
            }),
            r is Ok ==> (old(self)@.3 matches Some(s) && s.1 == 12),
            old(self)@.3 matches Some(s) && s.1 == 12 ==> r is Ok,
            r matches Ok(c) ==> all_some(c@) && final(self)@.1 == Some(c@) && final(self)@.3 is None
                && final(self)@ == (
                rebuilt((old(self)@.0, Some(c@), old(self)@.2, None::<SessionView>)),
                Some(c@),
                old(self)@.2,
                None::<SessionView>,
            ),
            final(self).source_spec() == old(self).source_spec(),
            final(self).sink_spec() == old(self).sink_spec(),
    {
        proof {
            use_type_invariant(&self.state);
        }
        let session = match take_out(&mut self.state.calibrating) {
            Some(s) => s,
            None => {
                return Err(AppError::InvalidState(String::from_str("no calibration in progress")));
            },
        };
        if !session.is_complete() {
            let remaining = session.remaining_buttons();
            let mut missing: Vec<u8> = Vec::new();
            let mut k: usize = 0;
            while k < remaining.len()
                invariant
                    k <= remaining@.len(),
                    missing@.len() == k,
                    forall|j: int| 0 <= j < k ==> #[trigger] missing@[j] == remaining@[j]@,
                decreases remaining@.len() - k,
            {
                missing.push(remaining[k].number());
                k = k + 1;
            }
            self.state.calibrating = Some(session);
            return Err(AppError::Domain(DomainError::IncompleteCalibration { missing }));
        }
        session.check_in_order();
        let calibration = session.finish()?;
        self.set_calibration(calibration.clone())?;
        Ok(calibration)
    }

    /// Decides what a batch yields: during calibration the batch feeds the
    /// session and is forwarded raw (presses swallowed when it captured a
    /// button); otherwise each event goes through the translator.
    pub fn process_batch(&mut self, events: &[InputEvent]) -> (r: Result<Vec<Action>, AppError>)
        ensures
            ({
                let (v, actions, ok) = process_spec(old(self)@, event_views(events@));
                &&& final(self)@ == v
                &&& r is Ok <==> ok
                &&& r matches Ok(a) ==> a@ == actions
                &&& r matches Err(e) ==> e matches AppError::Domain(DomainError::PhysicalCodeConflict { .. })
            }),
            final(self).source_spec() == old(self).source_spec(),
            final(self).sink_spec() == old(self).sink_spec(),
    {
        proof {
            use_type_invariant(&self.state);
        }
        let ghost evs = event_views(events@);
        match take_out(&mut self.state.calibrating) {
            Some(mut session) => {
                let result = session.feed_batch(events);
                self.state.calibrating = Some(session);
                let captured = match result {
                    Ok(c) => c,
                    Err(err) => {
                        return Err(err);
                    },
                };
                let swallow = captured.len() > 0;
                let mut actions: Vec<Action> = Vec::new();
                let mut i: usize = 0;
                while i < events.len()
                    invariant
                        i <= events@.len(),
                        evs == event_views(events@),
                        actions@ == calibration_passthrough(evs.take(i as int), swallow),
                    decreases events@.len() - i,
                {
                    proof {
                        assert(evs.take(i + 1).drop_last() =~= evs.take(i as int));
                        assert(evs.take(i + 1).last() == events@[i as int]@);
                    }
                    if !(events[i].is_key_press() && swallow) {
                        actions.push(forwarded(&events[i]));
                    }
                    assert(actions@ =~= calibration_passthrough(evs.take(i + 1), swallow));
                    i = i + 1;
                }
                assert(evs.take(i as int) =~= evs);
                Ok(actions)
            },
            None => {
                match take_out(&mut self.state.translator) {
                    Some(mut translator) => {
                        let mut actions: Vec<Action> = Vec::new();
                        let mut i: usize = 0;
                        let ghost t0 = translator@;
                        while i < events.len()
                            invariant
                                i <= events@.len(),
                                evs == event_views(events@),
                                (translator@, actions@) == translate_all(t0, evs.take(i as int)),
                            decreases events@.len() - i,
                        {
                            proof {
                                assert(evs.take(i + 1).drop_last() =~= evs.take(i as int));
                                assert(evs.take(i + 1).last() == events@[i as int]@);
                            }
                            let more = translator.translate(&events[i]);
                            let mut k: usize = 0;
                            let ghost before = actions@;
                            while k < more.len()
                                invariant
                                    k <= more@.len(),
                                    actions@ == before + more@.take(k as int),
                                decreases more@.len() - k,
                            {
                                actions.push(more[k]);
                                assert(before + more@.take(k + 1) =~= (before + more@.take(k as int)).push(more@[k as int]));
                                k = k + 1;
                            }
                            assert(more@.take(k as int) =~= more@);
                            i = i + 1;
                        }
                        assert(evs.take(i as int) =~= evs);
                        self.state.translator = Some(translator);
                        Ok(actions)
                    },
                    None => Ok(Vec::new()),
                }
            },
        }
    }

    /// Processes a batch of events: read, translate or capture, inject.
    pub fn run_once(&mut self) -> (r: Result<usize, AppError>)
        ensures
            old(self)@.0 is None ==> (r matches Err(e) && is_state_error(e, "engine is not active") && final(self)@ == old(self)@),
            r matches Ok(n) ==> exists|events: Seq<EventView>|
                events.len() == n && process_spec(old(self)@, events).2 && final(self)@ == process_spec(
                    old(self)@,
                    events,
                ).0 && (O::follows_model() ==> final(self).sink_spec().emitted_actions() == old(self).sink_spec().emitted_actions() + process_spec(old(self)@, events).1
                    && final(self).sink_spec().mirror() == old(self).sink_spec().mirror()),
            old(self)@.0 is None ==> final(self).sink_spec() == old(self).sink_spec() && final(self).source_spec() == old(self).source_spec(),
            S::follows_model() ==> final(self).source_spec().grabbed_names() == old(self).source_spec().grabbed_names(),
            O::follows_model() && r is Err ==> final(self).sink_spec().emitted_actions() == old(self).sink_spec().emitted_actions(),
            old(self)@.3 is Some ==> final(self)@.0 == old(self)@.0,
            old(self)@.3 matches Some(session) ==> (r matches Ok(n) ==> exists|events: Seq<EventView>|
                events.len() == n && #[trigger] feed_outcome(session, events).2 && final(self)@.3 == Some(
                    feed_outcome(session, events).0,
                ) && (O::follows_model() ==> final(self).sink_spec().emitted_actions() == old(self).sink_spec().emitted_actions() + calibration_passthrough(events, feed_outcome(session, events).1 > 0))),
    {
        if !self.is_active() {
            return Err(AppError::InvalidState(String::from_str("engine is not active")));
        }
        let events = self.source.read_events()?;
        let actions = self.process_batch(events.as_slice())?;
        if actions.len() > 0 {
            self.sink.emit(actions.as_slice())?;
        }
        assert(event_views(events@).len() == events@.len());
        Ok(events.len())
    }
}

} // verus!
