//! The daemon's decisions: what each IPC request does to the engine, the
//! profiles and the calibration, what the status reports, and what one
//! turn of the engine loop does. Sockets, threads and sleeps stay outside.

use vstd::prelude::*;

use crate::calibration::{Calibration, CodeView};
use crate::devices::mirror_caps;
use crate::dto::{profile_from_dto, profile_of_dto, profile_to_dto, ProfileDto, Request, Response, Status};
use crate::engine::{Engine, EngineView};
use crate::error::{AppError, DomainError};
use crate::node::NodeId;
use crate::ports::{CalibrationRepository, Caps, DeviceLocator, InputEventSource, OutputEventSink, ProfileRepository};
use crate::profile::Profile;
use crate::text::{decimal, str_eq};

verus! {

/// The capabilities an input node advertises.
pub trait CapsProbe {
    fn node_caps(&self, node: &NodeId) -> Result<Caps, AppError>;
}

/// What one turn of the engine loop did.
#[derive(Debug, Clone, PartialEq, Eq)]
pub enum LoopTurn {
    /// The engine is not running: wait before the next turn.
    Idle,
    /// A batch was processed; the calibration captures not reported yet.
    Ran { captures: Vec<(u8, String, u16)> },
    /// Calibration hit a code shared by two buttons and was cancelled.
    Conflict { captures: Vec<(u8, String, u16)> },
    /// The engine failed: back off before the next turn.
    Failed,
}

/// The observable state of the daemon.
pub struct DaemonView {
    pub engine: EngineView,
    pub suspended: bool,
    pub profile_name: Option<Seq<char>>,
    pub calibration: Option<Seq<Option<CodeView>>>,
    pub error: Option<Seq<char>>,
    pub shutdown: bool,
    pub default_profile: Seq<char>,
}

/// The message of an engine that has no node to grab.
pub open spec fn no_node_message() -> Seq<char> {
    "no Trinity node found"@
}

/// The message refusing to delete the default profile.
pub open spec fn undeletable_message() -> Seq<char> {
    "cannot delete the default profile"@
}

/// Daemon state: the engine and what the daemon remembers around it.
pub struct Daemon<S, O, P, C, L, K> {
    engine: Engine<S, O>,
    suspended: bool,
    profile_name: Option<String>,
    calibration: Option<Calibration>,
    error: Option<String>,
    calibration_log: usize,
    shutdown: bool,
    default_profile: String,
    profiles: P,
    calibrations: C,
    locator: L,
    probe: K,
}

/// An optional text by its contents.
pub open spec fn opt_text(s: Option<String>) -> Option<Seq<char>> {
    match s {
        Some(t) => Some(t@),
        None => None,
    }
}

impl<S: InputEventSource, O: OutputEventSink, P: ProfileRepository, C: CalibrationRepository, L: DeviceLocator, K: CapsProbe> View for Daemon<
    S,
    O,
    P,
    C,
    L,
    K,
> {
    type V = DaemonView;

    closed spec fn view(&self) -> DaemonView {
        DaemonView {
            engine: self.engine@,
            suspended: self.suspended,
            profile_name: opt_text(self.profile_name),
            calibration: match self.calibration {
                Some(c) => Some(c@),
                None => None,
            },
            error: opt_text(self.error),
            shutdown: self.shutdown,
            default_profile: self.default_profile@,
        }
    }
}

/// The mirror's capabilities over the nodes' capabilities: their union,
/// with every known key and the mouse buttons.
pub open spec fn mirror_view(cs: Seq<crate::ports::CapsView>) -> crate::ports::CapsView {
    let u = crate::devices::union_caps(cs);
    (u.0.union(crate::devices::known_codes()).union(crate::devices::mouse_buttons()), u.1, u.2, u.3)
}

/// Whether a status reports a daemon state: translation on, active
/// profile, calibration progress, last error, and a remembered calibration.
pub open spec fn reports(s: Status, v: DaemonView) -> bool {
    &&& s.enabled == (v.engine.0 is Some && !v.suspended)
    &&& opt_text(s.profile) == v.profile_name
    &&& s.calibrating == v.engine.3 is Some
    &&& (v.engine.3 matches Some(session) ==> s.captured_count == session.1 && (session.1 < 12 ==> s.current_button
        == Some((session.1 + 1) as u8)) && (session.1 >= 12 ==> s.current_button is None))
    &&& (v.engine.3 is None ==> s.captured_count == 0 && s.current_button is None)
    &&& s.total_buttons == 12
    &&& opt_text(s.error) == v.error
    &&& (v.calibration is Some ==> s.calibrated)
}

/// Captures by button, node and code.
pub open spec fn capture_views(v: Seq<(u8, String, u16)>) -> Seq<(int, CodeView)> {
    v.map_values(|e: (u8, String, u16)| (e.0 as int, (e.1@, e.2)))
}

/// Whether an optional name is the given one.
fn is_named(name: &Option<String>, other: &str) -> (r: bool)
    ensures
        r == (opt_text(*name) == Some(other@)),
{
    match name {
        Some(n) => str_eq(n.as_str(), other),
        None => false,
    }
}

/// A copy of an optional text.
fn clone_opt(s: &Option<String>) -> (r: Option<String>)
    ensures
        opt_text(r) == opt_text(*s),
{
    match s {
        Some(t) => Some(t.clone()),
        None => None,
    }
}

impl<S: InputEventSource, O: OutputEventSink, P: ProfileRepository, C: CalibrationRepository, L: DeviceLocator, K: CapsProbe> Daemon<
    S,
    O,
    P,
    C,
    L,
    K,
> {
    pub fn new(
        source: S,
        sink: O,
        profiles: P,
        calibrations: C,
        locator: L,
        probe: K,
        default_profile: &str,
    ) -> (d: Self)
        ensures
            d@.engine == (None::<crate::translator::TranslatorView>, None::<Seq<Option<CodeView>>>, None::<
                crate::profile::ProfileView,
            >, None::<crate::session::SessionView>),
            !d@.suspended,
            d@.profile_name is None,
            d@.calibration is None,
            d@.error is None,
            !d@.shutdown,
            d@.default_profile == default_profile@,
    {
        Daemon {
            engine: Engine::new(source, sink),
            suspended: false,
            profile_name: None,
            calibration: None,
            error: None,
            calibration_log: 0,
            shutdown: false,
            default_profile: String::from_str(default_profile),
            profiles,
            calibrations,
            locator,
            probe,
        }
    }

    /// The profile repository the daemon works on.
    pub closed spec fn profile_store(&self) -> P {
        self.profiles
    }

    /// The calibration repository the daemon works on.
    pub closed spec fn calibration_store(&self) -> C {
        self.calibrations
    }

    pub fn engine(&self) -> (e: &Engine<S, O>)
        ensures
            e@ == self@.engine,
    {
        &self.engine
    }

    /// Whether a shutdown was requested.
    pub fn shutdown_requested(&self) -> (r: bool)
        ensures
            r == self@.shutdown,
    {
        self.shutdown
    }

    /// Stops the engine if it runs (on the way out).
    pub fn stop_engine(&mut self) -> (r: Result<(), AppError>)
        ensures
            final(self)@.engine.0 is None,
    {
        if self.engine.is_active() {
            self.engine.stop()
        } else {
            Ok(())
        }
    }

    /// Mirror capabilities of the nodes: theirs, every known key and the
    /// mouse buttons.
    fn full_caps(&self, nodes: &Vec<NodeId>) -> (r: Result<Caps, AppError>)
        ensures
            r matches Ok(c) ==> exists|cs: Seq<crate::ports::CapsView>| cs.len() == nodes@.len() && c@
                == #[trigger] mirror_view(cs),
    {
        let mut all: Vec<Caps> = Vec::new();
        let mut i: usize = 0;
        while i < nodes.len()
            invariant
                i <= nodes@.len(),
                all@.len() == i,
            decreases nodes@.len() - i,
        {
            let caps = self.probe.node_caps(&nodes[i])?;
            all.push(caps);
            i = i + 1;
        }
        let caps = mirror_caps(all.as_slice());
        assert(caps@ == mirror_view(all@.map_values(|c: Caps| c@)));
        Ok(caps)
    }

    /// Starts the engine on the located nodes (or resumes it), restoring
    /// the remembered calibration.
    fn try_enable(&mut self) -> (r: Result<(), AppError>)
        ensures
            r is Ok ==> final(self)@.engine.0 is Some && !final(self)@.suspended && (old(self)@.engine.0 is None
                ==> final(self)@.error is None),
            final(self)@.profile_name == old(self)@.profile_name,
            final(self)@.calibration == old(self)@.calibration,
            final(self)@.shutdown == old(self)@.shutdown,
            final(self)@.default_profile == old(self)@.default_profile,
            final(self).profile_store() == old(self).profile_store(),
            final(self)@.engine.2 == old(self)@.engine.2,
            old(self)@.engine.0 is Some ==> final(self)@.error == old(self)@.error && final(self)@.engine.0 is Some
                && !final(self)@.suspended,
    {
        if self.engine.is_active() {
            self.suspended = false;
            self.engine.resume_translation()?;
            return Ok(());
        }
        let nodes = self.locator.locate()?;
        if nodes.len() == 0 {
            return Err(AppError::Port(String::from_str("no Trinity node found")));
        }
        let caps = self.full_caps(&nodes)?;
        self.engine.start(nodes.as_slice(), &caps)?;
        match &self.calibration {
            Some(calibration) => {
                self.engine.set_calibration(calibration.clone())?;
            },
            None => {},
        }
        self.engine.resume_translation()?;
        self.suspended = false;
        self.error = None;
        Ok(())
    }

    /// Initializes the state: creates the default profile when there is
    /// none, loads the calibration, arms the default profile and tries to
    /// start the engine (a failure to start is remembered, not returned).
    pub fn bootstrap(&mut self) -> (r: Result<(), AppError>)
        ensures
            r is Ok ==> final(self)@.profile_name == Some(old(self)@.default_profile),
            r is Ok ==> (final(self)@.engine.0 is Some && !final(self)@.suspended) || final(self)@.error is Some,
            P::follows_model() && r is Ok && old(self).profile_store().stored().dom() == Set::<Seq<char>>::empty()
                ==> final(self).profile_store().stored().contains_key(old(self)@.default_profile),
            P::follows_model() && r is Ok && final(self).profile_store().stored().contains_key(old(self)@.default_profile)
                ==> final(self)@.engine.2 == Some(final(self).profile_store().stored()[old(self)@.default_profile]),
            P::follows_model() && r is Ok && !crate::text::is_blank(old(self)@.default_profile) && !final(self).profile_store().stored().contains_key(old(self)@.default_profile) ==> final(self)@.engine.2 == Some(
                (old(self)@.default_profile, crate::slots::empty_slots::<crate::profile::ComboView>()),
            ),
            P::follows_model() && r is Ok && old(self).profile_store().stored().dom() != Set::<Seq<char>>::empty()
                ==> final(self).profile_store().stored() == old(self).profile_store().stored(),
            final(self)@.default_profile == old(self)@.default_profile,
    {
        let names = match self.profiles.list() {
            Ok(names) => {
                proof {
                    if P::follows_model() && names@.len() > 0 {
                        let t = crate::order::texts(names@);
                        assert(t[0] == names@[0]@);
                        assert(t.contains(t[0]));
                        assert(t.to_set().contains(t[0]));
                    }
                    if P::follows_model() && names@.len() == 0 {
                        assert(crate::order::texts(names@).to_set() =~= Set::<Seq<char>>::empty());
                    }
                }
                names
            },
            Err(_) => Vec::new(),
        };
        if names.len() == 0 {
            let default = match Profile::new(self.default_profile.as_str()) {
                Ok(p) => p,
                Err(e) => {
                    return Err(AppError::Domain(e));
                },
            };
            self.profiles.save(&default)?;
        }
        let calibration = self.calibrations.load()?;
        let profile = match self.profiles.load(self.default_profile.as_str()) {
            Ok(p) => Some(p),
            Err(_) => match Profile::new(self.default_profile.as_str()) {
                Ok(p) => Some(p),
                Err(_) => None,
            },
        };
        self.calibration = calibration;
        self.profile_name = Some(self.default_profile.clone());
        match profile {
            Some(p) => {
                let _ = self.engine.set_profile(p);
            },
            None => {},
        }
        match &self.calibration {
            Some(c) => {
                let _ = self.engine.set_calibration(c.clone());
            },
            None => {},
        }
        match self.try_enable() {
            Ok(()) => {},
            Err(err) => {
                self.error = Some(err.to_string());
            },
        }
        Ok(())
    }

    /// Turns translation on or off. Devices are never torn down: off is a
    /// full passthrough (recreating the mirror and the grab on toggle races
    /// the compositor). An engine that never started is only started when
    /// turned on.
    pub fn set_enabled(&mut self, enabled: bool) -> (r: Result<(), AppError>)
        ensures
            r is Ok ==> final(self)@.suspended == !enabled,
            old(self)@.engine.0 is None && !enabled ==> r is Ok && final(self)@.engine == old(self)@.engine,
            old(self)@.engine.0 is Some ==> final(self)@.suspended == !enabled && final(self)@.engine.0 is Some,
            old(self)@.engine.0 is Some && !enabled ==> final(self)@.engine == (
                Some(crate::engine::fresh_translator(Seq::empty())),
                old(self)@.engine.1,
                old(self)@.engine.2,
                old(self)@.engine.3,
            ),
            old(self)@.engine.0 is Some && enabled ==> final(self)@.engine == (
                crate::engine::rebuilt(old(self)@.engine),
                old(self)@.engine.1,
                old(self)@.engine.2,
                old(self)@.engine.3,
            ),
            old(self)@.engine.0 is Some && crate::engine::nothing_held(old(self)@.engine) ==> r is Ok,
            final(self)@.profile_name == old(self)@.profile_name,
            final(self)@.calibration == old(self)@.calibration,
            final(self)@.default_profile == old(self)@.default_profile,
            final(self)@.shutdown == old(self)@.shutdown,
    {
        if !self.engine.is_active() {
            if enabled {
                self.try_enable()?;
            }
            self.suspended = !enabled;
            return Ok(());
        }
        self.suspended = !enabled;
        if enabled {
            self.engine.resume_translation()
        } else {
            self.engine.suspend_translation()
        }
    }

    /// Arms a stored profile and makes it the active one.
    pub fn set_profile(&mut self, name: &str) -> (r: Result<(), AppError>)
        ensures
            r is Ok ==> final(self)@.profile_name == Some(name@) && final(self)@.engine.2 is Some,
            r is Ok ==> (final(self)@.engine.2 matches Some(p) && final(self)@.engine == (
                crate::engine::rebuilt((old(self)@.engine.0, old(self)@.engine.1, Some(p), old(self)@.engine.3)),
                old(self)@.engine.1,
                Some(p),
                old(self)@.engine.3,
            )),
            r is Err ==> final(self)@.profile_name == old(self)@.profile_name,
            P::follows_model() && r is Ok ==> old(self).profile_store().stored().contains_key(name@) && final(self)@.engine.2 == Some(old(self).profile_store().stored()[name@]),
            P::follows_model() && !old(self).profile_store().stored().contains_key(name@) ==> r is Err && final(self)@
                == old(self)@,
            P::follows_model() && old(self).profile_store().stored().contains_key(name@) && crate::engine::nothing_held(
                old(self)@.engine,
            ) ==> r is Ok && final(self)@.profile_name == Some(name@) && final(self)@.engine.2 == Some(
                old(self).profile_store().stored()[name@],
            ),
            final(self).profile_store() == old(self).profile_store(),
            final(self)@.suspended == old(self)@.suspended,
            final(self)@.calibration == old(self)@.calibration,
            final(self)@.default_profile == old(self)@.default_profile,
            final(self)@.shutdown == old(self)@.shutdown,
    {
        let profile = self.profiles.load(name)?;
        self.engine.set_profile(profile)?;
        self.profile_name = Some(String::from_str(name));
        Ok(())
    }

    /// Renames a profile, keeping its mappings; the active profile follows
    /// its new name. Renaming to the same name does nothing.
    pub fn rename_profile(&mut self, from: &str, to: &str) -> (r: Result<(), AppError>)
        ensures
            from@ == to@ ==> r is Ok && final(self)@ == old(self)@,
            from@ != to@ && crate::text::is_blank(to@) ==> r is Err,
            r is Ok && from@ != to@ && old(self)@.profile_name == Some(from@) ==> final(self)@.profile_name == Some(
                to@,
            ),
            r is Ok && old(self)@.profile_name != Some(from@) ==> final(self)@.profile_name == old(
                self,
            )@.profile_name,
            from@ == to@ ==> final(self).profile_store() == old(self).profile_store(),
            from@ != to@ && P::follows_model() ==> (r is Ok ==> old(self).profile_store().stored().contains_key(from@)
                && final(self).profile_store().stored() == old(self).profile_store().stored().insert(
                to@,
                (to@, old(self).profile_store().stored()[from@].1),
            ).remove(from@)),
            from@ != to@ && P::follows_model() && r is Ok && old(self)@.profile_name == Some(from@) ==> final(self)@.engine.2 == Some((to@, old(self).profile_store().stored()[from@].1)),
            final(self)@.suspended == old(self)@.suspended,
            final(self)@.calibration == old(self)@.calibration,
            final(self)@.default_profile == old(self)@.default_profile,
            final(self)@.shutdown == old(self)@.shutdown,
    {
        if str_eq(from, to) {
            return Ok(());
        }
        let profile = self.profiles.load(from)?;
        let renamed = match profile.renamed(to) {
            Ok(p) => p,
            Err(e) => {
                return Err(AppError::Domain(e));
            },
        };
        self.profiles.save(&renamed)?;
        self.profiles.delete(from)?;
        if is_named(&self.profile_name, from) {
            self.engine.set_profile(renamed)?;
            self.profile_name = Some(String::from_str(to));
        }
        Ok(())
    }

    /// Deletes a profile; the default profile cannot be deleted. When the
    /// active profile is deleted, the default profile takes over.
    pub fn delete_profile(&mut self, name: &str) -> (r: Result<(), AppError>)
        ensures
            name@ == old(self)@.default_profile ==> (r matches Err(e) && e@ == crate::error::AppErrorView::Port(
                undeletable_message(),
            ) && final(self)@ == old(self)@),
            final(self)@.profile_name == old(self)@.profile_name || (old(self)@.profile_name == Some(name@)
                && final(self)@.profile_name == Some(old(self)@.default_profile)),
            name@ == old(self)@.default_profile ==> final(self).profile_store() == old(self).profile_store(),
            P::follows_model() && r is Ok ==> final(self).profile_store().stored() == old(self).profile_store().stored().remove(
                name@,
            ),
            P::follows_model() && !old(self).profile_store().stored().contains_key(name@) ==> r is Err,
            P::follows_model() && name@ != old(self)@.default_profile && old(self).profile_store().stored().contains_key(name@)
                ==> final(self).profile_store().stored() == old(self).profile_store().stored().remove(name@),
            P::follows_model() && name@ != old(self)@.default_profile && old(self).profile_store().stored().contains_key(name@)
                && (old(self)@.profile_name != Some(name@) || crate::engine::nothing_held(old(self)@.engine)) ==> r is Ok,
            P::follows_model() && r is Ok && old(self)@.profile_name == Some(name@) && old(self).profile_store().stored().contains_key(old(self)@.default_profile) ==> final(self)@.profile_name
                == Some(old(self)@.default_profile) && final(self)@.engine.2 == Some(
                old(self).profile_store().stored()[old(self)@.default_profile],
            ),
            r is Ok && old(self)@.profile_name != Some(name@) ==> final(self)@.engine == old(self)@.engine,
            final(self)@.suspended == old(self)@.suspended,
            final(self)@.calibration == old(self)@.calibration,
            final(self)@.default_profile == old(self)@.default_profile,
            final(self)@.shutdown == old(self)@.shutdown,
    {
        if str_eq(name, self.default_profile.as_str()) {
            return Err(AppError::Port(String::from_str("cannot delete the default profile")));
        }
        self.profiles.delete(name)?;
        if is_named(&self.profile_name, name) {
            match self.profiles.load(self.default_profile.as_str()) {
                Ok(default) => {
                    self.engine.set_profile(default)?;
                    self.profile_name = Some(self.default_profile.clone());
                },
                Err(_) => {},
            }
        }
        Ok(())
    }

    /// The exchanged form of a stored profile.
    pub fn load_profile_dto(&self, name: &str) -> (r: Result<ProfileDto, AppError>)
        ensures
            r matches Ok(d) ==> exists|p: crate::profile::ProfileView| crate::dto::dto_of(p) == Ok::<
                crate::dto::DtoView,
                crate::error::AppErrorView,
            >(d@),
            P::follows_model() ==> (r matches Ok(d) ==> self.profile_store().stored().contains_key(name@)
                && crate::dto::dto_of(self.profile_store().stored()[name@]) == Ok::<
                crate::dto::DtoView,
                crate::error::AppErrorView,
            >(d@)),
            P::follows_model() && !self.profile_store().stored().contains_key(name@) ==> r is Err,
    {
        let profile = self.profiles.load(name)?;
        profile_to_dto(&profile)
    }

    /// Stores an exchanged profile (validated first); the active profile is
    /// re-armed when it is the one saved.
    pub fn save_profile_dto(&mut self, dto: &ProfileDto) -> (r: Result<(), AppError>)
        ensures
            profile_of_dto(dto@) is Err ==> r is Err && final(self)@ == old(self)@ && final(self).profile_store()
                == old(self).profile_store(),
            P::follows_model() && r is Ok ==> final(self).profile_store().stored() == old(self).profile_store().stored().insert(
                dto@.0,
                profile_of_dto(dto@)->Ok_0,
            ),
            r is Ok && old(self)@.profile_name == Some(dto@.0) ==> ({
                let v = (old(self)@.engine.0, old(self)@.engine.1, Some(profile_of_dto(dto@)->Ok_0), old(self)@.engine.3);
                final(self)@.engine == (crate::engine::rebuilt(v), v.1, v.2, v.3)
            }),
            old(self)@.profile_name != Some(dto@.0) ==> final(self)@.engine == old(self)@.engine,
            final(self)@.profile_name == old(self)@.profile_name,
            final(self)@.suspended == old(self)@.suspended,
            final(self)@.calibration == old(self)@.calibration,
            final(self)@.default_profile == old(self)@.default_profile,
            final(self)@.shutdown == old(self)@.shutdown,
    {
        let profile = profile_from_dto(dto)?;
        proof {
            crate::dto::lemma_apply_keeps_name((dto@.0, crate::slots::empty_slots()), dto@.1);
        }
        self.profiles.save(&profile)?;
        if is_named(&self.profile_name, profile.name()) {
            self.engine.set_profile(profile)?;
        }
        Ok(())
    }

    /// Ends calibration, stores it and remembers it.
    pub fn finish_calibration(&mut self) -> (r: Result<(), AppError>)
        ensures
            old(self)@.engine.3 is None ==> r is Err && final(self)@ == old(self)@,
            r is Ok ==> (old(self)@.engine.3 matches Some(s) && s.1 == 12 && final(self)@.calibration == Some(s.0)),
            C::follows_model() && r is Ok ==> final(self).calibration_store().stored_calibration() == final(self)@.calibration,
            old(self)@.engine.3 matches Some(s) ==> (s.1 < 12 ==> r is Err && final(self)@ == old(self)@),
            old(self)@.engine.3 matches Some(s) ==> (s.1 == 12 ==> ({
                let v = (old(self)@.engine.0, Some(s.0), old(self)@.engine.2, None::<crate::session::SessionView>);
                final(self)@.engine == (crate::engine::rebuilt(v), v.1, v.2, v.3)
            })),
            final(self)@.profile_name == old(self)@.profile_name,
            final(self)@.suspended == old(self)@.suspended,
            final(self)@.default_profile == old(self)@.default_profile,
            final(self)@.shutdown == old(self)@.shutdown,
    {
        let calibration = self.engine.finish_calibration()?;
        self.calibrations.save(&calibration)?;
        self.calibration = Some(calibration);
        Ok(())
    }

    /// Snapshot of the state. The device is present when the locator finds
    /// a node; the calibration counts when a complete one is stored or one
    /// is remembered.
    pub fn build_status(&self) -> (s: Status)
        ensures
            reports(s, self@),
            C::follows_model() && s.calibrated && self@.calibration is None ==> (self.calibration_store().stored_calibration()
                matches Some(c) && crate::slots::all_some(c)),
    {
        let device_present = match self.locator.locate() {
            Ok(nodes) => nodes.len() > 0,
            Err(_) => false,
        };
        let stored = match self.calibrations.load() {
            Ok(Some(c)) => c.is_complete(),
            _ => false,
        };
        let (current_button, captured_count) = match self.engine.calibration_progress() {
            Some((current, count)) => (current, count),
            None => (None, 0),
        };
        Status {
            device_present,
            enabled: self.engine.is_active() && !self.suspended,
            calibrated: stored || self.calibration.is_some(),
            profile: clone_opt(&self.profile_name),
            calibrating: self.engine.is_calibrating(),
            current_button,
            captured_count,
            total_buttons: 12,
            error: clone_opt(&self.error),
        }
    }

    /// Handles one IPC request. A failure is answered with its message and
    /// remembered as the last error.
    pub fn handle_request(&mut self, request: Request) -> (r: Response)
        ensures
            request == Request::Shutdown ==> r == Response::Success && final(self)@.shutdown,
            request == Request::GetStatus ==> r is Status && final(self)@ == old(self)@,
            request == Request::GetStatus ==> (r matches Response::Status(s) && reports(s, old(self)@)),
            request == Request::ListProfiles && P::follows_model() ==> (r matches Response::Profiles { names }
                ==> crate::order::texts(names@).to_set() == old(self).profile_store().stored().dom()),
            request == Request::ListProfiles ==> (r is Profiles || r is Error),
            request matches Request::GetProfile { name } ==> (r is Profile || r is Error),
            request matches Request::GetProfile { name } ==> (P::follows_model() ==> (r matches Response::Profile {
                profile,
            } ==> old(self).profile_store().stored().contains_key(name@) && crate::dto::dto_of(
                old(self).profile_store().stored()[name@],
            ) == Ok::<crate::dto::DtoView, crate::error::AppErrorView>(profile@))),
            request matches Request::GetProfile { name } ==> (P::follows_model() && !old(self).profile_store().stored().contains_key(name@) ==> r is Error),
            request matches Request::SetProfile { name } ==> (P::follows_model() && r == Response::Success
                ==> old(self).profile_store().stored().contains_key(name@) && final(self)@.engine.2 == Some(
                old(self).profile_store().stored()[name@],
            )),
            request == Request::ListProfiles || request is GetProfile || request == Request::GetStatus ==> final(self).profile_store() == old(self).profile_store(),
            request == Request::ListProfiles || request is GetProfile ==> final(self)@ == old(self)@,
            request == Request::CancelCalibration ==> r == Response::Success && final(self)@.engine.3 is None,
            !(request == Request::ListProfiles || request is GetProfile) ==> (r matches Response::Error { message }
                ==> final(self)@.error == Some(message@)),
            request matches Request::SetEnabled { enabled } ==> (r == Response::Success ==> final(self)@.suspended
                == !enabled),
            request matches Request::SetProfile { name } ==> (r == Response::Success ==> final(self)@.profile_name
                == Some(name@)),
            request matches Request::DeleteProfile { name } ==> (name@ == old(self)@.default_profile ==> (
            r matches Response::Error { message } && message@ == "adapter error: "@ + undeletable_message())),
            request matches Request::RenameProfile { from, to } ==> (from@ == to@ ==> r == Response::Success),
            request matches Request::RenameProfile { from, to } ==> (from@ != to@ && P::follows_model() && r
                == Response::Success ==> old(self).profile_store().stored().contains_key(from@) && final(self).profile_store().stored() == old(self).profile_store().stored().insert(
                to@,
                (to@, old(self).profile_store().stored()[from@].1),
            ).remove(from@)),
            request matches Request::RenameProfile { from, to } ==> (from@ != to@ && P::follows_model() && r
                == Response::Success && old(self)@.profile_name == Some(from@) ==> final(self)@.profile_name
                == Some(to@)),
            request matches Request::SaveProfile { profile } ==> (profile_of_dto(profile@) is Err ==> r is Error),
            request == Request::FinishCalibration ==> (old(self)@.engine.3 is None ==> r is Error),
            final(self)@.default_profile == old(self)@.default_profile,
    {
        let result = match request {
            Request::GetStatus => {
                return Response::Status(self.build_status());
            },
            Request::SetEnabled { enabled } => self.set_enabled(enabled),
            Request::SetProfile { name } => self.set_profile(name.as_str()),
            Request::DeleteProfile { name } => self.delete_profile(name.as_str()),
            Request::RenameProfile { from, to } => self.rename_profile(from.as_str(), to.as_str()),
            Request::ListProfiles => {
                return match self.profiles.list() {
                    Ok(names) => Response::Profiles { names },
                    Err(err) => Response::Error { message: err.to_string() },
                };
            },
            Request::GetProfile { name } => {
                return match self.load_profile_dto(name.as_str()) {
                    Ok(profile) => Response::Profile { profile },
                    Err(err) => Response::Error { message: err.to_string() },
                };
            },
            Request::SaveProfile { profile } => self.save_profile_dto(&profile),
            Request::BeginCalibration => self.engine.begin_calibration(),
            Request::CancelCalibration => {
                self.engine.cancel_calibration();
                Ok(())
            },
            Request::FinishCalibration => self.finish_calibration(),
            Request::Shutdown => {
                self.shutdown = true;
                Ok(())
            },
        };
        match result {
            Ok(()) => Response::Success,
            Err(err) => {
                let message = err.to_string();
                self.error = Some(message.clone());
                Response::Error { message }
            },
        }
    }

    /// How many calibration captures were already reported.
    pub closed spec fn reported(&self) -> nat {
        self.calibration_log as nat
    }

    /// Calibration captures not reported yet: (button, node, code), in
    /// button order, after those already reported.
    pub fn new_captures(&mut self) -> (fresh: Vec<(u8, String, u16)>)
        ensures
            final(self)@ == old(self)@,
            old(self)@.engine.3 is None ==> fresh@.len() == 0 && final(self).reported() == 0,
            old(self)@.engine.3 matches Some(s) ==> ({
                let all = crate::slots::present(s.0);
                &&& old(self).reported() <= all.len() ==> capture_views(fresh@) == all.skip(
                    old(self).reported() as int,
                )
                &&& old(self).reported() > all.len() ==> fresh@.len() == 0
                &&& final(self).reported() == if old(self).reported() < all.len() {
                    all.len()
                } else {
                    old(self).reported()
                }
            }),
    {
        if !self.engine.is_calibrating() {
            self.calibration_log = 0;
            return Vec::new();
        }
        let snapshot = self.engine.calibration_snapshot();
        let ghost views = snapshot@.map_values(|e: (u8, NodeId, u16)| (e.0 as int, (e.1@, e.2)));
        let mut fresh: Vec<(u8, String, u16)> = Vec::new();
        let start = self.calibration_log;
        if start < snapshot.len() {
            let mut i: usize = start;
            while i < snapshot.len()
                invariant
                    start <= i <= snapshot@.len(),
                    views == snapshot@.map_values(|e: (u8, NodeId, u16)| (e.0 as int, (e.1@, e.2))),
                    capture_views(fresh@) == views.subrange(start as int, i as int),
                decreases snapshot@.len() - i,
            {
                let (button, node, code) = (&snapshot[i].0, &snapshot[i].1, &snapshot[i].2);
                let ghost before = fresh@;
                fresh.push((*button, node.to_string(), *code));
                proof {
                    assert(capture_views(fresh@) =~= capture_views(before).push(views[i as int]));
                    assert(views.subrange(start as int, i + 1) =~= views.subrange(start as int, i as int).push(
                        views[i as int],
                    ));
                }
                i = i + 1;
            }
            assert(views.subrange(start as int, snapshot@.len() as int) =~= views.skip(start as int));
            self.calibration_log = snapshot.len();
        } else {
            assert(capture_views(fresh@) =~= Seq::<(int, CodeView)>::empty());
            if start == snapshot.len() {
                assert(views.skip(start as int) =~= Seq::<(int, CodeView)>::empty());
            }
        }
        fresh
    }

    /// One turn of the engine loop: process a batch when the engine runs.
    /// A calibration conflict cancels calibration and is remembered with
    /// the codes and buttons involved.
    pub fn loop_turn(&mut self) -> (t: LoopTurn)
        ensures
            old(self)@.engine.0 is None ==> t == LoopTurn::Idle && final(self)@ == old(self)@,
            old(self)@.engine.0 is Some ==> !(t is Idle),
            t is Ran ==> exists|evs: Seq<crate::event::EventView>|
                crate::engine::process_spec(old(self)@.engine, evs).2 && final(self)@.engine
                    == crate::engine::process_spec(old(self)@.engine, evs).0,
            t is Ran ==> final(self)@.error == old(self)@.error,
            t is Conflict ==> final(self)@.engine.3 is None && final(self)@.error is Some,
            t is Failed ==> final(self)@.error is Some,
            final(self)@.profile_name == old(self)@.profile_name,
            final(self)@.default_profile == old(self)@.default_profile,
    {
        if !self.engine.is_active() {
            return LoopTurn::Idle;
        }
        match self.engine.run_once() {
            Ok(_) => LoopTurn::Ran { captures: self.new_captures() },
            Err(AppError::Domain(DomainError::PhysicalCodeConflict { node, code, first, second })) => {
                let captures = self.new_captures();
                self.engine.cancel_calibration();
                let mut message = String::from_str("calibration conflict: code ");
                message.append(decimal(code as u64).as_str());
                message.append(" on ");
                message.append(node.as_str());
                message.append(" is emitted by both button ");
                message.append(decimal(first as u64).as_str());
                message.append(" and button ");
                message.append(decimal(second as u64).as_str());
                self.error = Some(message);
                LoopTurn::Conflict { captures }
            },
            Err(err) => {
                self.error = Some(err.to_string());
                LoopTurn::Failed
            },
        }
    }
}

} // verus!
