//! Use cases: engine control and profile management, orchestrated through
//! the ports. The daemon and the GUI delegate here.

use vstd::prelude::*;

use crate::calibration::Calibration;
use crate::engine::{is_state_error, nothing_held, rebuilt, Engine, EngineView};
use crate::error::{AppError, DomainError};
use crate::node::NodeId;
use crate::order::{sort_names, sorted_texts, texts};
use crate::ports::{Caps, InputEventSource, OutputEventSink, ProfileRepository};
use crate::profile::Profile;
use crate::slots::empty_slots;
use crate::text::{is_blank, str_eq};

verus! {

/// High-level engine operations: a thin facade over `Engine` that
/// remembers whether translation was suspended.
pub struct EngineUseCase<S: InputEventSource, O: OutputEventSink> {
    pub engine: Engine<S, O>,
    suspended: bool,
}

impl<S: InputEventSource, O: OutputEventSink> EngineUseCase<S, O> {
    /// Whether translation is suspended.
    pub closed spec fn suspended(&self) -> bool {
        self.suspended
    }

    /// The state of the engine.
    pub closed spec fn engine_view(&self) -> EngineView {
        self.engine@
    }

    pub fn new(engine: Engine<S, O>) -> (uc: Self)
        ensures
            uc.engine_view() == engine@,
            !uc.suspended(),
    {
        EngineUseCase { engine, suspended: false }
    }

    pub fn is_active(&self) -> (r: bool)
        ensures
            r == self.engine_view().0 is Some,
    {
        self.engine.is_active()
    }

    pub fn is_suspended(&self) -> (r: bool)
        ensures
            r == self.suspended(),
    {
        self.suspended
    }

    pub fn is_calibrating(&self) -> (r: bool)
        ensures
            r == self.engine_view().3 is Some,
    {
        self.engine.is_calibrating()
    }

    /// Starts the engine, or resumes translation when it was suspended.
    /// Never tears down devices.
    pub fn enable(&mut self, nodes: &[NodeId], caps: &Caps) -> (r: Result<(), AppError>)
        ensures
            r is Ok ==> !final(self).suspended() && final(self).engine_view().0 is Some,
            old(self).engine_view().0 is Some && !old(self).suspended() ==> r is Ok && final(self).engine_view() == old(
                self,
            ).engine_view(),
            old(self).engine_view().0 is Some && old(self).suspended() ==> final(self).engine_view() == (
                rebuilt(old(self).engine_view()),
                old(self).engine_view().1,
                old(self).engine_view().2,
                old(self).engine_view().3,
            ),
            old(self).engine_view().0 is Some && old(self).suspended() && nothing_held(old(self).engine_view()) ==> r is Ok,
            r is Err ==> final(self).suspended() == old(self).suspended(),
            old(self).engine_view().0 is Some ==> final(self).engine_view().0 is Some,
            old(self).engine_view().0 is None ==> (r is Err ==> final(self).engine_view() == old(self).engine_view()),
            old(self).engine_view().0 is None ==> (r is Ok ==> final(self).engine_view() == (
                Some(crate::engine::fresh_translator(Seq::empty())),
                old(self).engine_view().1,
                old(self).engine_view().2,
                old(self).engine_view().3,
            )),
    {
        if !self.engine.is_active() {
            self.engine.start(nodes, caps)?;
        } else if self.suspended {
            self.engine.resume_translation()?;
        }
        self.suspended = false;
        Ok(())
    }

    /// Suspends translation (full passthrough). Does not stop the engine.
    pub fn disable(&mut self) -> (r: Result<(), AppError>)
        ensures
            old(self).engine_view().0 is None ==> r is Ok && final(self).engine_view() == old(self).engine_view()
                && final(self).suspended() == old(self).suspended(),
            old(self).engine_view().0 is Some ==> final(self).engine_view().0 is Some && final(self).engine_view().1 == old(
                self,
            ).engine_view().1 && final(self).engine_view().2 == old(self).engine_view().2,
            r is Ok && old(self).engine_view().0 is Some ==> final(self).suspended(),
            nothing_held(old(self).engine_view()) ==> r is Ok,
    {
        if self.engine.is_active() {
            self.engine.suspend_translation()?;
            self.suspended = true;
        }
        Ok(())
    }

    pub fn set_profile(&mut self, profile: Profile) -> (r: Result<(), AppError>)
        ensures
            ({
                let v = (old(self).engine_view().0, old(self).engine_view().1, Some(profile@), old(self).engine_view().3);
                final(self).engine_view() == (rebuilt(v), v.1, v.2, v.3)
            }),
            final(self).suspended() == old(self).suspended(),
    {
        self.engine.set_profile(profile)
    }

    pub fn set_calibration(&mut self, calibration: Calibration) -> (r: Result<(), AppError>)
        ensures
            ({
                let v = (old(self).engine_view().0, Some(calibration@), old(self).engine_view().2, old(self).engine_view().3);
                final(self).engine_view() == (rebuilt(v), v.1, v.2, v.3)
            }),
            final(self).suspended() == old(self).suspended(),
    {
        self.engine.set_calibration(calibration)
    }

    pub fn run_once(&mut self) -> (r: Result<usize, AppError>)
        ensures
            old(self).engine_view().0 is None ==> (r matches Err(e) && is_state_error(e, "engine is not active")),
            final(self).suspended() == old(self).suspended(),
    {
        self.engine.run_once()
    }

    pub fn begin_calibration(&mut self) -> (r: Result<(), AppError>)
        ensures
            old(self).engine_view().0 is None ==> (r matches Err(e) && is_state_error(e, "engine is not active")),
            r is Ok ==> final(self).engine_view().3 == Some(crate::session::CalibrationSession::initial_view()),
            final(self).suspended() == old(self).suspended(),
    {
        self.engine.begin_calibration()
    }

    pub fn cancel_calibration(&mut self)
        ensures
            final(self).engine_view() == (old(self).engine_view().0, old(self).engine_view().1, old(self).engine_view().2, None::<
                crate::session::SessionView,
            >),
            final(self).suspended() == old(self).suspended(),
    {
        self.engine.cancel_calibration();
    }

    pub fn finish_calibration(&mut self) -> (r: Result<Calibration, AppError>)
        ensures
            old(self).engine_view().3 is None ==> (r matches Err(e) && is_state_error(e, "no calibration in progress")),
            old(self).engine_view().3 matches Some(s) ==> (s.1 == 12 ==> (r matches Ok(c) ==> c@ == s.0)) && (s.1 < 12 ==> r is Err),
            final(self).suspended() == old(self).suspended(),
    {
        self.engine.finish_calibration()
    }

    pub fn calibration_progress(&self) -> (p: Option<(Option<u8>, usize)>)
        ensures
            p is Some <==> self.engine_view().3 is Some,
            p matches Some((current, count)) ==> count == (self.engine_view().3->0).1,
    {
        self.engine.calibration_progress()
    }
}

/// The message refusing to delete the default profile.
pub open spec fn default_undeletable(e: AppError) -> bool {
    e matches AppError::Port(m) && m@ == "cannot delete the default profile"@
}

/// Profile persistence and validation. The default profile cannot be
/// deleted; renaming keeps every mapping.
pub struct ProfileUseCase<R: ProfileRepository> {
    repository: R,
    default_profile: String,
}

impl<R: ProfileRepository> ProfileUseCase<R> {
    /// The name of the default profile.
    pub closed spec fn default_name(&self) -> Seq<char> {
        self.default_profile@
    }

    /// The repository the use case works on.
    pub closed spec fn repository(&self) -> R {
        self.repository
    }

    pub fn new(repository: R, default_profile: &str) -> (uc: Self)
        ensures
            uc.default_name() == default_profile@,
    {
        ProfileUseCase { repository, default_profile: String::from_str(default_profile) }
    }

    pub fn default_profile_name(&self) -> (n: &str)
        ensures
            n@ == self.default_name(),
    {
        self.default_profile.as_str()
    }

    /// Creates and stores an empty profile; a blank name is refused before
    /// anything is stored.
    pub fn create(&mut self, name: &str) -> (r: Result<Profile, AppError>)
        ensures
            is_blank(name@) ==> (r matches Err(AppError::Domain(e)) && e == DomainError::EmptyProfileName),
            r matches Ok(p) ==> p@ == (name@, empty_slots::<crate::profile::ComboView>()),
            R::follows_model() ==> (r matches Ok(p) ==> final(self).repository().stored() == old(self).repository().stored().insert(name@, p@)),
            final(self).default_name() == old(self).default_name(),
    {
        let profile = match Profile::new(name) {
            Ok(p) => p,
            Err(e) => {
                return Err(AppError::Domain(e));
            },
        };
        self.repository.save(&profile)?;
        Ok(profile)
    }

    pub fn load(&self, name: &str) -> (r: Result<Profile, AppError>)
        ensures
            R::follows_model() ==> (r matches Ok(p) ==> self.repository().stored().contains_key(name@) && p@
                == self.repository().stored()[name@]),
            R::follows_model() && !self.repository().stored().contains_key(name@) ==> r is Err,
            R::follows_model() && self.repository().stored().contains_key(name@) ==> r is Ok,
    {
        self.repository.load(name)
    }

    pub fn save(&mut self, profile: &Profile) -> (r: Result<(), AppError>)
        ensures
            final(self).default_name() == old(self).default_name(),
            R::follows_model() && r is Ok ==> final(self).repository().stored() == old(self).repository().stored().insert(
                profile@.0,
                profile@,
            ),
    {
        self.repository.save(profile)
    }

    /// All profile names, sorted.
    pub fn list(&self) -> (r: Result<Vec<String>, AppError>)
        ensures
            r matches Ok(names) ==> sorted_texts(texts(names@)),
            R::follows_model() ==> (r matches Ok(names) ==> texts(names@).to_set() == self.repository().stored().dom()),
    {
        let names = self.repository.list()?;
        let ghost before = names@;
        let sorted = sort_names(names);
        proof {
            texts(sorted@).to_multiset_ensures();
            texts(before).to_multiset_ensures();
            assert(texts(sorted@).to_set() =~= texts(before).to_set()) by {
                assert forall|n: Seq<char>| texts(sorted@).to_set().contains(n) == texts(before).to_set().contains(n) by {
                    assert(texts(sorted@).contains(n) == (texts(sorted@).to_multiset().count(n) > 0));
                    assert(texts(before).contains(n) == (texts(before).to_multiset().count(n) > 0));
                }
            }
        }
        Ok(sorted)
    }

    /// Deletes a profile; the default profile cannot be deleted.
    pub fn delete(&mut self, name: &str) -> (r: Result<(), AppError>)
        ensures
            name@ == old(self).default_name() ==> (r matches Err(e) && default_undeletable(e)
                && final(self).repository() == old(self).repository()),
            R::follows_model() && r is Ok ==> final(self).repository().stored() == old(self).repository().stored().remove(
                name@,
            ),
            R::follows_model() && !old(self).repository().stored().contains_key(name@) ==> r is Err,
            final(self).default_name() == old(self).default_name(),
    {
        if str_eq(name, self.default_profile.as_str()) {
            return Err(AppError::Port(String::from_str("cannot delete the default profile")));
        }
        self.repository.delete(name)
    }

    /// Renames a profile, keeping all its mappings; renaming to the same
    /// name only loads it. A blank new name is refused before anything is
    /// stored.
    pub fn rename(&mut self, from: &str, to: &str) -> (r: Result<Profile, AppError>)
        ensures
            from@ != to@ && is_blank(to@) ==> r is Err,
            from@ != to@ ==> (r matches Ok(p) ==> p@.0 == to@),
            from@ == to@ ==> final(self).repository() == old(self).repository(),
            from@ == to@ && R::follows_model() ==> (r matches Ok(p) ==> old(self).repository().stored().contains_key(
                from@,
            ) && p@ == old(self).repository().stored()[from@]),
            R::follows_model() && !old(self).repository().stored().contains_key(from@) ==> r is Err,
            from@ != to@ && (is_blank(to@) || (R::follows_model() && !old(self).repository().stored().contains_key(
                from@,
            ))) ==> r is Err && final(self).repository() == old(self).repository(),
            from@ != to@ && R::follows_model() ==> (r matches Ok(p) ==> old(self).repository().stored().contains_key(
                from@,
            ) && p@ == (to@, old(self).repository().stored()[from@].1) && final(self).repository().stored() == old(self).repository().stored().insert(to@, p@).remove(from@)),
            final(self).default_name() == old(self).default_name(),
    {
        if str_eq(from, to) {
            return self.repository.load(from);
        }
        let source = self.repository.load(from)?;
        let renamed = match source.renamed(to) {
            Ok(p) => p,
            Err(e) => {
                return Err(AppError::Domain(e));
            },
        };
        self.repository.save(&renamed)?;
        self.repository.delete(from)?;
        Ok(renamed)
    }

    /// Ensures the default profile exists: when the repository has no
    /// profile of that name, an empty one is stored.
    pub fn ensure_default(&mut self) -> (r: Result<(), AppError>)
        ensures
            final(self).default_name() == old(self).default_name(),
            is_blank(old(self).default_name()) ==> r is Err || final(self).repository() == old(self).repository(),
            R::follows_model() && r is Ok ==> final(self).repository().stored().contains_key(old(self).default_name()),
            R::follows_model() && r is Ok ==> final(self).repository().stored() == old(self).repository().stored()
                || final(self).repository().stored() == old(self).repository().stored().insert(
                old(self).default_name(),
                (old(self).default_name(), empty_slots::<crate::profile::ComboView>()),
            ),
            R::follows_model() && old(self).repository().stored().contains_key(old(self).default_name()) ==> r is Ok
                && final(self).repository() == old(self).repository(),
    {
        match self.repository.load(self.default_profile.as_str()) {
            Ok(_) => {
                return Ok(());
            },
            Err(_) => {},
        }
        let default = match Profile::new(self.default_profile.as_str()) {
            Ok(p) => p,
            Err(e) => {
                return Err(AppError::Domain(e));
            },
        };
        self.repository.save(&default)?;
        Ok(())
    }
}

} // verus!
