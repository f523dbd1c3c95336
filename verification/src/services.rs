//! Profile and calibration use cases over the persistence ports.

use vstd::prelude::*;

use crate::button::Button;
use crate::calibration::Calibration;
use crate::error::{AppError, DomainError};
use crate::order::{sort_names, sorted_texts, texts};
use crate::ports::{CalibrationRepository, ProfileRepository};
use crate::profile::Profile;
use crate::slots::{absent, all_some};

verus! {

/// The numbers of the buttons a calibration still misses, in order.
pub fn missing_numbers(calibration: &Calibration) -> (missing: Vec<u8>)
    ensures
        missing@.map_values(|b: u8| b as int) == absent(calibration@),
{
    let buttons = calibration.missing_buttons();
    let mut missing: Vec<u8> = Vec::new();
    let mut k: usize = 0;
    while k < buttons.len()
        invariant
            k <= buttons@.len(),
            missing@.len() == k,
            forall|j: int| 0 <= j < k ==> #[trigger] missing@[j] == buttons@[j]@,
        decreases buttons@.len() - k,
    {
        missing.push(buttons[k].number());
        k = k + 1;
    }
    assert(missing@.map_values(|b: u8| b as int) =~= buttons@.map_values(|b: Button| b@ as int));
    missing
}

/// Profile use cases.
pub struct ProfileService<R> {
    repository: R,
}

impl<R: ProfileRepository> ProfileService<R> {
    pub fn new(repository: R) -> (s: Self)
        ensures
            s.repository() == repository,
    {
        ProfileService { repository }
    }

    /// The repository the service works on.
    pub closed spec fn repository(&self) -> R {
        self.repository
    }

    /// The names the repository lists, sorted.
    pub fn list(&self) -> (r: Result<Vec<String>, AppError>)
        ensures
            r matches Ok(names) ==> sorted_texts(texts(names@)),
            R::follows_model() ==> (r matches Ok(names) ==> texts(names@).to_set() == self.repository().stored().dom()),
    {
        let names = self.repository.list()?;
        let ghost before = names@;
        let sorted = sort_names(names);
        proof {
            texts(sorted@).to_multiset_ensures();
            texts(before).to_multiset_ensures();
            assert(texts(sorted@).to_set() =~= texts(before).to_set()) by {
                assert forall|n: Seq<char>| texts(sorted@).to_set().contains(n) == texts(before).to_set().contains(n) by {
                    assert(texts(sorted@).contains(n) == (texts(sorted@).to_multiset().count(n) > 0));
                    assert(texts(before).contains(n) == (texts(before).to_multiset().count(n) > 0));
                }
            }
        }
        Ok(sorted)
    }

    /// The stored profile of a name.
    pub fn load(&self, name: &str) -> (r: Result<Profile, AppError>)
        ensures
            R::follows_model() ==> (r matches Ok(p) ==> self.repository().stored().contains_key(name@) && p@
                == self.repository().stored()[name@]),
            R::follows_model() && !self.repository().stored().contains_key(name@) ==> r is Err,
            R::follows_model() && self.repository().stored().contains_key(name@) ==> r is Ok,
    {
        self.repository.load(name)
    }

    /// Stores a profile under its name.
    pub fn save(&mut self, profile: &Profile) -> (r: Result<(), AppError>)
        ensures
            R::follows_model() && r is Ok ==> final(self).repository().stored() == old(self).repository().stored().insert(
                profile@.0,
                profile@,
            ),
    {
        self.repository.save(profile)
    }

    /// Removes the profile of a name.
    pub fn delete(&mut self, name: &str) -> (r: Result<(), AppError>)
        ensures
            R::follows_model() && r is Ok ==> final(self).repository().stored() == old(self).repository().stored().remove(
                name@,
            ),
            R::follows_model() && !old(self).repository().stored().contains_key(name@) ==> r is Err,
    {
        self.repository.delete(name)
    }
}

/// Calibration use cases.
pub struct CalibrationService<R> {
    repository: R,
}

impl<R: CalibrationRepository> CalibrationService<R> {
    pub fn new(repository: R) -> (s: Self)
        ensures
            s.repository() == repository,
    {
        CalibrationService { repository }
    }

    /// The repository the service works on.
    pub closed spec fn repository(&self) -> R {
        self.repository
    }

    /// The stored calibration, if any.
    pub fn load(&self) -> (r: Result<Option<Calibration>, AppError>)
        ensures
            R::follows_model() ==> (r matches Ok(c) ==> (c is Some <==> self.repository().stored_calibration() is Some)
                && (c matches Some(c) ==> self.repository().stored_calibration() == Some(c@))),
    {
        self.repository.load()
    }

    /// Only a complete calibration can be persisted: an incomplete one is
    /// refused with the buttons it misses, and the repository is untouched.
    pub fn save(&mut self, calibration: &Calibration) -> (r: Result<(), AppError>)
        ensures
            !all_some(calibration@) ==> (r matches Err(AppError::Domain(DomainError::IncompleteCalibration { missing }))
                && missing@.map_values(|b: u8| b as int) == absent(calibration@)
                && final(self).repository() == old(self).repository()),
            all_some(calibration@) && R::follows_model() && r is Ok ==> final(self).repository().stored_calibration()
                == Some(calibration@),
    {
        if !calibration.is_complete() {
            return Err(AppError::Domain(DomainError::IncompleteCalibration { missing: missing_numbers(calibration) }));
        }
        self.repository.save(calibration)
    }
}

} // verus!
