//! Wiring of the profile use case to a repository below the configured
//! profile directory.

use vstd::prelude::*;

use crate::config::ServerConfig;
use crate::ports::ProfileRepository;
use crate::use_cases::ProfileUseCase;

verus! {

/// Provides use cases wired to the daemon's configuration.
pub struct Container {
    profiles_dir: String,
    default_profile: String,
}

impl Container {
    /// The directory the profile repository is to keep its files in.
    pub closed spec fn profiles_dir_spec(&self) -> Seq<char> {
        self.profiles_dir@
    }

    /// The name of the profile that cannot be deleted.
    pub closed spec fn default_profile_spec(&self) -> Seq<char> {
        self.default_profile@
    }

    pub fn new(config: &ServerConfig) -> (c: Container)
        ensures
            c.profiles_dir_spec() == config.profiles_dir@,
            c.default_profile_spec() == config.default_profile@,
    {
        Container {
            profiles_dir: config.profiles_dir.clone(),
            default_profile: config.default_profile.clone(),
        }
    }

    pub fn profiles_dir(&self) -> (d: &str)
        ensures
            d@ == self.profiles_dir_spec(),
    {
        self.profiles_dir.as_str()
    }

    /// The profile use case over a repository opened on `profiles_dir`,
    /// with the configured default profile.
    pub fn profile_use_case<R: ProfileRepository>(&self, repository: R) -> (uc: ProfileUseCase<R>)
        ensures
            uc.default_name() == self.default_profile_spec(),
    {
        ProfileUseCase::new(repository, self.default_profile.as_str())
    }
}

} // verus!
