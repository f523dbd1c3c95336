//! Where the daemon keeps its socket, profiles and calibration.

use vstd::prelude::*;

use crate::devices::TRINITY_PREFIX;

verus! {

/// A path below a directory: the directory, a separator unless it already
/// ends with one, then the name (just the name below an empty directory).
pub open spec fn joined(base: Seq<char>, name: Seq<char>) -> Seq<char> {
    if base.len() == 0 {
        name
    } else if base.last() == '/' {
        base + name
    } else {
        base + "/"@ + name
    }
}

/// Joins a relative name to a directory path.
pub fn join_path(base: &str, name: &str) -> (path: String)
    ensures
        path@ == joined(base@, name@),
{
    let n = base.unicode_len();
    let mut path = String::from_str(base);
    if n > 0 && base.get_char(n - 1) != '/' {
        path.append("/");
    }
    path.append(name);
    path
}

/// Directory of the mapper's configuration, below the user's configuration
/// directory (the working directory when there is none).
pub fn config_root(config_dir: Option<&str>) -> (root: String)
    ensures
        root@ == joined(
            match config_dir {
                Some(d) => d@,
                None => "."@,
            },
            "razer-trinity-mapper"@,
        ),
{
    let base = match config_dir {
        Some(d) => d,
        None => ".",
    };
    join_path(base, "razer-trinity-mapper")
}

/// Default profile directory (`<config>/razer-trinity-mapper/profiles`).
pub fn default_profiles_dir(config_dir: Option<&str>) -> (dir: String)
    ensures
        dir@ == joined(
            joined(
                match config_dir {
                    Some(d) => d@,
                    None => "."@,
                },
                "razer-trinity-mapper"@,
            ),
            "profiles"@,
        ),
{
    let root = config_root(config_dir);
    join_path(root.as_str(), "profiles")
}

/// Default calibration path (`<config>/razer-trinity-mapper/calibration.toml`).
pub fn default_calibration_path(config_dir: Option<&str>) -> (path: String)
    ensures
        path@ == joined(
            joined(
                match config_dir {
                    Some(d) => d@,
                    None => "."@,
                },
                "razer-trinity-mapper"@,
            ),
            "calibration.toml"@,
        ),
{
    let root = config_root(config_dir);
    join_path(root.as_str(), "calibration.toml")
}

/// Directory of the socket: the session's runtime directory, else the
/// temporary directory, else `/tmp`.
pub fn runtime_dir(xdg_runtime_dir: Option<&str>, tmpdir: Option<&str>) -> (dir: String)
    ensures
        dir@ == match xdg_runtime_dir {
            Some(d) => d@,
            None => match tmpdir {
                Some(t) => t@,
                None => "/tmp"@,
            },
        },
{
    match xdg_runtime_dir {
        Some(d) => String::from_str(d),
        None => match tmpdir {
            Some(t) => String::from_str(t),
            None => String::from_str("/tmp"),
        },
    }
}

/// Server configuration (overridable paths, mostly for tests).
#[derive(Debug, Clone, PartialEq, Eq)]
pub struct ServerConfig {
    pub socket_path: String,
    pub profiles_dir: String,
    pub calibration_path: String,
    pub default_profile: String,
    pub device_prefix: String,
}

impl ServerConfig {
    /// The default configuration: the socket in the runtime directory,
    /// profiles and calibration in the configuration root, the `default`
    /// profile and the Trinity's nodes.
    pub fn from_dirs(runtime_dir: &str, config_root: &str) -> (c: ServerConfig)
        ensures
            c.socket_path@ == joined(runtime_dir@, "trinity-mapper.sock"@),
            c.calibration_path@ == joined(config_root@, "calibration.toml"@),
            c.profiles_dir@ == joined(config_root@, "profiles"@),
            c.default_profile@ == "default"@,
            c.device_prefix@ == TRINITY_PREFIX@,
    {
        ServerConfig {
            socket_path: join_path(runtime_dir, "trinity-mapper.sock"),
            calibration_path: join_path(config_root, "calibration.toml"),
            profiles_dir: join_path(config_root, "profiles"),
            default_profile: String::from_str("default"),
            device_prefix: String::from_str(TRINITY_PREFIX),
        }
    }

    pub fn with_socket(self, path: &str) -> (c: ServerConfig)
        ensures
            c.socket_path@ == path@,
            c.profiles_dir == self.profiles_dir,
            c.calibration_path == self.calibration_path,
            c.default_profile == self.default_profile,
            c.device_prefix == self.device_prefix,
    {
        ServerConfig { socket_path: String::from_str(path), ..self }
    }

    pub fn with_profiles_dir(self, dir: &str) -> (c: ServerConfig)
        ensures
            c.profiles_dir@ == dir@,
            c.socket_path == self.socket_path,
            c.calibration_path == self.calibration_path,
            c.default_profile == self.default_profile,
            c.device_prefix == self.device_prefix,
    {
        ServerConfig { profiles_dir: String::from_str(dir), ..self }
    }

    pub fn with_calibration_path(self, path: &str) -> (c: ServerConfig)
        ensures
            c.calibration_path@ == path@,
            c.socket_path == self.socket_path,
            c.profiles_dir == self.profiles_dir,
            c.default_profile == self.default_profile,
            c.device_prefix == self.device_prefix,
    {
        ServerConfig { calibration_path: String::from_str(path), ..self }
    }
}

} // verus!
