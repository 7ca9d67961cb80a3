use vstd::prelude::*;
use vstd::string::*;

verus! {

/// Declares the standard library's path buffer, which the daemon's
/// configuration takes as a file location.
#[verifier::external_type_specification]
#[verifier::external_body]
pub struct ExPathBuf(std::path::PathBuf);

/// The core daemon's configuration, held in memory.
#[derive(Debug)]
pub struct Config {
    pub socket_path: String,
    pub log_level: String,
}

/// Whether `c` holds the built-in configuration.
pub open spec fn is_builtin_config(c: Config) -> bool {
    &&& c.socket_path@ == "/tmp/circleosd.sock"@
    &&& c.log_level@ == "info"@
}

impl Config {
    /// The built-in configuration.
    pub fn load_default() -> (r: Self)
        ensures
            is_builtin_config(r),
    {
        Config {
            socket_path: String::from_str("/tmp/circleosd.sock"),
            log_level: String::from_str("info"),
        }
    }

    /// The configuration for the file at `_p`. The file is not read: the
    /// built-in configuration applies.
    pub fn from_path(_p: std::path::PathBuf) -> (r: Self)
        ensures
            is_builtin_config(r),
    {
        Self::load_default()
    }
}

} // verus!
