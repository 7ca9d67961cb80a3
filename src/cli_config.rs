use vstd::prelude::*;
use vstd::string::*;

verus! {

/// Where the command-line client finds the sockets of the system's daemons.
#[derive(Debug)]
pub struct CliConfig {
    pub plugin_socket: String,
    pub registry_socket: String,
    pub auth_socket: String,
}

/// Whether `c` holds the default socket paths.
pub open spec fn is_default_cli_config(c: CliConfig) -> bool {
    &&& c.plugin_socket@ == "/tmp/plugin-manager.sock"@
    &&& c.registry_socket@ == "/tmp/service-registry.sock"@
    &&& c.auth_socket@ == "/tmp/auth-service.sock"@
}

impl Default for CliConfig {
    fn default() -> (r: Self)
        ensures
            is_default_cli_config(r),
    {
        CliConfig {
            plugin_socket: String::from_str("/tmp/plugin-manager.sock"),
            registry_socket: String::from_str("/tmp/service-registry.sock"),
            auth_socket: String::from_str("/tmp/auth-service.sock"),
        }
    }
}

impl CliConfig {
    /// The client's configuration. No configuration file is read: the
    /// defaults apply.
    pub fn load_or_default() -> (r: Self)
        ensures
            is_default_cli_config(r),
    {
        CliConfig::default()
    }
}

} // verus!
