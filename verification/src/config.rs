//! Settings: the HTTP server's port and the log level.

use vstd::prelude::*;

verus! {

/// The port of the HTTP server unless configured.
pub fn default_server_port() -> (r: u16)
    ensures
        r == 7777,
{
    7777
}

/// The log level unless configured.
pub fn default_log_level() -> (r: String)
    ensures
        r@ == "info"@,
{
    String::from_str("info")
}

/// What Marty is configured with.
#[derive(Debug)]
pub struct Settings {
    pub server_port: u16,
    pub log_level: String,
}

impl Default for Settings {
    fn default() -> (r: Self)
        ensures
            r.server_port == 7777,
            r.log_level@ == "info"@,
    {
        Settings { server_port: default_server_port(), log_level: default_log_level() }
    }
}

impl Settings {
    /// The settings made of the values found in `Marty.toml` and in the `MARTY_*`
    /// environment variables (which the caller reads, the variables taking precedence):
    /// each value found is used, each one missing takes its default.
    pub fn new(server_port: Option<u16>, log_level: Option<String>) -> (r: Settings)
        ensures
            r.server_port == match server_port {
                Some(p) => p,
                None => 7777,
            },
            r.log_level@ == match log_level {
                Some(l) => l@,
                None => "info"@,
            },
    {
        let server_port = match server_port {
            Some(p) => p,
            None => default_server_port(),
        };
        let log_level = match log_level {
            Some(l) => l,
            None => default_log_level(),
        };
        Settings { server_port, log_level }
    }
}

} // verus!
