//! Configuration model: listener address, storage location and the shared
//! secret token, plus the startup-time rule that resolves the effective token.

use vstd::prelude::*;

verus! {

/// Where the HTTP listener binds.
pub struct Listen {
    pub address: String,
    pub port: u16,
}

/// Storage location and the configured secret token.
pub struct Static {
    pub dir: String,
    pub token: String,
}

/// The whole configuration file.
pub struct Config {
    pub listen: Listen,
    pub store: Static,
}

/// Command-line arguments: the path of the configuration file.
pub struct Args {
    pub config: String,
}

/// The effective secret token: an environment override, when present, takes
/// precedence over the configuration file's value. Decided once at startup.
pub fn resolve_token(env_token: Option<String>, file_token: String) -> (r: String)
    ensures
        env_token matches Some(t) ==> r == t,
        env_token is None ==> r == file_token,
{
    match env_token {
        Some(t) => t,
        None => file_token,
    }
}

} // verus!
