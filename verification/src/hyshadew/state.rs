//! The hyshadew state file's contents.
use vstd::prelude::*;

verus! {

/// What the daemon remembers between runs.
#[derive(Debug, Clone)]
pub struct AppState {
    /// Version of the bundled defaults last installed.
    pub defaults_version: Option<String>,
    /// When bundled defaults were last installed (seconds since the epoch).
    pub last_defaults_sync: Option<String>,
    pub flags: Vec<String>,
}

impl Default for AppState {
    fn default() -> (r: Self)
        ensures
            r.defaults_version is None,
            r.last_defaults_sync is None,
            r.flags@.len() == 0,
    {
        AppState { defaults_version: None, last_defaults_sync: None, flags: Vec::new() }
    }
}

} // verus!
