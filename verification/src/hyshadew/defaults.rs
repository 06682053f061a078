//! Installing the bundled defaults (shader packs and playlists) into the
//! user's data directory: which entries to copy, and what the state file
//! records afterwards. Reading and copying files is the caller's part.
use vstd::prelude::*;
use crate::fspath::{join, path_join};
use crate::hyshadew::paths::AppPaths;
use crate::hyshadew::state::AppState;
use crate::text::{decimal, decimal_chars, lit, string_of};

verus! {

/// The defaults installed by one sync.
#[derive(Debug, Clone)]
pub struct DefaultsSyncReport {
    pub copied_shader_packs: Vec<String>,
    pub copied_playlists: Vec<String>,
    pub share_version: Option<String>,
}

impl Default for DefaultsSyncReport {
    fn default() -> (r: Self)
        ensures
            r.copied_shader_packs@.len() == 0,
            r.copied_playlists@.len() == 0,
            r.share_version is None,
    {
        DefaultsSyncReport { copied_shader_packs: Vec::new(), copied_playlists: Vec::new(), share_version: None }
    }
}

impl DefaultsSyncReport {
    pub open spec fn copied_any_spec(&self) -> bool {
        !(self.copied_shader_packs@.len() == 0 && self.copied_playlists@.len() == 0)
    }

    /// Whether the sync installed anything.
    pub fn copied_any(&self) -> (r: bool)
        ensures
            r == self.copied_any_spec(),
    {
        !(self.copied_shader_packs.len() == 0 && self.copied_playlists.len() == 0)
    }
}

/// The (source, target) roots of each category of defaults: shader packs,
/// then playlists, from the share directory into the data directory.
pub open spec fn category_roots(paths: &AppPaths) -> Seq<(Seq<char>, Seq<char>)> {
    seq![
        (join(paths.share_view(), "local-shaders"@), join(paths.data_view(), "local-shaders"@)),
        (join(paths.share_view(), "multi"@), join(paths.data_view(), "multi"@)),
    ]
}

pub fn default_categories(paths: &AppPaths) -> (r: Vec<(String, String)>)
    ensures
        r@.map_values(|p: (String, String)| (p.0@, p.1@)) == category_roots(paths),
{
    let mut r: Vec<(String, String)> = Vec::new();
    r.push((path_join(paths.share_dir(), "local-shaders"), path_join(paths.data_dir(), "local-shaders")));
    r.push((path_join(paths.share_dir(), "multi"), path_join(paths.data_dir(), "multi")));
    proof {
        assert(r@.map_values(|p: (String, String)| (p.0@, p.1@)) =~= category_roots(paths));
    }
    r
}

pub open spec fn opt_str(o: Option<String>) -> Option<Seq<char>> {
    match o {
        Some(s) => Some(s@),
        None => None,
    }
}

/// What the state file records after a sync at `now` (seconds since the
/// epoch): when anything was installed, the time of the sync and the
/// version of the defaults (when known); otherwise nothing changes.
pub fn record_sync(state: &mut AppState, report: &DefaultsSyncReport, now: u64)
    ensures
        report.copied_any_spec() ==> opt_str(final(state).last_defaults_sync) == Some(decimal(now as nat)),
        !report.copied_any_spec() ==> opt_str(final(state).last_defaults_sync) == opt_str(
            old(state).last_defaults_sync,
        ),
        opt_str(final(state).defaults_version) == (if report.copied_any_spec() && report.share_version is Some {
            opt_str(report.share_version)
        } else {
            opt_str(old(state).defaults_version)
        }),
        final(state).flags@ == old(state).flags@,
{
    if report.copied_any() {
        state.last_defaults_sync = Some(string_of(decimal_chars(now).as_slice()));
        match &report.share_version {
            Some(v) => {
                state.defaults_version = Some(lit(v.as_str()));
            },
            None => {},
        }
    }
}

} // verus!
