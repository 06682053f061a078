//! Bundled-defaults bookkeeping of lambdash: the sync report and options,
//! what the state file records after a sync, and the overview of the
//! directories in use.
use vstd::prelude::*;
use crate::hyshadew::state::AppState;
use crate::hyshadew::defaults::opt_str;
use crate::wallshader::paths::AppPaths;
use crate::text::{chars_of, decimal, decimal_chars, lit, string_of};
use crate::wallshader::bindings::{lex_less, lex_lt, lemma_lex_lt_transitive};

verus! {

/// One bundled asset installed (or, in a dry run, that would be).
#[derive(Debug, Clone)]
pub struct DefaultCopy {
    pub source: String,
    pub target: String,
}

/// The defaults installed by one sync.
#[derive(Debug, Clone)]
pub struct DefaultsSyncReport {
    pub copied_assets: Vec<DefaultCopy>,
    pub share_version: Option<String>,
}

impl Default for DefaultsSyncReport {
    fn default() -> (r: Self)
        ensures
            r.copied_assets@.len() == 0,
            r.share_version is None,
    {
        DefaultsSyncReport { copied_assets: Vec::new(), share_version: None }
    }
}

impl DefaultsSyncReport {
    pub open spec fn copied_any_spec(&self) -> bool {
        self.copied_assets@.len() != 0
    }

    /// Whether the sync installed anything.
    pub fn copied_any(&self) -> (r: bool)
        ensures
            r == self.copied_any_spec(),
    {
        self.copied_assets.len() != 0
    }
}

#[derive(Debug, Clone, Copy, PartialEq, Eq)]
pub struct SyncOptions {
    /// Report what would be copied without writing to disk.
    pub dry_run: bool,
}

impl Default for SyncOptions {
    fn default() -> (r: Self)
        ensures
            !r.dry_run,
    {
        SyncOptions { dry_run: false }
    }
}

/// What the state file records after a sync at `now` (seconds since the
/// epoch): unless it was a dry run, the time of the sync, and the version of
/// the defaults when known; a dry run changes nothing.
pub fn record_sync(state: &mut AppState, report: &DefaultsSyncReport, options: SyncOptions, now: u64)
    ensures
        !options.dry_run ==> opt_str(final(state).last_defaults_sync) == Some(decimal(now as nat)),
        options.dry_run ==> opt_str(final(state).last_defaults_sync) == opt_str(
            old(state).last_defaults_sync,
        ),
        opt_str(final(state).defaults_version) == (if !options.dry_run && report.share_version is Some {
            opt_str(report.share_version)
        } else {
            opt_str(old(state).defaults_version)
        }),
        final(state).flags@ == old(state).flags@,
{
    if !options.dry_run {
        state.last_defaults_sync = Some(string_of(decimal_chars(now).as_slice()));
        match &report.share_version {
            Some(v) => {
                state.defaults_version = Some(lit(v.as_str()));
            },
            None => {},
        }
    }
}

/// A bundled default and whether the user has it.
#[derive(Debug, Clone)]
pub struct DefaultEntryStatus {
    pub name: String,
    pub source: String,
    pub target: String,
    pub installed: bool,
}

/// The directories in use.
#[derive(Debug, Clone)]
pub struct PathOverview {
    pub config_dir: String,
    pub data_dir: String,
    pub cache_dir: String,
    pub share_dir: String,
    pub shader_roots: Vec<String>,
    pub shadertoy_cache: String,
    pub state_file: String,
}

pub fn describe_paths(paths: &AppPaths) -> (r: PathOverview)
    ensures
        r.config_dir@ == paths.config_view(),
        r.data_dir@ == paths.data_view(),
        r.cache_dir@ == paths.cache_view(),
        r.share_dir@ == paths.share_view(),
        r.shader_roots@.map_values(|s: String| s@) == paths.shader_roots_spec(),
        r.shadertoy_cache@ == crate::fspath::join(paths.cache_view(), "shadertoy"@),
        r.state_file@ == crate::fspath::join(paths.config_view(), "state.toml"@),
{
    PathOverview {
        config_dir: lit(paths.config_dir()),
        data_dir: lit(paths.data_dir()),
        cache_dir: lit(paths.cache_dir()),
        share_dir: lit(paths.share_dir()),
        shader_roots: paths.shader_roots(),
        shadertoy_cache: paths.shadertoy_cache_dir(),
        state_file: paths.state_file(),
    }
}

/// The statuses ordered by name.
pub open spec fn sorted_by_name(v: Seq<DefaultEntryStatus>) -> bool {
    forall|i: int, j: int| 0 <= i < j < v.len() ==> !lex_lt(#[trigger] v[j].name@, #[trigger] v[i].name@)
}

/// Orders bundled entries by name (an insertion sort).
pub fn sort_by_name(v: Vec<DefaultEntryStatus>) -> (r: Vec<DefaultEntryStatus>)
    ensures
        sorted_by_name(r@),
        r@.to_multiset() == v@.to_multiset(),
{
    let mut r: Vec<DefaultEntryStatus> = Vec::new();
    let mut rest = v;
    let ghost total = rest@;
    let ghost mut i: int = 0;
    proof {
        assert(total.skip(0) =~= total);
        assert(total.take(0) =~= Seq::<DefaultEntryStatus>::empty());
    }
    while rest.len() > 0
        invariant
            0 <= i <= total.len(),
            rest@ == total.skip(i),
            sorted_by_name(r@),
            r@.to_multiset() == total.take(i).to_multiset(),
        decreases rest@.len(),
    {
        let x = rest.remove(0);
        let ghost xg = x;
        let xn = chars_of(x.name.as_str());
        let mut k: usize = 0;
        let mut found = false;
        while k < r.len() && !found
            invariant
                k <= r@.len(),
                xn@ == xg.name@,
                found ==> k < r@.len() && lex_lt(xg.name@, r@[k as int].name@),
                forall|a: int| 0 <= a < k ==> !lex_lt(xg.name@, #[trigger] r@[a].name@),
            decreases r@.len() - k + if found { 0int } else { 1int },
        {
            if lex_less(xn.as_slice(), chars_of(r[k].name.as_str()).as_slice()) {
                found = true;
            } else {
                k += 1;
            }
        }
        let ghost r0 = r@;
        r.insert(k, x);
        proof {
            assert(r@ == r0.insert(k as int, xg));
            assert forall|a: int, b: int| 0 <= a < b < r@.len() implies !lex_lt(#[trigger] r@[b].name@, #[trigger] r@[a].name@) by {
                if a < k && b == k {
                } else if a == k {
                    let first = r0[k as int];
                    assert(found);
                    assert(lex_lt(xg.name@, first.name@));
                    assert(r@[b] == r0[b - 1]);
                    if b > k + 1 {
                        assert(!lex_lt(r0[b - 1].name@, r0[k as int].name@));
                    }
                    if lex_lt(r@[b].name@, xg.name@) {
                        lemma_lex_lt_transitive(r@[b].name@, xg.name@, first.name@);
                        if b == k + 1 {
                            crate::wallshader::bindings::lemma_lex_lt_irreflexive(first.name@);
                        }
                    }
                } else {
                    let a0 = if a < k { a } else { a - 1 };
                    let b0 = if b < k { b } else { b - 1 };
                    assert(r@[a] == r0[a0]);
                    assert(r@[b] == r0[b0]);
                }
            }
            vstd::seq_lib::to_multiset_insert(r0, k as int, xg);
            assert(xg == total[i]);
            assert(total.take(i + 1) =~= total.take(i).push(total[i]));
            vstd::seq_lib::to_multiset_build(total.take(i), total[i]);
            assert(rest@ =~= total.skip(i + 1));
            i = i + 1;
        }
    }
    proof {
        assert(total.take(i) =~= total);
    }
    r
}

/// The status of bundled entry `name`: where it comes from under
/// `share_root`, where it goes under `target_root`, and whether it is
/// there already.
pub fn entry_status(share_root: &str, target_root: &str, name: &str, installed: bool) -> (r: DefaultEntryStatus)
    ensures
        r.name@ == name@,
        r.source@ == crate::fspath::join(share_root@, name@),
        r.target@ == crate::fspath::join(target_root@, name@),
        r.installed == installed,
{
    DefaultEntryStatus {
        name: lit(name),
        source: crate::fspath::path_join(share_root, name),
        target: crate::fspath::path_join(target_root, name),
        installed,
    }
}

} // verus!
