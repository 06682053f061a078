//! Start-up preparation: the directories the daemon needs and the size
//! syntax of its command line.
use vstd::prelude::*;
use crate::fspath::{join, path_join};
use crate::setup::{parse_size_value, plan_dirs, probe_and_plan, steps_view, strings_of, surface_size_value, DirStep, DirProbe};
use crate::text::lit;
use crate::wallshader::paths::AppPaths;
use crate::shadertoy::handle::{handle_error_message, normalize_shadertoy_reference, normalized_reference};
use crate::shadertoy::path::PathResolver;
use crate::wallshader::handles::{
    entry_from, handle_issue_message, EntryHandle, EntryHandleOf, LaunchHandle,
};

verus! {

/// The directories the daemon needs, in the order they are prepared: the
/// config, data and cache directories, and the Shadertoy cache.
pub open spec fn bootstrap_dirs(paths: &AppPaths) -> Seq<Seq<char>> {
    seq![paths.config_view(), paths.data_view(), paths.cache_view(), join(paths.cache_view(), "shadertoy"@)]
}

pub fn bootstrap_directories(paths: &AppPaths) -> (r: Vec<String>)
    ensures
        strings_of(r@) == bootstrap_dirs(paths),
{
    let mut v: Vec<String> = Vec::new();
    v.push(lit(paths.config_dir()));
    v.push(lit(paths.data_dir()));
    v.push(lit(paths.cache_dir()));
    v.push(path_join(paths.cache_dir(), "shadertoy"));
    proof {
        assert(strings_of(v@) =~= bootstrap_dirs(paths));
    }
    v
}

/// The steps that prepare the daemon's directories, given what the disk
/// holds when asked: reuse what is there, create what is missing, stop at
/// the first entry that is not a directory.
pub fn bootstrap_filesystem(paths: &AppPaths) -> (r: Vec<DirStep>)
    ensures
        exists|probes: Seq<DirProbe>| #[trigger] plan_dirs(bootstrap_dirs(paths), probes) == steps_view(r@),
{
    let dirs = bootstrap_directories(paths);
    probe_and_plan(dirs.as_slice())
}

/// The size a `--size WIDTHxHEIGHT` value names.
pub fn parse_surface_size(spec: &str) -> (r: Result<(u32, u32), String>)
    ensures
        match r {
            Ok(v) => surface_size_value(spec@) == Ok::<(u32, u32), Seq<char>>(v),
            Err(e) => surface_size_value(spec@) == Err::<(u32, u32), Seq<char>>(e@),
        },
{
    parse_size_value(spec)
}

fn copy_entry(e: &EntryHandle) -> (r: EntryHandle)
    ensures
        r@ == e@,
{
    match e {
        EntryHandleOf::RawPath(p) => EntryHandleOf::RawPath(lit(p.as_str())),
        EntryHandleOf::LocalPack { name } => EntryHandleOf::LocalPack { name: lit(name.as_str()) },
        EntryHandleOf::Shadertoy { id } => EntryHandleOf::Shadertoy { id: lit(id.as_str()) },
    }
}

/// The shader a single run starts with: a `--shadertoy` reference
/// (normalised, then read as an entry handle) wins; then the positional
/// handle, which must not name a playlist; then the bundled `local-demo`
/// pack. Refusals are returned as their messages.
pub fn resolve_entry_handle(resolver: &PathResolver, shadertoy: Option<&str>, shader: Option<&LaunchHandle>) -> (r:
    Result<EntryHandle, String>)
    ensures
        match shadertoy {
            Some(s) => match normalized_reference(s@) {
                Err(e) => r matches Err(m) && m@ == handle_error_message(e),
                Ok(n) => match entry_from(resolver.cwd_view(), resolver.env_view(), resolver.home_view(), n) {
                    Ok(h) => r matches Ok(x) && x@ == h,
                    Err(e) => r matches Err(m) && m@ == handle_issue_message(e),
                },
            },
            None => match shader {
                Some(LaunchHandle::Entry(e)) => r matches Ok(x) && x@ == e@,
                Some(LaunchHandle::Playlist(_)) => r matches Err(m) && m@
                    == "playlist handle is not valid when resolving an entry shader"@,
                None => r matches Ok(x) && x@ == EntryHandleOf::LocalPack { name: "local-demo"@ },
            },
        },
{
    if let Some(s) = shadertoy {
        let normalized = match normalize_shadertoy_reference(s) {
            Ok(n) => n,
            Err(e) => {
                return Err(e.to_string());
            },
        };
        return match EntryHandleOf::parse_with_resolver(resolver, normalized.as_str()) {
            Ok(h) => Ok(h),
            Err(e) => Err(e.to_string()),
        };
    }
    match shader {
        Some(LaunchHandle::Entry(e)) => Ok(copy_entry(e)),
        Some(LaunchHandle::Playlist(_)) => Err(lit("playlist handle is not valid when resolving an entry shader")),
        None => Ok(EntryHandleOf::LocalPack { name: lit("local-demo") }),
    }
}

} // verus!
