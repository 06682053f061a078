//! Where shader packs are looked for: local search roots and the cache of
//! downloaded Shadertoy shaders, and what a resolved handle yields.
use vstd::prelude::*;
use crate::fspath::{is_absolute, join, path_join};
use crate::shadertoy::pack::{find_pass, resolve_entry_source, LocalPack, PackError};
use crate::shadertoy::path::PathResolver;
use crate::text::{lit, strings_view};

verus! {

/// A downloaded Shadertoy shader in the cache.
#[derive(Debug, Clone)]
pub struct RemoteShader {
    pub id: String,
    pub cache_dir: String,
    pub pack: LocalPack,
}

/// A resolved shader: a local pack, or a cached Shadertoy download.
#[derive(Debug, Clone)]
pub enum ShaderSource {
    Local(LocalPack),
    CachedRemote(RemoteShader),
}

impl ShaderSource {
    pub open spec fn pack_view(&self) -> LocalPack {
        match self {
            ShaderSource::Local(p) => *p,
            ShaderSource::CachedRemote(r) => r.pack,
        }
    }
}

/// The search roots of local packs and the root of the Shadertoy cache.
#[derive(Debug, Clone)]
pub struct ShaderRepository {
    local_roots: Vec<String>,
    cache_root: String,
}

impl ShaderRepository {
    pub closed spec fn roots_view(&self) -> Seq<Seq<char>> {
        strings_view(self.local_roots@)
    }

    pub closed spec fn cache_root_view(&self) -> Seq<char> {
        self.cache_root@
    }

    pub fn new(local_roots: Vec<String>, cache_root: String) -> (r: Self)
        ensures
            r.roots_view() == strings_view(local_roots@),
            r.cache_root_view() == cache_root@,
    {
        ShaderRepository { local_roots, cache_root }
    }

    /// A repository with a path resolver for the working directory `cwd`
    /// that expands the environment variables `vars` (those of the running
    /// process, as the caller reads them).
    pub fn build(local_roots: Vec<String>, cache_root: String, cwd: &str, vars: Vec<(String, String)>) -> (r: (
        Self,
        PathResolver,
    ))
        ensures
            r.0.roots_view() == strings_view(local_roots@),
            r.0.cache_root_view() == cache_root@,
            r.1.cwd_view() == cwd@,
            r.1.env_view() == vars@.map_values(|p: (String, String)| (p.0@, p.1@)),
    {
        let repo = Self::new(local_roots, cache_root);
        let resolver = PathResolver::with_env(cwd, vars);
        (repo, resolver)
    }

    /// `build` with the default roots (see `with_defaults`).
    pub fn build_with_defaults(cwd: &str, vars: Vec<(String, String)>) -> (r: (Self, PathResolver))
        ensures
            r.0.roots_view() == seq!["shaders"@],
            r.0.cache_root_view() == "cache/shadertoy"@,
            r.1.cwd_view() == cwd@,
            r.1.env_view() == vars@.map_values(|p: (String, String)| (p.0@, p.1@)),
    {
        let mut roots: Vec<String> = Vec::new();
        roots.push(lit("shaders"));
        proof {
            assert(strings_view(roots@) =~= seq!["shaders"@]);
        }
        Self::build(roots, lit("cache/shadertoy"), cwd, vars)
    }

    /// Local packs under `shaders`, downloads under `cache/shadertoy`.
    pub fn with_defaults() -> (r: Self)
        ensures
            r.roots_view() == seq!["shaders"@],
            r.cache_root_view() == "cache/shadertoy"@,
    {
        let mut roots: Vec<String> = Vec::new();
        roots.push(lit("shaders"));
        proof {
            assert(strings_view(roots@) =~= seq!["shaders"@]);
        }
        Self::new(roots, lit("cache/shadertoy"))
    }

    pub fn local_roots(&self) -> (r: &Vec<String>)
        ensures
            strings_view(r@) == self.roots_view(),
    {
        &self.local_roots
    }

    /// The cache directory of Shadertoy shader `id`.
    pub fn remote_cache_dir(&self, id: &str) -> (r: String)
        ensures
            r@ == join(self.cache_root_view(), id@),
    {
        path_join(self.cache_root.as_str(), id)
    }

    /// Where a local pack named `path` is looked for, in order: the path
    /// itself when it is absolute or exists, else under each search root.
    /// An empty path is refused.
    pub fn local_pack_candidates(&self, path: &str, exists: bool) -> (r: Result<Vec<String>, String>)
        ensures
            path@.len() == 0 ==> (r matches Err(m) && m@ == "shader pack path must not be empty"@),
            path@.len() != 0 ==> (r matches Ok(v) && strings_view(v@) == (if is_absolute(path@) || exists {
                seq![path@]
            } else {
                self.roots_view().map_values(|root: Seq<char>| join(root, path@))
            })),
    {
        let chars = crate::text::chars_of(path);
        if chars.len() == 0 {
            return Err(lit("shader pack path must not be empty"));
        }
        let mut out: Vec<String> = Vec::new();
        if crate::fspath::path_is_absolute(chars.as_slice()) || exists {
            out.push(lit(path));
            proof {
                assert(strings_view(out@) =~= seq![path@]);
            }
            return Ok(out);
        }
        let mut i: usize = 0;
        while i < self.local_roots.len()
            invariant
                i <= self.local_roots@.len(),
                strings_view(out@) == strings_view(self.local_roots@.take(i as int)).map_values(
                    |root: Seq<char>| join(root, path@),
                ),
            decreases self.local_roots@.len() - i,
        {
            let ghost before = strings_view(out@);
            let joined = path_join(self.local_roots[i].as_str(), path);
            let ghost jv = joined@;
            out.push(joined);
            i += 1;
            proof {
                assert(self.local_roots@.take(i as int) =~= self.local_roots@.take(i - 1).push(
                    self.local_roots@[i - 1],
                ));
                assert(strings_view(self.local_roots@.take(i as int)) =~= strings_view(self.local_roots@.take(i - 1)).push(self.local_roots@[i - 1]@));
                assert(strings_view(out@) =~= before.push(jv));
                assert(strings_view(out@) =~= strings_view(self.local_roots@.take(i as int)).map_values(
                    |root: Seq<char>| join(root, path@),
                ));
            }
        }
        proof {
            assert(self.local_roots@.take(self.local_roots@.len() as int) =~= self.local_roots@);
        }
        Ok(out)
    }
}

/// The entry pass's source file of a resolved shader.
pub fn load_entry_shader(source: &ShaderSource) -> (r: Result<String, PackError>)
    ensures
        match find_pass(source.pack_view().manifest_view().passes@, source.pack_view().manifest_view().entry@) {
            Some(i) => r matches Ok(p) && p@ == join(
                source.pack_view().root_view(),
                source.pack_view().manifest_view().passes@[i].source@,
            ),
            None => r matches Err(PackError::EntrySourceMissing),
        },
{
    match source {
        ShaderSource::Local(pack) => resolve_entry_source(pack),
        ShaderSource::CachedRemote(remote) => resolve_entry_source(&remote.pack),
    }
}

/// What to do for a Shadertoy shader, given whether a client is at hand,
/// whether a refresh was asked for and whether the cache has it.
#[derive(Debug, Clone, Copy, PartialEq, Eq)]
pub enum RemoteStep {
    /// Download it into the cache.
    Fetch,
    /// Empty its cache directory, then download it.
    ClearAndFetch,
    /// Load it from the cache; when that fails, empty the cache and
    /// download it again if a client is at hand.
    UseCache { refetch_if_invalid: bool },
    /// Nothing to load it from.
    NotCached,
}

pub open spec fn remote_step_spec(has_client: bool, refresh: bool, cached: bool) -> RemoteStep {
    if has_client {
        if refresh && cached {
            RemoteStep::ClearAndFetch
        } else if cached {
            RemoteStep::UseCache { refetch_if_invalid: true }
        } else {
            RemoteStep::Fetch
        }
    } else if cached {
        RemoteStep::UseCache { refetch_if_invalid: false }
    } else {
        RemoteStep::NotCached
    }
}

/// See `remote_step_spec`.
pub fn remote_step(has_client: bool, refresh: bool, cached: bool) -> (r: RemoteStep)
    ensures
        r == remote_step_spec(has_client, refresh, cached),
{
    if has_client {
        if refresh && cached {
            RemoteStep::ClearAndFetch
        } else if cached {
            RemoteStep::UseCache { refetch_if_invalid: true }
        } else {
            RemoteStep::Fetch
        }
    } else if cached {
        RemoteStep::UseCache { refetch_if_invalid: false }
    } else {
        RemoteStep::NotCached
    }
}

/// The message for a Shadertoy shader that is not cached.
pub fn not_cached_message(id: &str, cache_dir: &str) -> (r: String)
    ensures
        r@ == "no cached shader '"@ + id@ + "' found at "@ + cache_dir@,
{
    let mut m = crate::text::wrap_msg("no cached shader '", id, "' found at ");
    m.push_str(cache_dir);
    m
}

/// The message for a local pack found under no search root; the roots are
/// listed as `Debug` prints them.
pub fn missing_pack_message(path: &str, roots: &Vec<String>) -> (r: String)
    ensures
        r@ == "unable to locate shader pack '"@ + path@ + "'. searched roots: "@
            + crate::shadertoy::remote::debug_strings(strings_view(roots@)),
{
    let listed = crate::shadertoy::remote::debug_list(roots);
    let mut m = crate::text::wrap_msg("unable to locate shader pack '", path, "'. searched roots: ");
    m.push_str(listed.as_str());
    m
}

/// The first candidate that exists on disk.
pub fn first_existing(candidates: &Vec<String>, exists: &Vec<bool>) -> (r: Option<usize>)
    requires
        exists@.len() == candidates@.len(),
    ensures
        match r {
            Some(i) => i < exists@.len() && exists@[i as int] && forall|j: int| 0 <= j < i ==> !exists@[j],
            None => forall|j: int| 0 <= j < exists@.len() ==> !exists@[j],
        },
{
    let mut i: usize = 0;
    while i < exists.len()
        invariant
            i <= exists@.len(),
            forall|j: int| 0 <= j < i ==> !exists@[j],
        decreases exists@.len() - i,
    {
        if exists[i] {
            return Some(i);
        }
        i += 1;
    }
    None
}

} // verus!
