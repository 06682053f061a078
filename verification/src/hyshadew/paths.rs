//! The hyshadew directory layout and its search orders.
use vstd::prelude::*;
use crate::text::strings_view;
use crate::fspath::{join, path_join};

verus! {

/// The user's configuration, data, cache and shared directories.
#[derive(Debug, Clone)]
pub struct AppPaths {
    config_dir: String,
    data_dir: String,
    cache_dir: String,
    share_dir: String,
}

impl AppPaths {
    pub closed spec fn config_view(&self) -> Seq<char> {
        self.config_dir@
    }

    pub closed spec fn data_view(&self) -> Seq<char> {
        self.data_dir@
    }

    pub closed spec fn cache_view(&self) -> Seq<char> {
        self.cache_dir@
    }

    pub closed spec fn share_view(&self) -> Seq<char> {
        self.share_dir@
    }

    /// The directories as discovered.
    pub fn new(
        config_dir: String,
        data_dir: String,
        cache_dir: String,
        share_dir: String,
    ) -> (r: Self)
        ensures
            r.config_view() == config_dir@,
            r.data_view() == data_dir@,
            r.cache_view() == cache_dir@,
            r.share_view() == share_dir@,
    {
        AppPaths { config_dir, data_dir, cache_dir, share_dir }
    }

    pub fn config_dir(&self) -> (r: &str)
        ensures
            r@ == self.config_view(),
    {
        self.config_dir.as_str()
    }

    pub fn data_dir(&self) -> (r: &str)
        ensures
            r@ == self.data_view(),
    {
        self.data_dir.as_str()
    }

    pub fn cache_dir(&self) -> (r: &str)
        ensures
            r@ == self.cache_view(),
    {
        self.cache_dir.as_str()
    }

    pub fn share_dir(&self) -> (r: &str)
        ensures
            r@ == self.share_view(),
    {
        self.share_dir.as_str()
    }

    pub fn state_file(&self) -> (r: String)
        ensures
            r@ == join(self.config_view(), "state.toml"@),
    {
        path_join(self.config_dir.as_str(), "state.toml")
    }

    pub open spec fn shader_user_dirs_spec(&self) -> Seq<Seq<char>> {
        seq![join(self.config_view(), "local-shaders"@), join(self.data_view(), "local-shaders"@)]
    }

    pub fn shader_user_dirs(&self) -> (r: Vec<String>)
        ensures
            strings_view(r@) == self.shader_user_dirs_spec(),
    {
        let mut dirs: Vec<String> = Vec::new();
        dirs.push(path_join(self.config_dir.as_str(), "local-shaders"));
        dirs.push(path_join(self.data_dir.as_str(), "local-shaders"));
        proof {
            assert(strings_view(dirs@) =~= self.shader_user_dirs_spec());
        }
        dirs
    }

    /// The user directories, then the shared `local-shaders` directory.
    pub fn shader_roots(&self) -> (r: Vec<String>)
        ensures
            strings_view(r@) == self.shader_user_dirs_spec().push(join(self.share_view(), "local-shaders"@)),
    {
        let mut roots = self.shader_user_dirs();
        let ghost before = strings_view(roots@);
        roots.push(path_join(self.share_dir.as_str(), "local-shaders"));
        proof {
            assert(strings_view(roots@) =~= before.push(join(self.share_view(), "local-shaders"@)));
        }
        roots
    }

    pub open spec fn playlist_user_dirs_spec(&self) -> Seq<Seq<char>> {
        seq![join(self.config_view(), "multi"@), join(self.data_view(), "multi"@)]
    }

    pub fn playlist_user_dirs(&self) -> (r: Vec<String>)
        ensures
            strings_view(r@) == self.playlist_user_dirs_spec(),
    {
        let mut dirs: Vec<String> = Vec::new();
        dirs.push(path_join(self.config_dir.as_str(), "multi"));
        dirs.push(path_join(self.data_dir.as_str(), "multi"));
        proof {
            assert(strings_view(dirs@) =~= self.playlist_user_dirs_spec());
        }
        dirs
    }

    /// The user playlist directories, then the shared `multi` directory.
    pub fn playlist_roots(&self) -> (r: Vec<String>)
        ensures
            strings_view(r@) == self.playlist_user_dirs_spec().push(join(self.share_view(), "multi"@)),
    {
        let mut roots = self.playlist_user_dirs();
        let ghost before = strings_view(roots@);
        roots.push(path_join(self.share_dir.as_str(), "multi"));
        proof {
            assert(strings_view(roots@) =~= before.push(join(self.share_view(), "multi"@)));
        }
        roots
    }

    pub fn shadertoy_cache_dir(&self) -> (r: String)
        ensures
            r@ == join(self.cache_view(), "shadertoy"@),
    {
        path_join(self.cache_dir.as_str(), "shadertoy")
    }
}

/// A directory given by an environment variable when its value is
/// non-empty, the default otherwise.
pub fn resolve_dir(env_value: Option<String>, default: &str) -> (r: String)
    ensures
        match env_value {
            Some(v) => if v@.len() > 0 { r@ == v@ } else { r@ == default@ },
            None => r@ == default@,
        },
{
    match env_value {
        Some(v) => {
            if v.as_str().is_empty() {
                default.to_owned()
            } else {
                v
            }
        },
        None => default.to_owned(),
    }
}

} // verus!
