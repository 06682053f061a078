//! The WallShader directory layout and its search orders.
use vstd::prelude::*;
use crate::text::strings_view;
use crate::fspath::{contains_path, contains_path_exec, join, path_join};

verus! {

/// The user's configuration, data, cache and shared directories, and a
/// development checkout when one was found.
#[derive(Debug, Clone)]
pub struct AppPaths {
    config_dir: String,
    data_dir: String,
    cache_dir: String,
    share_dir: String,
    dev_root: Option<String>,
}

pub open spec fn opt_view(o: Option<String>) -> Option<Seq<char>> {
    match o {
        Some(s) => Some(s@),
        None => None,
    }
}

/// `v` with `p` added at the end unless an equal path is already there.
pub open spec fn push_unique(v: Seq<Seq<char>>, p: Seq<char>) -> Seq<Seq<char>> {
    if contains_path(v, p) {
        v
    } else {
        v.push(p)
    }
}

/// `v` with `dev/<sub>` added when there is a development root.
pub open spec fn with_dev(v: Seq<Seq<char>>, dev: Option<Seq<char>>, sub: Seq<char>) -> Seq<
    Seq<char>,
> {
    match dev {
        Some(d) => push_unique(v, join(d, sub)),
        None => v,
    }
}

pub fn push_unique_exec(v: &mut Vec<String>, p: String)
    ensures
        strings_view(final(v)@) == push_unique(strings_view(old(v)@), p@),
{
    if !contains_path_exec(v, p.as_str()) {
        v.push(p);
        proof {
            assert(strings_view(v@) =~= strings_view(old(v)@).push(p@));
        }
    }
}

impl AppPaths {
    pub closed spec fn config_view(&self) -> Seq<char> {
        self.config_dir@
    }

    pub closed spec fn data_view(&self) -> Seq<char> {
        self.data_dir@
    }

    pub closed spec fn cache_view(&self) -> Seq<char> {
        self.cache_dir@
    }

    pub closed spec fn share_view(&self) -> Seq<char> {
        self.share_dir@
    }

    pub closed spec fn dev_view(&self) -> Option<Seq<char>> {
        opt_view(self.dev_root)
    }

    /// The directories as discovered.
    pub fn new(
        config_dir: String,
        data_dir: String,
        cache_dir: String,
        share_dir: String,
        dev_root: Option<String>,
    ) -> (r: Self)
        ensures
            r.config_view() == config_dir@,
            r.data_view() == data_dir@,
            r.cache_view() == cache_dir@,
            r.share_view() == share_dir@,
            r.dev_view() == opt_view(dev_root),
    {
        AppPaths { config_dir, data_dir, cache_dir, share_dir, dev_root }
    }

    pub fn config_dir(&self) -> (r: &str)
        ensures
            r@ == self.config_view(),
    {
        self.config_dir.as_str()
    }

    pub fn data_dir(&self) -> (r: &str)
        ensures
            r@ == self.data_view(),
    {
        self.data_dir.as_str()
    }

    pub fn cache_dir(&self) -> (r: &str)
        ensures
            r@ == self.cache_view(),
    {
        self.cache_dir.as_str()
    }

    pub fn share_dir(&self) -> (r: &str)
        ensures
            r@ == self.share_view(),
    {
        self.share_dir.as_str()
    }

    pub fn state_file(&self) -> (r: String)
        ensures
            r@ == join(self.config_view(), "state.toml"@),
    {
        path_join(self.config_dir.as_str(), "state.toml")
    }

    pub open spec fn shader_user_dirs_spec(&self) -> Seq<Seq<char>> {
        let base = seq![join(self.config_view(), "shaders"@), join(self.data_view(), "shaders"@)];
        push_unique(push_unique(base, self.data_view()), join(self.config_view(), "shaders"@))
    }

    /// `config/shaders`, `data/shaders`, then the data directory itself for
    /// older layouts.
    pub fn shader_user_dirs(&self) -> (r: Vec<String>)
        ensures
            strings_view(r@) == self.shader_user_dirs_spec(),
    {
        let mut dirs: Vec<String> = Vec::new();
        dirs.push(path_join(self.config_dir.as_str(), "shaders"));
        dirs.push(path_join(self.data_dir.as_str(), "shaders"));
        proof {
            assert(strings_view(dirs@) =~= seq![
                join(self.config_view(), "shaders"@),
                join(self.data_view(), "shaders"@),
            ]);
        }
        push_unique_exec(&mut dirs, self.data_dir.clone());
        push_unique_exec(&mut dirs, path_join(self.config_dir.as_str(), "shaders"));
        dirs
    }

    pub open spec fn shader_roots_spec(&self) -> Seq<Seq<char>> {
        with_dev(
            self.shader_user_dirs_spec().push(join(self.share_view(), "shaders"@)),
            self.dev_view(),
            "shaders"@,
        )
    }

    /// The user directories, the shared `shaders` directory, then the
    /// development checkout's `shaders` when it is not already listed.
    pub fn shader_roots(&self) -> (r: Vec<String>)
        ensures
            strings_view(r@) == self.shader_roots_spec(),
    {
        let mut roots = self.shader_user_dirs();
        let ghost before = strings_view(roots@);
        roots.push(path_join(self.share_dir.as_str(), "shaders"));
        proof {
            assert(strings_view(roots@) =~= before.push(join(self.share_view(), "shaders"@)));
        }
        if let Some(dev_root) = &self.dev_root {
            push_unique_exec(&mut roots, path_join(dev_root.as_str(), "shaders"));
        }
        roots
    }

    pub fn shadertoy_cache_dir(&self) -> (r: String)
        ensures
            r@ == join(self.cache_view(), "shadertoy"@),
    {
        path_join(self.cache_dir.as_str(), "shadertoy")
    }

    pub open spec fn playlist_user_dirs_spec(&self) -> Seq<Seq<char>> {
        seq![join(self.config_view(), "playlists"@), join(self.data_view(), "playlists"@)]
    }

    pub fn playlist_user_dirs(&self) -> (r: Vec<String>)
        ensures
            strings_view(r@) == self.playlist_user_dirs_spec(),
    {
        let mut dirs: Vec<String> = Vec::new();
        dirs.push(path_join(self.config_dir.as_str(), "playlists"));
        dirs.push(path_join(self.data_dir.as_str(), "playlists"));
        proof {
            assert(strings_view(dirs@) =~= self.playlist_user_dirs_spec());
        }
        dirs
    }

    pub open spec fn playlist_roots_spec(&self) -> Seq<Seq<char>> {
        with_dev(
            self.playlist_user_dirs_spec().push(join(self.share_view(), "playlists"@)),
            self.dev_view(),
            "playlists"@,
        )
    }

    /// The user playlist directories, the shared one, then the development
    /// checkout's when it is not already listed.
    pub fn playlist_roots(&self) -> (r: Vec<String>)
        ensures
            strings_view(r@) == self.playlist_roots_spec(),
    {
        let mut roots = self.playlist_user_dirs();
        let ghost before = strings_view(roots@);
        roots.push(path_join(self.share_dir.as_str(), "playlists"));
        proof {
            assert(strings_view(roots@) =~= before.push(join(self.share_view(), "playlists"@)));
        }
        if let Some(dev_root) = &self.dev_root {
            push_unique_exec(&mut roots, path_join(dev_root.as_str(), "playlists"));
        }
        roots
    }
}

} // verus!
