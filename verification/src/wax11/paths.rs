//! The wax11 directory layout and its search orders.
use vstd::prelude::*;
use crate::text::strings_view;
use crate::fspath::{join, path_join};
use crate::wallshader::paths::{opt_view, push_unique_exec, with_dev};

verus! {

/// The user's configuration, data, cache and shared directories, and a
/// development checkout when one was found.
#[derive(Debug, Clone)]
pub struct AppPaths {
    config_dir: String,
    data_dir: String,
    cache_dir: String,
    share_dir: String,
    dev_root: Option<String>,
}

impl AppPaths {
    pub closed spec fn config_view(&self) -> Seq<char> {
        self.config_dir@
    }

    pub closed spec fn data_view(&self) -> Seq<char> {
        self.data_dir@
    }

    pub closed spec fn cache_view(&self) -> Seq<char> {
        self.cache_dir@
    }

    pub closed spec fn share_view(&self) -> Seq<char> {
        self.share_dir@
    }

    pub closed spec fn dev_view(&self) -> Option<Seq<char>> {
        opt_view(self.dev_root)
    }

    /// The directories as discovered.
    pub fn new(
        config_dir: String,
        data_dir: String,
        cache_dir: String,
        share_dir: String,
        dev_root: Option<String>,
    ) -> (r: Self)
        ensures
            r.config_view() == config_dir@,
            r.data_view() == data_dir@,
            r.cache_view() == cache_dir@,
            r.share_view() == share_dir@,
            r.dev_view() == opt_view(dev_root),
    {
        AppPaths { config_dir, data_dir, cache_dir, share_dir, dev_root }
    }

    pub fn config_dir(&self) -> (r: &str)
        ensures
            r@ == self.config_view(),
    {
        self.config_dir.as_str()
    }

    pub fn data_dir(&self) -> (r: &str)
        ensures
            r@ == self.data_view(),
    {
        self.data_dir.as_str()
    }

    pub fn cache_dir(&self) -> (r: &str)
        ensures
            r@ == self.cache_view(),
    {
        self.cache_dir.as_str()
    }

    pub fn share_dir(&self) -> (r: &str)
        ensures
            r@ == self.share_view(),
    {
        self.share_dir.as_str()
    }

    pub fn state_file(&self) -> (r: String)
        ensures
            r@ == join(self.config_view(), "state.toml"@),
    {
        path_join(self.config_dir.as_str(), "state.toml")
    }

    pub open spec fn shader_user_dirs_spec(&self) -> Seq<Seq<char>> {
        seq![
            join(self.config_view(), "shaders"@),
            join(self.data_view(), "shaders"@),
            join(self.share_view(), "shaders"@),
        ]
    }

    /// `config/shaders`, `data/shaders`, `share/shaders`, in that order.
    pub fn shader_user_dirs(&self) -> (r: Vec<String>)
        ensures
            strings_view(r@) == self.shader_user_dirs_spec(),
    {
        let mut dirs: Vec<String> = Vec::new();
        dirs.push(path_join(self.config_dir.as_str(), "shaders"));
        dirs.push(path_join(self.data_dir.as_str(), "shaders"));
        dirs.push(path_join(self.share_dir.as_str(), "shaders"));
        proof {
            assert(strings_view(dirs@) =~= self.shader_user_dirs_spec());
        }
        dirs
    }

    pub open spec fn shader_roots_spec(&self) -> Seq<Seq<char>> {
        with_dev(
            seq![join(self.config_view(), "shaders"@)] + self.shader_user_dirs_spec().skip(1).push(
                join(self.share_view(), "shaders"@),
            ),
            self.dev_view(),
            "shaders"@,
        )
    }

    /// `config/shaders`, the other user directories, the shared `shaders`
    /// directory again, then the development checkout's `shaders` when it is
    /// not already listed.
    pub fn shader_roots(&self) -> (r: Vec<String>)
        ensures
            strings_view(r@) == self.shader_roots_spec(),
    {
        let mut roots: Vec<String> = Vec::new();
        roots.push(path_join(self.config_dir.as_str(), "shaders"));
        let user = self.shader_user_dirs();
        let mut i: usize = 1;
        let ghost uv = strings_view(user@);
        proof {
            assert(strings_view(roots@) =~= seq![join(self.config_view(), "shaders"@)] + uv.subrange(1, 1));
            assert(uv.len() == 3);
            assert(user@.len() == uv.len());
        }
        while i < user.len()
            invariant
                1 <= i <= user@.len(),
                user@.len() == 3,
                uv == strings_view(user@),
                strings_view(roots@) == seq![join(self.config_view(), "shaders"@)] + uv.subrange(1, i as int),
            decreases user@.len() - i,
        {
            let ghost before = strings_view(roots@);
            roots.push(user[i].clone());
            proof {
                assert(uv[i as int] == user@[i as int]@);
                assert(strings_view(roots@) =~= before.push(uv[i as int]));
                assert(uv.subrange(1, i + 1) =~= uv.subrange(1, i as int).push(uv[i as int]));
                assert(strings_view(roots@) =~= seq![join(self.config_view(), "shaders"@)] + uv.subrange(1, i + 1));
            }
            i += 1;
        }
        let ghost before = strings_view(roots@);
        roots.push(path_join(self.share_dir.as_str(), "shaders"));
        proof {
            assert(uv.subrange(1, 3) =~= uv.skip(1));
            assert(strings_view(roots@) =~= before.push(join(self.share_view(), "shaders"@)));
            assert(before.push(join(self.share_view(), "shaders"@)) =~= seq![join(self.config_view(), "shaders"@)] + self.shader_user_dirs_spec().skip(1).push(
                join(self.share_view(), "shaders"@),
            ));
        }
        if let Some(dev_root) = &self.dev_root {
            push_unique_exec(&mut roots, path_join(dev_root.as_str(), "shaders"));
        }
        roots
    }

    pub fn shadertoy_cache_dir(&self) -> (r: String)
        ensures
            r@ == join(self.cache_view(), "shadertoy"@),
    {
        path_join(self.cache_dir.as_str(), "shadertoy")
    }

    pub open spec fn playlist_user_dirs_spec(&self) -> Seq<Seq<char>> {
        seq![join(self.config_view(), "playlists"@), join(self.data_view(), "playlists"@)]
    }

    pub fn playlist_user_dirs(&self) -> (r: Vec<String>)
        ensures
            strings_view(r@) == self.playlist_user_dirs_spec(),
    {
        let mut dirs: Vec<String> = Vec::new();
        dirs.push(path_join(self.config_dir.as_str(), "playlists"));
        dirs.push(path_join(self.data_dir.as_str(), "playlists"));
        proof {
            assert(strings_view(dirs@) =~= self.playlist_user_dirs_spec());
        }
        dirs
    }

    pub open spec fn playlist_roots_spec(&self) -> Seq<Seq<char>> {
        with_dev(
            self.playlist_user_dirs_spec().push(join(self.share_view(), "playlists"@)),
            self.dev_view(),
            "playlists"@,
        )
    }

    /// The user playlist directories, the shared one, then the development
    /// checkout's when it is not already listed.
    pub fn playlist_roots(&self) -> (r: Vec<String>)
        ensures
            strings_view(r@) == self.playlist_roots_spec(),
    {
        let mut roots = self.playlist_user_dirs();
        let ghost before = strings_view(roots@);
        roots.push(path_join(self.share_dir.as_str(), "playlists"));
        proof {
            assert(strings_view(roots@) =~= before.push(join(self.share_view(), "playlists"@)));
        }
        if let Some(dev_root) = &self.dev_root {
            push_unique_exec(&mut roots, path_join(dev_root.as_str(), "playlists"));
        }
        roots
    }
}

} // verus!
