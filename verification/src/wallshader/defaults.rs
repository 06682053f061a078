//! The overview of the directories WallShader uses.
use vstd::prelude::*;
use crate::wallshader::paths::AppPaths;
use crate::text::lit;

verus! {

/// The directories in use.
#[derive(Debug, Clone)]
pub struct PathOverview {
    pub config_dir: String,
    pub data_dir: String,
    pub cache_dir: String,
    pub share_dir: String,
    pub shader_roots: Vec<String>,
    pub shadertoy_cache: String,
    pub state_file: String,
}

pub fn describe_paths(paths: &AppPaths) -> (r: PathOverview)
    ensures
        r.config_dir@ == paths.config_view(),
        r.data_dir@ == paths.data_view(),
        r.cache_dir@ == paths.cache_view(),
        r.share_dir@ == paths.share_view(),
        r.shader_roots@.map_values(|s: String| s@) == paths.shader_roots_spec(),
        r.shadertoy_cache@ == crate::fspath::join(paths.cache_view(), "shadertoy"@),
        r.state_file@ == crate::fspath::join(paths.config_view(), "state.toml"@),
{
    PathOverview {
        config_dir: lit(paths.config_dir()),
        data_dir: lit(paths.data_dir()),
        cache_dir: lit(paths.cache_dir()),
        share_dir: lit(paths.share_dir()),
        shader_roots: paths.shader_roots(),
        shadertoy_cache: paths.shadertoy_cache_dir(),
        state_file: paths.state_file(),
    }
}

} // verus!
