//! Start-up preparation: the directories the daemon needs and the size
//! syntax of its command line.
use vstd::prelude::*;
use crate::fspath::{join, path_join};
use crate::setup::{parse_size_value, plan_dirs, probe_and_plan, steps_view, strings_of, surface_size_value, DirStep, DirProbe};
use crate::text::lit;
use crate::hyshadew::paths::AppPaths;
use crate::shadertoy::handle::{normalized_reference, HandleError};
use crate::shadertoy::ShaderHandle;
use crate::text::strip_prefix;
use crate::renderer::types::{ColorSpaceMode, RenderMode, SurfaceAlpha as RendererSurfaceAlpha};
use crate::shadertoy::manifest::{ColorSpace as ManifestColorSpace, ShaderPackManifest, SurfaceAlpha as ManifestSurfaceAlpha};
use crate::wallshader::bindings::{map_manifest_color, resolve_color_space};
use crate::hyshadew::bindings::map_manifest_alpha;

verus! {

/// The directories the daemon needs, in the order they are prepared: the
/// config, data and cache directories, the user shader and playlist folders under the config and data directories, and the Shadertoy cache.
pub open spec fn bootstrap_dirs(paths: &AppPaths) -> Seq<Seq<char>> {
    seq![
        paths.config_view(),
        paths.data_view(),
        paths.cache_view(),
        join(paths.config_view(), "local-shaders"@),
        join(paths.config_view(), "multi"@),
        join(paths.data_view(), "local-shaders"@),
        join(paths.data_view(), "multi"@),
        join(paths.cache_view(), "shadertoy"@),
    ]
}

pub fn bootstrap_directories(paths: &AppPaths) -> (r: Vec<String>)
    ensures
        strings_of(r@) == bootstrap_dirs(paths),
{
    let mut v: Vec<String> = Vec::new();
    v.push(lit(paths.config_dir()));
    v.push(lit(paths.data_dir()));
    v.push(lit(paths.cache_dir()));
    v.push(path_join(paths.config_dir(), "local-shaders"));
    v.push(path_join(paths.config_dir(), "multi"));
    v.push(path_join(paths.data_dir(), "local-shaders"));
    v.push(path_join(paths.data_dir(), "multi"));
    v.push(path_join(paths.cache_dir(), "shadertoy"));
    proof {
        assert(strings_of(v@) =~= bootstrap_dirs(paths));
    }
    v
}

/// The steps that prepare the daemon's directories, given what the disk
/// holds when asked: reuse what is there, create what is missing, stop at
/// the first entry that is not a directory.
pub fn bootstrap_filesystem(paths: &AppPaths) -> (r: Vec<DirStep>)
    ensures
        exists|probes: Seq<DirProbe>| #[trigger] plan_dirs(bootstrap_dirs(paths), probes) == steps_view(r@),
{
    let dirs = bootstrap_directories(paths);
    probe_and_plan(dirs.as_slice())
}

/// The size a `--size WIDTHxHEIGHT` value names.
pub fn parse_surface_size(spec: &str) -> (r: Result<(u32, u32), String>)
    ensures
        match r {
            Ok(v) => surface_size_value(spec@) == Ok::<(u32, u32), Seq<char>>(v),
            Err(e) => surface_size_value(spec@) == Err::<(u32, u32), Seq<char>>(e@),
        },
{
    parse_size_value(spec)
}

/// The Shadertoy reference in its `shadertoy://<id>` form (see the
/// shadertoy module's function of the same name).
pub fn normalize_shadertoy_reference(input: &str) -> (r: Result<String, HandleError>)
    ensures
        match normalized_reference(input@) {
            Ok(v) => r matches Ok(s) && s@ == v,
            Err(e) => r == Err::<String, HandleError>(e),
        },
{
    crate::shadertoy::handle::normalize_shadertoy_reference(input)
}

/// `h` is the handle `input` names (see `ShaderHandle::from_input`).
pub open spec fn handle_is(h: ShaderHandle, input: Seq<char>) -> bool {
    match strip_prefix(input, "shadertoy://"@) {
        Some(id) => h matches ShaderHandle::ShadertoyId(s) && s@ == id,
        None => h matches ShaderHandle::LocalPack(p) && p@ == input,
    }
}

/// The shader to start with: a `--shadertoy` reference (normalised) wins,
/// then the positional handle, then the bundled `local-demo` pack.
pub fn resolve_shader_handle(shadertoy: Option<&str>, shader: Option<&str>) -> (r: Result<ShaderHandle, HandleError>)
    ensures
        match shadertoy {
            Some(s) => match normalized_reference(s@) {
                Ok(n) => r matches Ok(h) && handle_is(h, n),
                Err(e) => r == Err::<ShaderHandle, HandleError>(e),
            },
            None => r matches Ok(h) && handle_is(
                h,
                match shader {
                    Some(raw) => raw@,
                    None => "local-demo"@,
                },
            ),
        },
{
    match shadertoy {
        Some(s) => {
            let normalized = normalize_shadertoy_reference(s)?;
            Ok(ShaderHandle::from_input(normalized.as_str()))
        },
        None => match shader {
            Some(raw) => Ok(ShaderHandle::from_input(raw)),
            None => Ok(ShaderHandle::from_input("local-demo")),
        },
    }
}

/// What a single-shader run is started with, apart from its shader.
#[derive(Debug, Clone, Copy, PartialEq, Eq)]
pub struct SingleRunPlan {
    /// The surface size used until the compositor gives one.
    pub surface_size: (u32, u32),
    pub requested_size: Option<(u32, u32)>,
    pub mode: RenderMode,
    pub surface_alpha: RendererSurfaceAlpha,
    pub color_space: ColorSpaceMode,
}

/// The plan of a single-shader run: the requested size (a malformed one is
/// refused with its message), falling back to 1920x1080; a window or the
/// wallpaper; the pack's alpha preference; and the colour space, the
/// command line's unless it says `Auto` (see `resolve_color_space`).
pub fn plan_single_run(size: Option<&str>, window: bool, cli_color: ColorSpaceMode, manifest: &ShaderPackManifest) -> (r:
    Result<SingleRunPlan, String>)
    ensures
        match size {
            None => r matches Ok(p) && p.requested_size is None && p.surface_size == (1920u32, 1080u32),
            Some(v) => match surface_size_value(v@) {
                Ok(sz) => r matches Ok(p) && p.requested_size == Some(sz) && p.surface_size == sz,
                Err(e) => r matches Err(m) && m@ == e,
            },
        },
        r matches Ok(p) ==> {
            &&& p.mode == (if window { RenderMode::Windowed } else { RenderMode::Wallpaper })
            &&& (manifest.surface_alpha == ManifestSurfaceAlpha::Opaque ==> p.surface_alpha == RendererSurfaceAlpha::Opaque)
            &&& (manifest.surface_alpha == ManifestSurfaceAlpha::Transparent ==> p.surface_alpha
                == RendererSurfaceAlpha::Transparent)
            &&& (cli_color != ColorSpaceMode::Auto ==> p.color_space == cli_color)
            &&& (cli_color == ColorSpaceMode::Auto ==> p.color_space == match manifest.color_space {
                ManifestColorSpace::Auto => ColorSpaceMode::Gamma,
                ManifestColorSpace::Gamma => ColorSpaceMode::Gamma,
                ManifestColorSpace::Linear => ColorSpaceMode::Linear,
            })
        },
{
    let requested_size = match size {
        Some(v) => match parse_surface_size(v) {
            Ok(sz) => Some(sz),
            Err(e) => {
                return Err(e);
            },
        },
        None => None,
    };
    let surface_size = match requested_size {
        Some(sz) => sz,
        None => (1920, 1080),
    };
    let surface_alpha = map_manifest_alpha(manifest.surface_alpha);
    let manifest_color = map_manifest_color(manifest.color_space);
    let color_space = resolve_color_space(cli_color, manifest_color);
    let mode = if window {
        RenderMode::Windowed
    } else {
        RenderMode::Wallpaper
    };
    Ok(SingleRunPlan { surface_size, requested_size, mode, surface_alpha, color_space })
}

} // verus!
