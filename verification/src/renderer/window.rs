//! Decisions of the preview window: when its GPU state is rebuilt, when a
//! software rasterizer gets the frame-rate cap, and the size it draws at.
use vstd::prelude::*;
use crate::renderer::types::{Antialiasing, ChannelTextureKind, ColorSpaceMode, SurfaceAlpha};
use crate::renderer::wallpaper::{needs_gpu_rebuild, rebuild_needed};
use crate::renderer::cadence::PolicyKind;

verus! {

/// The preview window builds its GPU state anew (without a crossfade) when
/// the anti-aliasing, the channel layout, the alpha handling or the colour
/// space changes.
pub open spec fn window_rebuild_spec(
    old_antialias: Antialiasing,
    new_antialias: Antialiasing,
    old_alpha: SurfaceAlpha,
    new_alpha: SurfaceAlpha,
    old_color: ColorSpaceMode,
    new_color: ColorSpaceMode,
    current_layout: [ChannelTextureKind; 4],
    new_layout: [ChannelTextureKind; 4],
) -> bool {
    old_alpha != new_alpha || rebuild_needed(
        old_antialias,
        new_antialias,
        old_color,
        new_color,
        Some(current_layout),
        new_layout,
    )
}

/// See `window_rebuild_spec`.
pub fn window_needs_rebuild(
    old_antialias: Antialiasing,
    new_antialias: Antialiasing,
    old_alpha: SurfaceAlpha,
    new_alpha: SurfaceAlpha,
    old_color: ColorSpaceMode,
    new_color: ColorSpaceMode,
    current_layout: [ChannelTextureKind; 4],
    new_layout: [ChannelTextureKind; 4],
) -> (r: bool)
    ensures
        r == window_rebuild_spec(
            old_antialias,
            new_antialias,
            old_alpha,
            new_alpha,
            old_color,
            new_color,
            current_layout,
            new_layout,
        ),
{
    old_alpha != new_alpha || needs_gpu_rebuild(
        old_antialias,
        new_antialias,
        old_color,
        new_color,
        Some(current_layout),
        new_layout,
    )
}

/// A software rasterizer gets the preview's frame-rate cap unless the user
/// chose a rate: a `--fps` value, a still or export policy, or an animation
/// policy with its own rate all count as a choice.
pub open spec fn software_cap_spec(is_software: bool, fps_given: bool, kind: PolicyKind, policy_has_fps: bool) -> bool {
    is_software && !(fps_given || kind != PolicyKind::Animate || policy_has_fps)
}

/// See `software_cap_spec`.
pub fn software_cap_applies(is_software: bool, fps_given: bool, kind: PolicyKind, policy_has_fps: bool) -> (r: bool)
    ensures
        r == software_cap_spec(is_software, fps_given, kind, policy_has_fps),
{
    if !is_software {
        return false;
    }
    let user_override = fps_given || kind != PolicyKind::Animate || policy_has_fps;
    !user_override
}

/// The size the preview draws at after the window is resized: a hidden
/// window that exports keeps the configured size; otherwise the new one.
pub open spec fn resize_target_spec(show_window: bool, kind: PolicyKind, configured: (u32, u32), new_size: (u32, u32)) -> (
    u32,
    u32,
) {
    if !show_window && kind == PolicyKind::Export {
        configured
    } else {
        new_size
    }
}

/// See `resize_target_spec`.
pub fn window_resize_target(show_window: bool, kind: PolicyKind, configured: (u32, u32), new_size: (u32, u32)) -> (r: (
    u32,
    u32,
))
    ensures
        r == resize_target_spec(show_window, kind, configured, new_size),
{
    if !show_window && kind == PolicyKind::Export {
        configured
    } else {
        new_size
    }
}

} // verus!
