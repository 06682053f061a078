//! The choices made when a rendering surface is configured, from what the
//! adapter and the surface report: its size, colour encoding, format,
//! presentation mode and frame latency.
use vstd::prelude::*;
use crate::renderer::types::ColorSpaceMode;
use crate::text::{decimal, decimal_chars, join_msg, string_of, wrap_msg};

verus! {

/// How the surface encodes colour: gamma-encoded values on a non-sRGB
/// format, or linear values on an sRGB format.
#[derive(Debug, Clone, Copy, PartialEq, Eq, Structural)]
pub enum SurfaceColorSpace {
    Gamma,
    Linear,
}

/// The surface encoding a colour-space policy asks for: gamma unless linear
/// is asked for.
pub open spec fn surface_color_spec(mode: ColorSpaceMode) -> SurfaceColorSpace {
    match mode {
        ColorSpaceMode::Linear => SurfaceColorSpace::Linear,
        _ => SurfaceColorSpace::Gamma,
    }
}

/// See `surface_color_spec`.
pub fn resolve_surface_color(mode: ColorSpaceMode) -> (r: SurfaceColorSpace)
    ensures
        r == surface_color_spec(mode),
{
    match mode {
        ColorSpaceMode::Auto | ColorSpaceMode::Gamma => SurfaceColorSpace::Gamma,
        ColorSpaceMode::Linear => SurfaceColorSpace::Linear,
    }
}

/// The surface format to use, by index into the formats the surface
/// supports (`srgb[i]` tells whether format `i` is sRGB): the first sRGB
/// one for linear output, the first non-sRGB one for gamma output, and the
/// first format when none fits.
pub open spec fn format_index_spec(srgb: Seq<bool>, color: SurfaceColorSpace) -> int {
    let want = color == SurfaceColorSpace::Linear;
    if exists|i: int| 0 <= i < srgb.len() && srgb[i] == want {
        choose|i: int| 0 <= i < srgb.len() && srgb[i] == want && forall|j: int| 0 <= j < i ==> srgb[j] != want
    } else {
        0
    }
}

/// See `format_index_spec`.
pub fn choose_surface_format(srgb: &[bool], color: SurfaceColorSpace) -> (r: usize)
    requires
        srgb@.len() > 0,
    ensures
        r < srgb@.len(),
        r == format_index_spec(srgb@, color),
{
    let want = color == SurfaceColorSpace::Linear;
    let mut i: usize = 0;
    while i < srgb.len()
        invariant
            i <= srgb@.len(),
            want == (color == SurfaceColorSpace::Linear),
            forall|j: int| 0 <= j < i ==> srgb@[j] != want,
        decreases srgb@.len() - i,
    {
        if srgb[i] == want {
            proof {
                let k = choose|k: int| 0 <= k < srgb@.len() && srgb@[k] == want && forall|j: int| 0 <= j < k ==> srgb@[j] != want;
                assert(!(k < i));
                assert(!(i < k));
            }
            return i;
        }
        i += 1;
    }
    0
}

/// The presentation modes a surface may offer.
#[derive(Debug, Clone, Copy, PartialEq, Eq, Structural)]
pub enum PresentModeKind {
    AutoVsync,
    AutoNoVsync,
    Fifo,
    FifoRelaxed,
    Immediate,
    Mailbox,
}

/// The presentation mode to use: FIFO (tear-free, and the most stable on
/// Wayland stacks) when the surface offers it, else the first one offered.
pub open spec fn present_mode_spec(modes: Seq<PresentModeKind>) -> PresentModeKind {
    if modes.contains(PresentModeKind::Fifo) {
        PresentModeKind::Fifo
    } else {
        modes[0]
    }
}

/// See `present_mode_spec`.
pub fn choose_present_mode(modes: &[PresentModeKind]) -> (r: PresentModeKind)
    requires
        modes@.len() > 0,
    ensures
        r == present_mode_spec(modes@),
        modes@.contains(r),
{
    let mut i: usize = 0;
    while i < modes.len()
        invariant
            i <= modes@.len(),
            forall|j: int| 0 <= j < i ==> modes@[j] != PresentModeKind::Fifo,
        decreases modes@.len() - i,
    {
        if modes[i] == PresentModeKind::Fifo {
            proof {
                assert(modes@[i as int] == PresentModeKind::Fifo);
            }
            return PresentModeKind::Fifo;
        }
        i += 1;
    }
    proof {
        assert(modes@[0] == modes@[0]);
    }
    modes[0]
}

/// The frame latency asked of the swapchain: the requested one, kept
/// between 1 and 3.
pub open spec fn frame_latency_spec(requested: u32) -> u32 {
    if requested < 1 {
        1
    } else if requested > 3 {
        3
    } else {
        requested
    }
}

/// See `frame_latency_spec`.
pub fn frame_latency(requested: u32) -> (r: u32)
    ensures
        r == frame_latency_spec(requested),
        1 <= r <= 3,
{
    if requested < 1 {
        1
    } else if requested > 3 {
        3
    } else {
        requested
    }
}

/// The message when a surface is larger than the GPU's textures can be.
pub open spec fn oversize_message(max_dimension: u32, width: u32, height: u32) -> Seq<char> {
    "GPU max texture dimension is "@ + decimal(max_dimension as nat) + ", requested surface is "@ + decimal(
        width as nat,
    ) + "x"@ + decimal(height as nat)
}

/// The size a surface is created with: each side at least 1, and refused
/// when a side exceeds the GPU's largest texture dimension.
pub open spec fn surface_size_spec(width: u32, height: u32, max_dimension: u32) -> Result<(u32, u32), Seq<char>> {
    let w = if width < 1 { 1u32 } else { width };
    let h = if height < 1 { 1u32 } else { height };
    if w > max_dimension || h > max_dimension {
        Err(oversize_message(max_dimension, w, h))
    } else {
        Ok((w, h))
    }
}

/// See `surface_size_spec`.
pub fn initial_surface_size(width: u32, height: u32, max_dimension: u32) -> (r: Result<(u32, u32), String>)
    ensures
        match surface_size_spec(width, height, max_dimension) {
            Ok(v) => r == Ok::<(u32, u32), String>(v),
            Err(m) => r matches Err(e) && e@ == m,
        },
{
    let w = if width < 1 {
        1
    } else {
        width
    };
    let h = if height < 1 {
        1
    } else {
        height
    };
    if w > max_dimension || h > max_dimension {
        let d = string_of(decimal_chars(max_dimension as u64).as_slice());
        let ws = string_of(decimal_chars(w as u64).as_slice());
        let hs = string_of(decimal_chars(h as u64).as_slice());
        let head = wrap_msg("GPU max texture dimension is ", d.as_str(), ", requested surface is ");
        let with_width = wrap_msg(head.as_str(), ws.as_str(), "x");
        Err(join_msg(with_width.as_str(), hs.as_str()))
    } else {
        Ok((w, h))
    }
}

/// Whether a resize to `width` x `height` is carried out: not when a side
/// is zero (a minimised surface), nor when a side exceeds the GPU's largest
/// texture dimension; the previous size is kept then.
pub open spec fn resize_accepted_spec(width: u32, height: u32, max_dimension: u32) -> bool {
    width != 0 && height != 0 && width <= max_dimension && height <= max_dimension
}

/// See `resize_accepted_spec`.
pub fn resize_accepted(width: u32, height: u32, max_dimension: u32) -> (r: bool)
    ensures
        r == resize_accepted_spec(width, height, max_dimension),
{
    if width == 0 || height == 0 {
        return false;
    }
    width <= max_dimension && height <= max_dimension
}

/// The presentation mode when vsync is switched on or off at run time: with
/// vsync, FIFO if offered; without, immediate if offered, else mailbox if
/// offered; otherwise the mode in use stays.
pub open spec fn vsync_mode_spec(modes: Seq<PresentModeKind>, enabled: bool, current: PresentModeKind) -> PresentModeKind {
    if enabled {
        if modes.contains(PresentModeKind::Fifo) {
            PresentModeKind::Fifo
        } else {
            current
        }
    } else if modes.contains(PresentModeKind::Immediate) {
        PresentModeKind::Immediate
    } else if modes.contains(PresentModeKind::Mailbox) {
        PresentModeKind::Mailbox
    } else {
        current
    }
}

fn offers(modes: &[PresentModeKind], mode: PresentModeKind) -> (r: bool)
    ensures
        r == modes@.contains(mode),
{
    let mut i: usize = 0;
    while i < modes.len()
        invariant
            i <= modes@.len(),
            forall|j: int| 0 <= j < i ==> modes@[j] != mode,
        decreases modes@.len() - i,
    {
        if modes[i] == mode {
            proof {
                assert(modes@[i as int] == mode);
            }
            return true;
        }
        i += 1;
    }
    false
}

/// See `vsync_mode_spec`.
pub fn vsync_present_mode(modes: &[PresentModeKind], enabled: bool, current: PresentModeKind) -> (r: PresentModeKind)
    ensures
        r == vsync_mode_spec(modes@, enabled, current),
{
    if enabled {
        if offers(modes, PresentModeKind::Fifo) {
            PresentModeKind::Fifo
        } else {
            current
        }
    } else if offers(modes, PresentModeKind::Immediate) {
        PresentModeKind::Immediate
    } else if offers(modes, PresentModeKind::Mailbox) {
        PresentModeKind::Mailbox
    } else {
        current
    }
}

} // verus!
