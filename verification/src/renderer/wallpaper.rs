//! Identifiers and descriptions of wallpaper surfaces and outputs.
use vstd::prelude::*;
use crate::renderer::types::{Antialiasing, ChannelTextureKind, ColorSpaceMode};

verus! {

/// A wallpaper surface, by the number the runtime gave it.
#[derive(Debug, Clone, Copy, PartialEq, Eq, Hash)]
pub struct SurfaceId(pub u64);

impl SurfaceId {
    pub fn raw(self) -> (r: u64)
        ensures
            r == self.0,
    {
        self.0
    }
}

impl From<u64> for SurfaceId {
    fn from(value: u64) -> (r: Self) {
        SurfaceId(value)
    }
}

impl vstd::std_specs::convert::FromSpecImpl<u64> for SurfaceId {
    open spec fn obeys_from_spec() -> bool {
        true
    }

    open spec fn from_spec(value: u64) -> Self {
        SurfaceId(value)
    }
}

impl From<SurfaceId> for u64 {
    fn from(value: SurfaceId) -> (r: Self) {
        value.0
    }
}

impl vstd::std_specs::convert::FromSpecImpl<SurfaceId> for u64 {
    open spec fn obeys_from_spec() -> bool {
        true
    }

    open spec fn from_spec(value: SurfaceId) -> Self {
        value.0
    }
}

/// A display output, by the number the compositor gave it.
#[derive(Debug, Clone, Copy, PartialEq, Eq, Hash)]
pub struct OutputId(pub u64);

impl OutputId {
    pub fn raw(self) -> (r: u64)
        ensures
            r == self.0,
    {
        self.0
    }
}

impl From<u64> for OutputId {
    fn from(value: u64) -> (r: Self) {
        OutputId(value)
    }
}

impl vstd::std_specs::convert::FromSpecImpl<u64> for OutputId {
    open spec fn obeys_from_spec() -> bool {
        true
    }

    open spec fn from_spec(value: u64) -> Self {
        OutputId(value)
    }
}

impl From<OutputId> for u64 {
    fn from(value: OutputId) -> (r: Self) {
        value.0
    }
}

impl vstd::std_specs::convert::FromSpecImpl<OutputId> for u64 {
    open spec fn obeys_from_spec() -> bool {
        true
    }

    open spec fn from_spec(value: OutputId) -> Self {
        value.0
    }
}

/// Which surfaces a command applies to.
#[derive(Debug, Clone, Copy, PartialEq, Eq)]
pub enum SurfaceSelector {
    All,
    Surface(SurfaceId),
    Output(OutputId),
}

/// What is known of one wallpaper surface.
#[derive(Debug, Clone)]
pub struct SurfaceInfo {
    pub surface_id: SurfaceId,
    pub output_id: Option<OutputId>,
    pub output_name: Option<String>,
    pub size: Option<(u32, u32)>,
}

/// The surfaces, among `surfaces`, that `selector` picks, in order.
pub open spec fn selected(selector: SurfaceSelector, surfaces: Seq<(SurfaceId, Option<OutputId>)>) -> Seq<
    SurfaceId,
>
    decreases surfaces.len(),
{
    if surfaces.len() == 0 {
        seq![]
    } else {
        let (sid, out) = surfaces.last();
        let picked = match selector {
            SurfaceSelector::All => true,
            SurfaceSelector::Surface(id) => sid == id,
            SurfaceSelector::Output(o) => out == Some(o),
        };
        selected(selector, surfaces.drop_last()) + if picked {
            seq![sid]
        } else {
            seq![]
        }
    }
}

/// The surfaces a command addressed to `selector` reaches: all of them, the
/// one with that id, or those on that output.
pub fn target_surface_ids(selector: SurfaceSelector, surfaces: &[(SurfaceId, Option<OutputId>)]) -> (r: Vec<SurfaceId>)
    ensures
        r@ == selected(selector, surfaces@),
{
    let mut out: Vec<SurfaceId> = Vec::new();
    let mut i: usize = 0;
    while i < surfaces.len()
        invariant
            i <= surfaces@.len(),
            out@ == selected(selector, surfaces@.take(i as int)),
        decreases surfaces@.len() - i,
    {
        let (sid, output) = surfaces[i];
        let picked = match selector {
            SurfaceSelector::All => true,
            SurfaceSelector::Surface(id) => sid.0 == id.0,
            SurfaceSelector::Output(o) => match output {
                Some(x) => x.0 == o.0,
                None => false,
            },
        };
        if picked {
            out.push(sid);
        }
        proof {
            assert(surfaces@.take(i + 1).drop_last() =~= surfaces@.take(i as int));
            assert(out@ =~= selected(selector, surfaces@.take(i + 1)));
        }
        i += 1;
    }
    proof {
        assert(surfaces@.take(surfaces@.len() as int) =~= surfaces@);
    }
    out
}

/// The size a wallpaper surface is configured with: the output's (or the
/// fallback when the output has none), shrunk to a requested size, whose
/// dimensions count as at least 1.
pub open spec fn configure_size_spec(
    output_size: Option<(u32, u32)>,
    fallback: (u32, u32),
    requested: Option<(u32, u32)>,
) -> (u32, u32) {
    let size = match output_size {
        Some(s) => s,
        None => fallback,
    };
    match requested {
        Some((w, h)) => {
            let rw = if w >= 1 { w } else { 1u32 };
            let rh = if h >= 1 { h } else { 1u32 };
            (if rw < size.0 { rw } else { size.0 }, if rh < size.1 { rh } else { size.1 })
        },
        None => size,
    }
}

/// See `configure_size_spec`.
pub fn resolve_configure_size(
    output_size: Option<(u32, u32)>,
    fallback: (u32, u32),
    requested: Option<(u32, u32)>,
) -> (r: (u32, u32))
    ensures
        r == configure_size_spec(output_size, fallback, requested),
{
    let mut size = match output_size {
        Some(s) => s,
        None => fallback,
    };
    if let Some((req_w, req_h)) = requested {
        let req_w = if req_w >= 1 { req_w } else { 1 };
        let req_h = if req_h >= 1 { req_h } else { 1 };
        if req_w < size.0 {
            size.0 = req_w;
        }
        if req_h < size.1 {
            size.1 = req_h;
        }
    }
    size
}

/// A physical size from what the compositor says of an output: the current
/// mode's dimensions, else the logical size times the scale factor (each
/// counted as at least 1); `None` when it says neither.
pub open spec fn physical_size_spec(
    current_mode: Option<(i32, i32)>,
    logical_size: Option<(i32, i32)>,
    scale_factor: i32,
) -> Option<(u32, u32)> {
    match current_mode {
        Some((w, h)) => Some(((if w >= 1 { w } else { 1 }) as u32, (if h >= 1 { h } else { 1 }) as u32)),
        None => match logical_size {
            Some((w, h)) => {
                let s = if scale_factor >= 1 { scale_factor } else { 1 };
                let lw = if w >= 1 { w } else { 1 };
                let lh = if h >= 1 { h } else { 1 };
                Some(((lw * s) as u32, (lh * s) as u32))
            },
            None => None,
        },
    }
}

/// See `physical_size_spec`; the scaled size must fit in 32 bits.
pub fn output_physical_size(
    current_mode: Option<(i32, i32)>,
    logical_size: Option<(i32, i32)>,
    scale_factor: i32,
) -> (r: Option<(u32, u32)>)
    requires
        current_mode is None ==> match logical_size {
            Some((w, h)) => {
                let s = if scale_factor >= 1 { scale_factor } else { 1 };
                &&& (if w >= 1 { w } else { 1 }) * s <= u32::MAX
                &&& (if h >= 1 { h } else { 1 }) * s <= u32::MAX
            },
            None => true,
        },
    ensures
        r == physical_size_spec(current_mode, logical_size, scale_factor),
{
    if let Some((w, h)) = current_mode {
        let w = if w >= 1 { w } else { 1 };
        let h = if h >= 1 { h } else { 1 };
        return Some((w as u32, h as u32));
    }
    match logical_size {
        Some((w, h)) => {
            let s: u32 = if scale_factor >= 1 { scale_factor as u32 } else { 1 };
            let lw: u32 = if w >= 1 { w as u32 } else { 1 };
            let lh: u32 = if h >= 1 { h as u32 } else { 1 };
            proof {
                assert(lw * s <= u32::MAX);
                assert(lh * s <= u32::MAX);
            }
            Some((lw * s, lh * s))
        },
        None => None,
    }
}

/// A swap needs a fresh GPU state when the anti-aliasing or the colour
/// space changes, or when the surface has GPU state whose channel layout
/// differs from the new shader's.
pub open spec fn rebuild_needed(
    old_antialias: Antialiasing,
    new_antialias: Antialiasing,
    old_color: ColorSpaceMode,
    new_color: ColorSpaceMode,
    current_layout: Option<[ChannelTextureKind; 4]>,
    new_layout: [ChannelTextureKind; 4],
) -> bool {
    old_antialias != new_antialias || old_color != new_color || match current_layout {
        Some(l) => l@ != new_layout@,
        None => false,
    }
}

/// See `rebuild_needed`.
pub fn needs_gpu_rebuild(
    old_antialias: Antialiasing,
    new_antialias: Antialiasing,
    old_color: ColorSpaceMode,
    new_color: ColorSpaceMode,
    current_layout: Option<[ChannelTextureKind; 4]>,
    new_layout: [ChannelTextureKind; 4],
) -> (r: bool)
    ensures
        r == rebuild_needed(old_antialias, new_antialias, old_color, new_color, current_layout, new_layout),
{
    let layout_changed = match current_layout {
        Some(l) => {
            let same = l[0] == new_layout[0] && l[1] == new_layout[1] && l[2] == new_layout[2] && l[3]
                == new_layout[3];
            proof {
                if same {
                    assert(l@ =~= new_layout@);
                }
            }
            !same
        },
        None => false,
    };
    old_antialias != new_antialias || old_color != new_color || layout_changed
}

/// The crossfade a swap runs with: none when the GPU state is rebuilt.
pub fn swap_crossfade(crossfade: u128, rebuild: bool) -> (r: u128)
    ensures
        r == (if rebuild { 0 } else { crossfade }),
{
    if rebuild && crossfade > 0 {
        0
    } else {
        crossfade
    }
}

} // verus!
