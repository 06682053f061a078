//! Renderer data model: channel bindings and rendering policies.
use vstd::prelude::*;
use crate::text::{decimal, decimal_chars, lit, string_of};

verus! {

/// Shadertoy exposes four optional input channels (`iChannel0-3`).
pub const CHANNEL_COUNT: usize = 4;

/// Expected face stems for cubemap resources stored on disk.
pub const CUBEMAP_FACE_STEMS: [&'static str; 6] = ["posx", "negx", "posy", "negy", "posz", "negz"];

/// How a Shadertoy channel is populated. `S` is `String` at run time and
/// `Seq<char>` in specs.
#[derive(Clone, Debug)]
pub enum ChannelSourceOf<S> {
    Texture { path: S },
    Cubemap { directory: S },
    Keyboard,
}

pub type ChannelSource = ChannelSourceOf<String>;

impl View for ChannelSourceOf<String> {
    type V = ChannelSourceOf<Seq<char>>;

    open spec fn view(&self) -> ChannelSourceOf<Seq<char>> {
        match self {
            ChannelSourceOf::Texture { path } => ChannelSourceOf::Texture { path: path@ },
            ChannelSourceOf::Cubemap { directory } => ChannelSourceOf::Cubemap { directory: directory@ },
            ChannelSourceOf::Keyboard => ChannelSourceOf::Keyboard,
        }
    }
}

/// A slot's source with its strings as character sequences.
pub open spec fn slot_view(slot: Option<ChannelSource>) -> Option<ChannelSourceOf<Seq<char>>> {
    match slot {
        Some(s) => Some(s@),
        None => None,
    }
}

/// The message a refused channel index is reported with.
pub open spec fn channel_index_message(channel: usize) -> Seq<char> {
    "channel "@ + decimal(channel as nat) + " exceeds supported ShaderToy channel count (4)"@
}

impl ChannelIndexError {
    /// The error's message.
    pub fn to_string(&self) -> (r: String)
        ensures
            r@ == channel_index_message(self.channel),
    {
        let mut r = lit("channel ");
        let d = decimal_chars(self.channel as u64);
        let ds = string_of(d.as_slice());
        r.push_str(ds.as_str());
        r.push_str(" exceeds supported ShaderToy channel count (4)");
        r
    }
}

/// The texture dimensionality a channel needs.
#[derive(Clone, Copy, Debug, PartialEq, Eq, Structural)]
pub enum ChannelTextureKind {
    Texture2d,
    Cubemap,
}

/// The Shadertoy channel bindings prepared for the renderer.
#[derive(Clone, Debug)]
pub struct ChannelBindings {
    sources: [Option<ChannelSource>; CHANNEL_COUNT],
}

/// Why a channel could not be assigned: its index is past the last channel.
#[derive(Clone, Copy, Debug, PartialEq, Eq)]
pub struct ChannelIndexError {
    pub channel: usize,
}

/// The texture kind a channel source needs.
pub open spec fn kind_spec(source: Option<ChannelSource>) -> ChannelTextureKind {
    if source matches Some(ChannelSourceOf::Cubemap { .. }) {
        ChannelTextureKind::Cubemap
    } else {
        ChannelTextureKind::Texture2d
    }
}

/// What assigning `source` to `channel` does to a slot table.
pub open spec fn assigned(
    before: Seq<Option<ChannelSource>>,
    after: Seq<Option<ChannelSource>>,
    channel: usize,
    source: ChannelSource,
    r: Result<(), ChannelIndexError>,
) -> bool {
    if channel < CHANNEL_COUNT {
        r is Ok && after == before.update(channel as int, Some(source))
    } else {
        r == Err::<(), ChannelIndexError>(ChannelIndexError { channel }) && after == before
    }
}

impl ChannelBindings {
    /// The source of each channel.
    pub closed spec fn slots_view(self) -> Seq<Option<ChannelSource>> {
        self.sources@
    }

    /// There is one slot per channel.
    pub proof fn lemma_slots_len(&self)
        ensures
            self.slots_view().len() == CHANNEL_COUNT,
    {
    }

    /// The source of each channel, strings as character sequences.
    pub open spec fn slot_views(self) -> Seq<Option<ChannelSourceOf<Seq<char>>>> {
        self.slots_view().map_values(|o: Option<ChannelSource>| slot_view(o))
    }

    /// A table with every channel unassigned.
    pub fn new() -> (r: Self)
        ensures
            r.slots_view() == seq![
                None::<ChannelSource>,
                None::<ChannelSource>,
                None::<ChannelSource>,
                None::<ChannelSource>,
            ],
    {
        let r = ChannelBindings { sources: [None, None, None, None] };
        proof {
            assert(r.sources@ =~= seq![
                None::<ChannelSource>,
                None::<ChannelSource>,
                None::<ChannelSource>,
                None::<ChannelSource>,
            ]);
        }
        r
    }

    fn set_slot(&mut self, channel: usize, source: ChannelSource) -> (r: Result<(), ChannelIndexError>)
        ensures
            assigned(old(self).slots_view(), final(self).slots_view(), channel, source, r),
    {
        if channel >= CHANNEL_COUNT {
            return Err(ChannelIndexError { channel });
        }
        self.sources[channel] = Some(source);
        Ok(())
    }

    /// Binds a texture file to `channel`; channels past the last are refused
    /// and leave the table unchanged.
    pub fn set_texture(&mut self, channel: usize, path: String) -> (r: Result<(), ChannelIndexError>)
        ensures
            assigned(
                old(self).slots_view(),
                final(self).slots_view(),
                channel,
                ChannelSource::Texture { path },
                r,
            ),
    {
        self.set_slot(channel, ChannelSource::Texture { path })
    }

    /// Binds a cubemap directory to `channel`; channels past the last are
    /// refused and leave the table unchanged.
    pub fn set_cubemap(&mut self, channel: usize, directory: String) -> (r: Result<(), ChannelIndexError>)
        ensures
            assigned(
                old(self).slots_view(),
                final(self).slots_view(),
                channel,
                ChannelSource::Cubemap { directory },
                r,
            ),
    {
        self.set_slot(channel, ChannelSource::Cubemap { directory })
    }

    /// Marks `channel` as the virtual keyboard texture; channels past the
    /// last are refused and leave the table unchanged.
    pub fn set_keyboard(&mut self, channel: usize) -> (r: Result<(), ChannelIndexError>)
        ensures
            assigned(old(self).slots_view(), final(self).slots_view(), channel, ChannelSource::Keyboard, r),
    {
        self.set_slot(channel, ChannelSource::Keyboard)
    }

    /// The channel slots.
    pub fn slots(&self) -> (r: &[Option<ChannelSource>; CHANNEL_COUNT])
        ensures
            r@ == self.slots_view(),
    {
        &self.sources
    }

    /// The texture kind each channel needs: cubemap for cubemap sources, 2D
    /// otherwise.
    pub fn layout_signature(&self) -> (r: [ChannelTextureKind; CHANNEL_COUNT])
        ensures
            forall|i: int| 0 <= i < CHANNEL_COUNT ==> r@[i] == kind_spec(#[trigger] self.slots_view()[i]),
    {
        let mut kinds = [ChannelTextureKind::Texture2d; CHANNEL_COUNT];
        let mut index: usize = 0;
        while index < CHANNEL_COUNT
            invariant
                index <= CHANNEL_COUNT,
                forall|i: int| 0 <= i < index ==> kinds@[i] == kind_spec(#[trigger] self.sources@[i]),
            decreases CHANNEL_COUNT - index,
        {
            kinds[index] = kind_of(&self.sources[index]);
            index = index + 1;
        }
        kinds
    }
}

impl Default for ChannelBindings {
    fn default() -> (r: Self)
        ensures
            r.slots_view() == seq![
                None::<ChannelSource>,
                None::<ChannelSource>,
                None::<ChannelSource>,
                None::<ChannelSource>,
            ],
    {
        ChannelBindings::new()
    }
}

fn kind_of(source: &Option<ChannelSource>) -> (k: ChannelTextureKind)
    ensures
        k == kind_spec(*source),
{
    match source {
        Some(ChannelSource::Cubemap { .. }) => ChannelTextureKind::Cubemap,
        _ => ChannelTextureKind::Texture2d,
    }
}

/// Shader compilation backend.
#[derive(Debug, Clone, Copy, PartialEq, Eq)]
pub enum ShaderCompiler {
    /// Compile wrapped GLSL through shaderc into SPIR-V.
    Shaderc,
    /// Hand GLSL to naga's built-in frontend.
    NagaGlsl,
}

impl ShaderCompiler {
    /// The name the command line uses for the backend.
    pub fn name(&self) -> (r: &'static str)
        ensures
            *self == ShaderCompiler::Shaderc ==> r@ == "shaderc"@,
            *self == ShaderCompiler::NagaGlsl ==> r@ == "naga"@,
    {
        match self {
            ShaderCompiler::Shaderc => "shaderc",
            ShaderCompiler::NagaGlsl => "naga",
        }
    }
}

/// Whether the shaderc backend is compiled into this build. This crate
/// does not link shaderc, so wrapped GLSL goes through naga.
pub const SHADERC_ENABLED: bool = false;

impl Default for ShaderCompiler {
    fn default() -> (r: Self)
        ensures
            r == (if SHADERC_ENABLED {
                ShaderCompiler::Shaderc
            } else {
                ShaderCompiler::NagaGlsl
            }),
    {
        if SHADERC_ENABLED {
            ShaderCompiler::Shaderc
        } else {
            ShaderCompiler::NagaGlsl
        }
    }
}

/// Output colour handling.
#[derive(Debug, Clone, Copy, PartialEq, Eq, Structural)]
pub enum ColorSpaceMode {
    /// Shadertoy's expectation (gamma-encoded swapchain).
    Auto,
    /// Gamma-encoded outputs on non-sRGB surfaces.
    Gamma,
    /// Linear outputs on sRGB swapchains.
    Linear,
}

/// Wallpaper surface or interactive preview window.
#[derive(Debug, Clone, Copy, PartialEq, Eq)]
pub enum RenderMode {
    Wallpaper,
    Windowed,
}

/// How the compositor treats the swapchain alpha channel.
#[derive(Debug, Clone, Copy, PartialEq, Eq, Structural)]
pub enum SurfaceAlpha {
    Opaque,
    Transparent,
}

/// Envelope of crossfades between shaders.
#[derive(Debug, Clone, Copy, PartialEq, Eq)]
pub enum CrossfadeCurve {
    Linear,
    Smoothstep,
    EaseInOut,
}

/// Anti-aliasing policy.
#[derive(Debug, Clone, Copy, PartialEq, Eq, Structural)]
pub enum Antialiasing {
    /// The highest sample count the surface format supports.
    Auto,
    /// No multisampling.
    Off,
    /// A specific MSAA sample count.
    Samples(u32),
}

/// GPU power preference for adapter selection.
#[derive(Debug, Clone, Copy, PartialEq, Eq)]
pub enum GpuPowerPreference {
    Low,
    High,
}

/// GPU memory allocation mode.
#[derive(Debug, Clone, Copy, PartialEq, Eq)]
pub enum GpuMemoryMode {
    Balanced,
    Performance,
}

impl Default for ColorSpaceMode {
    fn default() -> (r: Self)
        ensures
            r == ColorSpaceMode::Auto,
    {
        ColorSpaceMode::Auto
    }
}

impl Default for SurfaceAlpha {
    fn default() -> (r: Self)
        ensures
            r == SurfaceAlpha::Opaque,
    {
        SurfaceAlpha::Opaque
    }
}

impl Default for CrossfadeCurve {
    fn default() -> (r: Self)
        ensures
            r == CrossfadeCurve::Smoothstep,
    {
        CrossfadeCurve::Smoothstep
    }
}

impl Default for Antialiasing {
    fn default() -> (r: Self)
        ensures
            r == Antialiasing::Auto,
    {
        Antialiasing::Auto
    }
}

impl Default for GpuPowerPreference {
    fn default() -> (r: Self)
        ensures
            r == GpuPowerPreference::Low,
    {
        GpuPowerPreference::Low
    }
}

impl Default for GpuMemoryMode {
    fn default() -> (r: Self)
        ensures
            r == GpuMemoryMode::Balanced,
    {
        GpuMemoryMode::Balanced
    }
}

} // verus!
