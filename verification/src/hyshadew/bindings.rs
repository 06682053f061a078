//! The hyshadew daemon's channel bindings: texture inputs of the entry pass
//! are bound; buffers, cubemaps, audio and the keyboard are not supported
//! here and leave their channel unbound.
use vstd::prelude::*;
use crate::fspath::{join, path_join};
use crate::renderer::types::{
    slot_view, ChannelBindings, ChannelSource, ChannelSourceOf, SurfaceAlpha as RendererSurfaceAlpha,
};
use crate::shadertoy::manifest::{
    InputSource, PassInput, ShaderPackManifest, SurfaceAlpha as ManifestSurfaceAlpha,
};
use crate::shadertoy::pack::{find_pass, find_pass_index, LocalPack};
use crate::text::lit;
use crate::wallshader::bindings::{unbound_slots, SlotsView};

verus! {

/// The slots after one input: a texture on a channel below four is bound to
/// its resolved path; every other input changes nothing.
pub open spec fn texture_slot(root: Seq<char>, input: PassInput, slots: SlotsView) -> SlotsView {
    match input.source {
        InputSource::Texture { path } => if input.channel < 4 {
            slots.update(input.channel as int, Some(ChannelSourceOf::Texture { path: join(root, path@) }))
        } else {
            slots
        },
        _ => slots,
    }
}

pub open spec fn texture_slots(root: Seq<char>, inputs: Seq<PassInput>, n: nat) -> SlotsView
    decreases n,
{
    if n == 0 {
        unbound_slots()
    } else {
        texture_slot(root, inputs[n - 1], texture_slots(root, inputs, (n - 1) as nat))
    }
}

/// The slots of a pack: unbound when the entry pass is missing.
pub open spec fn pack_texture_slots(root: Seq<char>, manifest: ShaderPackManifest) -> SlotsView {
    match find_pass(manifest.passes@, manifest.entry@) {
        None => unbound_slots(),
        Some(i) => texture_slots(root, manifest.passes@[i].inputs@, manifest.passes@[i].inputs@.len()),
    }
}

/// The channel bindings of `pack`'s entry pass.
pub fn channel_bindings_from_pack(pack: &LocalPack) -> (r: ChannelBindings)
    ensures
        r.slot_views() == pack_texture_slots(pack.root_view(), pack.manifest_view()),
{
    let mut bindings = ChannelBindings::new();
    proof {
        assert(bindings.slot_views() =~= unbound_slots());
    }
    let manifest = pack.manifest();
    let pi = match find_pass_index(manifest.passes.as_slice(), manifest.entry.as_str()) {
        None => {
            return bindings;
        },
        Some(pi) => pi,
    };
    let inputs = &manifest.passes[pi].inputs;
    let ghost root = pack.root_view();
    proof {
        assert(find_pass(pack.manifest_view().passes@, pack.manifest_view().entry@) == Some(pi as int));
    }
    let mut i: usize = 0;
    while i < inputs.len()
        invariant
            i <= inputs@.len(),
            root == pack.root_view(),
            bindings.slot_views() == texture_slots(root, inputs@, i as nat),
        decreases inputs@.len() - i,
    {
        proof {
            bindings.lemma_slots_len();
        }
        let ghost before = bindings.slots_view();
        match &inputs[i].source {
            InputSource::Texture { path } => {
                let stored = path_join(pack.root(), path.as_str());
                let ghost stored_g = stored;
                match bindings.set_texture(inputs[i].channel as usize, stored) {
                    Ok(()) => {
                        proof {
                            let src: ChannelSource = ChannelSourceOf::Texture { path: stored_g };
                            assert(before.update(inputs[i as int].channel as int, Some(src)).map_values(
                                |o: Option<ChannelSource>| slot_view(o),
                            ) =~= before.map_values(|o: Option<ChannelSource>| slot_view(o)).update(
                                inputs[i as int].channel as int,
                                Some(src@),
                            ));
                        }
                    },
                    Err(_) => {},
                }
            },
            _ => {},
        }
        i += 1;
    }
    bindings
}

/// The manifest's alpha preference as the renderer's.
pub fn map_manifest_alpha(alpha: ManifestSurfaceAlpha) -> (r: RendererSurfaceAlpha)
    ensures
        alpha == ManifestSurfaceAlpha::Opaque ==> r == RendererSurfaceAlpha::Opaque,
        alpha == ManifestSurfaceAlpha::Transparent ==> r == RendererSurfaceAlpha::Transparent,
{
    match alpha {
        ManifestSurfaceAlpha::Opaque => RendererSurfaceAlpha::Opaque,
        ManifestSurfaceAlpha::Transparent => RendererSurfaceAlpha::Transparent,
    }
}

} // verus!
