use wallshader::renderer::compile::wrap_shadertoy_fragment;

#[test]
fn wrap_strips_shadertoy_uniforms() {
    let source = r#"
            #version 300 es
            uniform float iTime;
            uniform vec3 iResolution;
            void mainImage(out vec4 fragColor, in vec2 fragCoord) {
                fragColor = vec4(fragCoord, 0.0, 1.0);
            }
        "#;

    let wrapped = wrap_shadertoy_fragment(source);
    assert!(!wrapped.contains("uniform float iTime"));
    assert!(!wrapped.contains("uniform vec3 iResolution"));
    assert!(wrapped.contains("mainImage"));
    assert!(wrapped.contains("wallshader_mix"));
}

use wallshader::renderer::keyboard::{ascii_from_text, KeyboardState, KEYBOARD_BYTES};
use wallshader::renderer::options::{parse_antialias, parse_color_space, parse_export_format, parse_shader_compiler};
use wallshader::renderer::runtime::ExportFormat;
use wallshader::renderer::types::{
    Antialiasing, ChannelBindings, ChannelSourceOf, ChannelTextureKind, ColorSpaceMode, ShaderCompiler,
};
use wallshader::renderer::wallpaper::{target_surface_ids, OutputId, SurfaceId, SurfaceSelector};

fn cell(data: &[u8], row: usize, column: usize) -> [u8; 4] {
    let at = (row * 256 + column) * 4;
    [data[at], data[at + 1], data[at + 2], data[at + 3]]
}

#[test]
fn keyboard_press_sets_state_pulse_and_toggle() {
    let mut keys = KeyboardState::new();
    assert_eq!(keys.snapshot().len(), KEYBOARD_BYTES);
    assert!(keys.handle_key(65, true, false));
    let data = keys.take_dirty_snapshot().expect("changed after a press");
    assert_eq!(cell(&data, 0, 65), [255; 4]);
    assert_eq!(cell(&data, 1, 65), [255; 4]);
    assert_eq!(cell(&data, 2, 65), [255; 4]);
    assert_eq!(cell(&data, 0, 66), [0; 4]);
    assert!(keys.take_dirty_snapshot().is_none());
}

#[test]
fn keyboard_repeat_and_second_press_are_ignored() {
    let mut keys = KeyboardState::new();
    assert!(keys.handle_key(32, true, false));
    assert!(!keys.handle_key(32, true, true));
    assert!(!keys.handle_key(32, true, false));
    assert!(!keys.handle_key(40, false, false));
}

#[test]
fn keyboard_pulse_lasts_one_frame_and_toggle_flips_back() {
    let mut keys = KeyboardState::new();
    keys.handle_key(70, true, false);
    assert!(keys.take_dirty_snapshot().is_some());
    let reset = keys.take_pulse_reset_snapshot().expect("a pulse was pending");
    assert_eq!(cell(&reset, 1, 70), [0; 4]);
    assert_eq!(cell(&reset, 0, 70), [255; 4]);
    assert!(keys.take_pulse_reset_snapshot().is_none());
    assert!(keys.handle_key(70, false, false));
    assert!(keys.handle_key(70, true, false));
    assert!(keys.handle_key(70, false, false));
    let data = keys.snapshot();
    assert_eq!(cell(&data, 2, 70), [0; 4]);
    assert_eq!(cell(&data, 0, 70), [0; 4]);
    keys.clear_dirty();
    assert!(keys.take_dirty_snapshot().is_none());
    assert!(keys.take_pulse_reset_snapshot().is_none());
}

#[test]
fn ascii_codes_from_key_text() {
    assert_eq!(ascii_from_text("a"), Some(97));
    assert_eq!(ascii_from_text("ab"), None);
    assert_eq!(ascii_from_text("é"), None);
}

#[test]
fn channel_bindings_record_sources_and_refuse_bad_channels() {
    let mut bindings = ChannelBindings::new();
    bindings.set_texture(0, "tex.png".to_string()).unwrap();
    bindings.set_cubemap(1, "sky".to_string()).unwrap();
    bindings.set_keyboard(3).unwrap();
    let err = bindings.set_texture(4, "x.png".to_string()).unwrap_err();
    assert_eq!(err.to_string(), "channel 4 exceeds supported ShaderToy channel count (4)");
    let slots = bindings.slots();
    assert!(matches!(&slots[0], Some(ChannelSourceOf::Texture { path }) if path == "tex.png"));
    assert!(matches!(&slots[1], Some(ChannelSourceOf::Cubemap { directory }) if directory == "sky"));
    assert!(slots[2].is_none());
    assert!(matches!(&slots[3], Some(ChannelSourceOf::Keyboard)));
    assert_eq!(
        bindings.layout_signature(),
        [
            ChannelTextureKind::Texture2d,
            ChannelTextureKind::Cubemap,
            ChannelTextureKind::Texture2d,
            ChannelTextureKind::Texture2d
        ]
    );
}

#[test]
fn command_line_option_values() {
    assert_eq!(parse_antialias(" Max "), Ok(Antialiasing::Auto));
    assert_eq!(parse_antialias("1"), Ok(Antialiasing::Off));
    assert_eq!(parse_antialias("8"), Ok(Antialiasing::Samples(8)));
    assert_eq!(
        parse_antialias("3"),
        Err("unsupported sample count 3; supported values are 2, 4, 8, or 16".to_string())
    );
    assert_eq!(parse_antialias(""), Err("anti-alias mode must not be empty".to_string()));
    assert_eq!(parse_shader_compiler("NAGA"), Ok(ShaderCompiler::NagaGlsl));
    assert_eq!(
        parse_shader_compiler("shaderc"),
        Err("shaderc support is not enabled in this build".to_string())
    );
    assert_eq!(parse_color_space("sRGB"), Ok(ColorSpaceMode::Linear));
    assert_eq!(parse_color_space("shadertoy"), Ok(ColorSpaceMode::Gamma));
    assert_eq!(
        parse_color_space("Weird"),
        Err("unknown color space 'weird'; expected auto, gamma, or linear".to_string())
    );
    assert_eq!(parse_export_format("out/frame.PNG"), Ok(ExportFormat::Png));
    assert_eq!(
        parse_export_format("frame.exr"),
        Err("EXR export is not implemented yet; use a .png path".to_string())
    );
    assert_eq!(parse_export_format("frame"), Err("export path has no extension; expected .png".to_string()));
}

#[test]
fn surface_selectors_pick_surfaces() {
    let surfaces = vec![
        (SurfaceId(1), Some(OutputId(10))),
        (SurfaceId(2), Some(OutputId(20))),
        (SurfaceId(3), None),
    ];
    assert_eq!(target_surface_ids(SurfaceSelector::All, &surfaces), vec![SurfaceId(1), SurfaceId(2), SurfaceId(3)]);
    assert_eq!(target_surface_ids(SurfaceSelector::Surface(SurfaceId(2)), &surfaces), vec![SurfaceId(2)]);
    assert_eq!(target_surface_ids(SurfaceSelector::Surface(SurfaceId(9)), &surfaces), vec![]);
    assert_eq!(target_surface_ids(SurfaceSelector::Output(OutputId(20)), &surfaces), vec![SurfaceId(2)]);
}

use wallshader::renderer::wallpaper::{needs_gpu_rebuild, swap_crossfade};

#[test]
fn swaps_that_rebuild_gpu_state_cut_without_crossfade() {
    let layout = [ChannelTextureKind::Texture2d; 4];
    let cube = [
        ChannelTextureKind::Cubemap,
        ChannelTextureKind::Texture2d,
        ChannelTextureKind::Texture2d,
        ChannelTextureKind::Texture2d,
    ];
    let auto = Antialiasing::Auto;
    let gamma = ColorSpaceMode::Gamma;
    assert!(!needs_gpu_rebuild(auto, auto, gamma, gamma, Some(layout), layout));
    assert!(!needs_gpu_rebuild(auto, auto, gamma, gamma, None, cube));
    assert!(needs_gpu_rebuild(auto, auto, gamma, gamma, Some(layout), cube));
    assert!(needs_gpu_rebuild(auto, Antialiasing::Samples(4), gamma, gamma, None, layout));
    assert!(needs_gpu_rebuild(auto, auto, gamma, ColorSpaceMode::Linear, None, layout));
    assert_eq!(swap_crossfade(500, true), 0);
    assert_eq!(swap_crossfade(500, false), 500);
}

use wallshader::renderer::window::window_needs_rebuild;

#[test]
fn preview_window_rebuilds_on_alpha_changes_too() {
    let layout = [ChannelTextureKind::Texture2d; 4];
    let auto = Antialiasing::Auto;
    let gamma = ColorSpaceMode::Gamma;
    let opaque = wallshader::renderer::types::SurfaceAlpha::Opaque;
    let clear = wallshader::renderer::types::SurfaceAlpha::Transparent;
    assert!(!window_needs_rebuild(auto, auto, opaque, opaque, gamma, gamma, layout, layout));
    assert!(window_needs_rebuild(auto, auto, opaque, clear, gamma, gamma, layout, layout));
    assert!(window_needs_rebuild(auto, Antialiasing::Off, opaque, opaque, gamma, gamma, layout, layout));
    let mut cube = layout;
    cube[3] = ChannelTextureKind::Cubemap;
    assert!(window_needs_rebuild(auto, auto, opaque, opaque, gamma, gamma, layout, cube));
}

use wallshader::renderer::cadence::PolicyKind as FramePolicy;
use wallshader::renderer::window::{software_cap_applies, window_resize_target};

#[test]
fn software_preview_is_capped_unless_a_rate_was_chosen() {
    assert!(software_cap_applies(true, false, FramePolicy::Animate, false));
    assert!(!software_cap_applies(false, false, FramePolicy::Animate, false));
    assert!(!software_cap_applies(true, true, FramePolicy::Animate, false));
    assert!(!software_cap_applies(true, false, FramePolicy::Still, false));
    assert!(!software_cap_applies(true, false, FramePolicy::Animate, true));
    assert_eq!(window_resize_target(false, FramePolicy::Export, (640, 480), (10, 10)), (640, 480));
    assert_eq!(window_resize_target(true, FramePolicy::Export, (640, 480), (10, 10)), (10, 10));
    assert_eq!(window_resize_target(false, FramePolicy::Animate, (640, 480), (10, 10)), (10, 10));
}

use wallshader::renderer::options::parse_antialias as parse_aa;

#[test]
fn antialias_values_ignore_case_and_spaces() {
    assert_eq!(parse_aa(" AUTO "), parse_aa("auto"));
    assert_eq!(parse_aa("\tOff\n").unwrap(), Antialiasing::Off);
    assert_eq!(parse_aa(" 8 ").unwrap(), Antialiasing::Samples(8));
    assert!(parse_aa(" 3 ").is_err());
}
