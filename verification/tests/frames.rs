use wallshader::lambdash::cli::{parse_dimensions, parse_fill_choice, FillChoiceOf};
use wallshader::renderer::gpu::frames::{align_to, flip_rgba_vertical};
use wallshader::renderer::types::Antialiasing;
use wallshader::renderer::wallpaper::{output_physical_size, resolve_configure_size};
use wallshader::wallshader::antialias::{
    apply_renderer_constraints, is_software_adapter, normalize_sample_counts, resolve_antialiasing_info,
    AntialiasCapabilities,
};

#[test]
fn rows_align_to_copy_pitch() {
    assert_eq!(align_to(1000, 256), 1024);
    assert_eq!(align_to(1024, 256), 1024);
    assert_eq!(align_to(0, 256), 0);
    assert_eq!(align_to(7, 0), 7);
    assert_eq!(align_to(u32::MAX, 256), u32::MAX);
}

#[test]
fn images_flip_upside_down_and_back() {
    let rows: Vec<u8> = (0u8..24).collect();
    let mut data = rows.clone();
    flip_rgba_vertical(2, 3, &mut data);
    assert_eq!(&data[0..8], &rows[16..24]);
    assert_eq!(&data[8..16], &rows[8..16]);
    assert_eq!(&data[16..24], &rows[0..8]);
    flip_rgba_vertical(2, 3, &mut data);
    assert_eq!(data, rows);
    let mut with_tail: Vec<u8> = (0u8..10).collect();
    flip_rgba_vertical(1, 2, &mut with_tail);
    assert_eq!(with_tail, vec![4, 5, 6, 7, 0, 1, 2, 3, 8, 9]);
}

#[test]
fn configured_sizes_respect_requests() {
    assert_eq!(resolve_configure_size(Some((2560, 1440)), (1920, 1080), None), (2560, 1440));
    assert_eq!(resolve_configure_size(None, (1920, 1080), Some((1280, 2000))), (1280, 1080));
    assert_eq!(resolve_configure_size(Some((800, 600)), (1920, 1080), Some((0, 0))), (1, 1));
}

#[test]
fn physical_sizes_from_output_info() {
    assert_eq!(output_physical_size(Some((2560, 1440)), Some((1280, 720)), 2), Some((2560, 1440)));
    assert_eq!(output_physical_size(None, Some((1280, 720)), 2), Some((2560, 1440)));
    assert_eq!(output_physical_size(None, Some((0, -5)), 0), Some((1, 1)));
    assert_eq!(output_physical_size(None, None, 1), None);
}

fn caps(samples: &[u32], resolve: bool, software: bool, high: bool) -> AntialiasCapabilities {
    let supported = normalize_sample_counts(samples);
    let max = *supported.last().unwrap();
    AntialiasCapabilities {
        supported_samples: supported,
        max_supported: max,
        is_software: software,
        has_msaa_resolve: resolve,
        has_high_sample_features: high,
    }
}

#[test]
fn sample_counts_are_sorted_with_one() {
    assert_eq!(normalize_sample_counts(&[8, 4, 4, 2]), vec![1, 2, 4, 8]);
    assert_eq!(normalize_sample_counts(&[]), vec![1]);
}

#[test]
fn antialiasing_follows_adapter_limits() {
    let full = caps(&[1, 2, 4, 8], true, false, true);
    let info = resolve_antialiasing_info(Antialiasing::Auto, &full);
    assert_eq!((info.user_specified.as_str(), info.actual_used, info.max_supported), ("auto", 8, 8));
    let info = resolve_antialiasing_info(Antialiasing::Samples(16), &full);
    assert_eq!((info.user_specified.as_str(), info.actual_used), ("16", 8));
    let info = resolve_antialiasing_info(Antialiasing::Off, &full);
    assert_eq!(info.actual_used, 1);
    let limited = caps(&[1, 2, 4, 8], true, false, false);
    assert_eq!(apply_renderer_constraints(8, &limited), 4);
    let no_resolve = caps(&[1, 4], false, false, true);
    assert_eq!(apply_renderer_constraints(4, &no_resolve), 1);
    let software = caps(&[1, 4], true, true, true);
    assert_eq!(apply_renderer_constraints(4, &software), 1);
}

#[test]
fn software_adapters_are_recognised() {
    assert!(is_software_adapter(false, "llvmpipe (LLVM 15.0.7, 256 bits)", "Mesa"));
    assert!(is_software_adapter(false, "GPU", "SoftPipe"));
    assert!(is_software_adapter(true, "GPU", "radv"));
    assert!(!is_software_adapter(false, "AMD Radeon", "radv"));
}

#[test]
fn fill_method_values() {
    assert_eq!(parse_fill_choice(" Stretch "), Ok(FillChoiceOf::Stretch));
    assert_eq!(
        parse_fill_choice("center:1920x1080"),
        Ok(FillChoiceOf::Center { content_width: 1920, content_height: 1080 })
    );
    assert_eq!(parse_fill_choice("tile"), Ok(FillChoiceOf::Tile { repeat: None }));
    assert_eq!(parse_fill_choice("tile=2x3"), Ok(FillChoiceOf::Tile { repeat: Some("2x3".to_string()) }));
    assert_eq!(
        parse_fill_choice("center"),
        Err("center fill requires dimensions (e.g. center:1920x1080)".to_string())
    );
    assert_eq!(
        parse_fill_choice("zoom"),
        Err("unknown fill method 'zoom'; expected stretch, center:WxH, or tile[:XxY]".to_string())
    );
    assert_eq!(parse_fill_choice("  "), Err("fill method must not be empty".to_string()));
    assert_eq!(parse_dimensions("640X480"), Ok((640, 480)));
    assert_eq!(parse_dimensions("640"), Err("expected WIDTHxHEIGHT".to_string()));
    assert_eq!(parse_dimensions("0x480"), Err("center dimensions must be greater than zero".to_string()));
}

use wallshader::renderer::cadence::{FramePacer, FrameScheduler, PolicyKind};
use wallshader::renderer::keyboard::{ascii_from_key, KeyInput, KeyboardState};

#[test]
fn animation_cadence_follows_the_interval() {
    let mut s = FrameScheduler::new(PolicyKind::Animate, Some(100), 1_000);
    assert_eq!(s.next_deadline(), Some(1_000));
    assert!(s.ready_for_frame(1_000));
    assert_eq!(s.next_deadline(), Some(1_100));
    assert!(!s.ready_for_frame(1_050));
    assert!(s.ready_for_frame(1_100));
    let mut uncapped = FrameScheduler::new(PolicyKind::Animate, None, 0);
    assert!(uncapped.ready_for_frame(5));
    assert_eq!(uncapped.next_deadline(), None);
}

#[test]
fn still_draws_once_and_export_never() {
    let mut still = FrameScheduler::new(PolicyKind::Still, Some(100), 0);
    assert!(still.ready_for_frame(0));
    still.mark_rendered();
    assert!(!still.ready_for_frame(10));
    still.reset(20);
    assert!(still.ready_for_frame(20));
    let mut export = FrameScheduler::new(PolicyKind::Export, None, 0);
    assert!(!export.ready_for_frame(0));
}

#[test]
fn pacer_accumulates_ticks() {
    let mut pacer = FramePacer::new(Some(16_000_000));
    assert!(pacer.should_render(0));
    assert!(!pacer.should_render(10_000_000));
    assert!(pacer.should_render(15_800_000));
    assert!(!pacer.is_frame_scheduled());
    pacer.set_frame_scheduled(true);
    assert!(pacer.is_frame_scheduled());
    let mut free = FramePacer::new(None);
    assert!(free.should_render(1));
}

#[test]
fn named_keys_have_ascii_codes() {
    assert_eq!(ascii_from_key(&KeyInput::Enter), Some(10));
    assert_eq!(ascii_from_key(&KeyInput::Character("w".to_string())), Some(119));
    assert_eq!(ascii_from_key(&KeyInput::Other), None);
    let mut keys = KeyboardState::new();
    assert!(keys.handle_event(&KeyInput::Space, true, false));
    assert!(!keys.handle_event(&KeyInput::Other, true, false));
}

use wallshader::renderer::gpu::surface::{
    choose_present_mode, choose_surface_format, frame_latency, initial_surface_size, resize_accepted,
    resolve_surface_color, vsync_present_mode, PresentModeKind, SurfaceColorSpace,
};
use wallshader::renderer::gpu::swap::{effective_crossfade, CrossfadeState, SwapTracker};
use wallshader::renderer::types::ColorSpaceMode;
use wallshader::wallshader::antialias::select_sample_count;

fn weights(fade: &CrossfadeState) -> (f32, f32) {
    let (prev, curr, total) = fade.mixes();
    (prev as f32 / total as f32, curr as f32 / total as f32)
}

#[test]
fn crossfade_weights_sum_to_one() {
    let mut fade = CrossfadeState::new(2);
    let (prev_start, curr_start) = weights(&fade);
    assert!((prev_start - 1.0).abs() < 1e-5);
    assert!(curr_start.abs() < 1e-5);

    fade.advance();
    let (prev_mid, curr_mid) = weights(&fade);
    assert!((prev_mid + curr_mid - 1.0).abs() < 1e-5);
    assert!((prev_mid - 0.5).abs() < 1e-5);
    assert!((curr_mid - 0.5).abs() < 1e-5);

    fade.advance();
    let (prev_end, curr_end) = weights(&fade);
    assert!(fade.is_finished());
    assert!(prev_end.abs() < 1e-5);
    assert!((curr_end - 1.0).abs() < 1e-5);
}

#[test]
fn zero_duration_crossfade_is_hard_cut() {
    let mut fade = CrossfadeState::new(1);
    let (prev_start, curr_start) = weights(&fade);
    assert!((prev_start - 1.0).abs() < 1e-5);
    assert!(curr_start.abs() < 1e-5);

    fade.advance();
    let (prev_end, curr_end) = weights(&fade);
    assert!(fade.is_finished());
    assert!(prev_end.abs() < 1e-5);
    assert!((curr_end - 1.0).abs() < 1e-5);
}

#[test]
fn crossfade_steps_stop_at_the_end() {
    let mut fade = CrossfadeState::new(0);
    assert_eq!(fade.mixes(), (1, 0, 1));
    fade.advance();
    fade.advance();
    assert_eq!(fade.mixes(), (0, 1, 1));
    let mut fade = CrossfadeState::new(3);
    fade.advance();
    assert_eq!(fade.mixes(), (2, 1, 3));
    assert!(!fade.is_finished());
    assert_eq!(effective_crossfade(15_999_999), 0);
    assert_eq!(effective_crossfade(16_000_000), 16_000_000);
}

#[test]
fn only_the_latest_preparation_is_used() {
    let mut swaps = SwapTracker::new();
    let first = swaps.request();
    assert_eq!(first, 1);
    let second = swaps.request();
    assert_eq!(second, 2);
    assert!(!swaps.on_ready(first, 500, 100, 1_000));
    assert!(!swaps.has_pending());
    assert!(swaps.on_ready(second, 500, 100, 1_000));
    assert!(!swaps.on_ready(second, 500, 100, 1_000));
    assert_eq!(swaps.take_due(1_099), None);
    assert!(swaps.has_pending());
    assert_eq!(swaps.take_due(1_100), Some(500));
    assert!(!swaps.has_pending());
    let third = swaps.request();
    swaps.on_failed(third);
    assert!(!swaps.on_ready(third, 1, 1, 1));
}

#[test]
fn surface_configuration_choices() {
    assert_eq!(resolve_surface_color(ColorSpaceMode::Auto), SurfaceColorSpace::Gamma);
    assert_eq!(resolve_surface_color(ColorSpaceMode::Linear), SurfaceColorSpace::Linear);
    let srgb = [true, false, true];
    assert_eq!(choose_surface_format(&srgb, SurfaceColorSpace::Gamma), 1);
    assert_eq!(choose_surface_format(&srgb, SurfaceColorSpace::Linear), 0);
    assert_eq!(choose_surface_format(&[true, true], SurfaceColorSpace::Gamma), 0);
    assert_eq!(
        choose_present_mode(&[PresentModeKind::Mailbox, PresentModeKind::Fifo]),
        PresentModeKind::Fifo
    );
    assert_eq!(choose_present_mode(&[PresentModeKind::Mailbox]), PresentModeKind::Mailbox);
    let modes = [PresentModeKind::Fifo, PresentModeKind::Mailbox];
    assert_eq!(vsync_present_mode(&modes, false, PresentModeKind::Fifo), PresentModeKind::Mailbox);
    assert_eq!(vsync_present_mode(&modes, true, PresentModeKind::Mailbox), PresentModeKind::Fifo);
    assert_eq!(
        vsync_present_mode(&[PresentModeKind::Fifo], false, PresentModeKind::Fifo),
        PresentModeKind::Fifo
    );
    assert_eq!(frame_latency(0), 1);
    assert_eq!(frame_latency(2), 2);
    assert_eq!(frame_latency(9), 3);
    assert_eq!(initial_surface_size(0, 720, 8192), Ok((1, 720)));
    assert_eq!(
        initial_surface_size(9000, 720, 8192),
        Err("GPU max texture dimension is 8192, requested surface is 9000x720".to_string())
    );
    assert!(resize_accepted(1920, 1080, 8192));
    assert!(!resize_accepted(0, 1080, 8192));
    assert!(!resize_accepted(9000, 1080, 8192));
}

#[test]
fn sample_counts_follow_the_adapter() {
    let caps = AntialiasCapabilities::from_adapter(&[4, 2, 4, 8], false, true, false);
    assert_eq!(caps.supported_samples, vec![1, 2, 4, 8]);
    assert_eq!(caps.max_supported, 8);
    assert_eq!(select_sample_count(Antialiasing::Auto, &caps), 4);
    assert_eq!(select_sample_count(Antialiasing::Samples(2), &caps), 2);
    assert_eq!(select_sample_count(Antialiasing::Samples(16), &caps), 4);
    assert_eq!(select_sample_count(Antialiasing::Off, &caps), 1);
    let soft = AntialiasCapabilities::from_adapter(&[4], true, true, true);
    assert_eq!(select_sample_count(Antialiasing::Auto, &soft), 1);
}

use wallshader::renderer::surface_frames::{all_exported, export_ends_run, FrameErrorKind, Recovery, SurfaceFrames};

#[test]
fn still_surfaces_draw_once_and_stop_asking_for_frames() {
    let mut s = SurfaceFrames::new(PolicyKind::Still, None);
    assert!(s.schedule_next_frame(true));
    assert!(!s.schedule_next_frame(true));
    s.frame_callback_done();
    assert!(s.should_render(10));
    assert!(s.mark_rendered());
    assert!(!s.mark_rendered());
    assert!(!s.should_render(20));
    assert!(!s.schedule_next_frame(true));
    s.set_policy(PolicyKind::Still, 30);
    assert!(s.should_render(40));
    assert!(!s.schedule_next_frame(false));
}

#[test]
fn animated_surfaces_follow_their_pacer() {
    let mut s = SurfaceFrames::new(PolicyKind::Animate, Some(1_000_000));
    assert!(s.should_render(0));
    assert!(!s.should_render(500_000));
    assert!(s.should_render(1_000_000));
    assert!(!s.mark_rendered());
    assert!(s.schedule_next_frame(true));
    assert_eq!(s.on_render_error(FrameErrorKind::Lost, true), Recovery::RebuildGpu);
    assert_eq!(s.on_render_error(FrameErrorKind::Outdated, false), Recovery::DropGpu);
    assert_eq!(s.on_render_error(FrameErrorKind::OutOfMemory, true), Recovery::DropGpu);
    assert_eq!(s.on_render_error(FrameErrorKind::Timeout, true), Recovery::Retry);
    assert!(s.schedule_next_frame(true));
}

#[test]
fn export_runs_end_when_every_surface_has_drawn() {
    assert!(export_ends_run(true, PolicyKind::Export, PolicyKind::Export));
    assert!(!export_ends_run(false, PolicyKind::Export, PolicyKind::Export));
    assert!(!export_ends_run(true, PolicyKind::Still, PolicyKind::Export));
    assert!(all_exported(true, PolicyKind::Export, &[true, true]));
    assert!(!all_exported(true, PolicyKind::Export, &[true, false]));
    assert!(all_exported(true, PolicyKind::Export, &[]));
    assert!(!all_exported(true, PolicyKind::Animate, &[true]));
}

use wallshader::renderer::cubemap::{cube_extent, face_candidates, face_given, FaceExtentIssue};

#[test]
fn cubemap_faces_are_found_by_extension_order_and_must_be_square() {
    assert_eq!(
        face_candidates("/c", "posx"),
        vec!["/c/posx.png".to_string(), "/c/posx.jpg".to_string(), "/c/posx.jpeg".to_string(), "/c/posx.bmp".to_string()]
    );
    assert_eq!(face_given("/c", "posx", &[false, true, true, false]), Some("/c/posx.jpg".to_string()));
    assert_eq!(face_given("/c", "posx", &[false, false]), None);
    assert_eq!(cube_extent(&[(64, 64); 6]), Ok(64));
    assert_eq!(cube_extent(&[(64, 32); 6]), Err(FaceExtentIssue::NotSquare { width: 64, height: 32 }));
    assert_eq!(cube_extent(&[(0, 0); 6]), Err(FaceExtentIssue::ZeroExtent { width: 0, height: 0 }));
    let mut faces = [(64, 64); 6];
    faces[3] = (32, 32);
    assert_eq!(cube_extent(&faces), Err(FaceExtentIssue::Mismatched { face: 3, width: 32, height: 32 }));
}
