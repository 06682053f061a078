use wallshader::hyshadew::multi::{
    bootstrap_handle, plan_window_run, retarget_override, surface_target_id, EngineOptions, HyprlandSnapshot,
    PlaylistEngine, TargetResolver, TargetSelectorKindOf, WorkspaceInfo,
};
use wallshader::multiconfig::{
    duration_from_signed_seconds, duration_from_text, AntialiasSetting, ConfigErrorOf, Defaults, Fps, MultiConfig,
    Playlist, PlaylistItem, PlaylistMode, ONE_SECOND_NANOS,
};
use wallshader::renderer::types::{Antialiasing, ColorSpaceMode};
use wallshader::renderer::wallpaper::{OutputId, SurfaceId, SurfaceInfo};
use wallshader::scheduler::{Scheduler, SelectionChange, TargetId};

const SECOND: u128 = ONE_SECOND_NANOS;

fn fps(v: f32) -> Fps {
    Fps { bits: v.to_bits() }
}

fn item(handle: &str) -> PlaylistItem {
    PlaylistItem {
        handle: handle.to_string(),
        duration: None,
        fps: None,
        antialias: None,
        refresh_once: false,
        mode: None,
        still_time: None,
    }
}

fn playlist(mode: PlaylistMode, item_duration: u128, handles: &[&str]) -> Playlist {
    Playlist {
        mode,
        item_duration,
        crossfade: SECOND,
        fps: None,
        antialias: None,
        items: handles.iter().map(|h| item(h)).collect(),
    }
}

fn config(playlists: Vec<(&str, Playlist)>, targets: Vec<(&str, &str)>, default: Option<&str>) -> MultiConfig {
    MultiConfig {
        version: 1,
        workspace_switch_crossfade: Some(SECOND),
        defaults: Defaults { playlist: default.map(|d| d.to_string()), fps: None, antialias: None },
        playlists: playlists.into_iter().map(|(n, p)| (n.to_string(), p)).collect(),
        targets: targets.into_iter().map(|(k, v)| (k.to_string(), v.to_string())).collect(),
    }
}

fn surface(id: u64, output: Option<(u64, &str)>) -> SurfaceInfo {
    SurfaceInfo {
        surface_id: SurfaceId::from(id),
        output_id: output.map(|(o, _)| OutputId::from(o)),
        output_name: output.map(|(_, n)| n.to_string()),
        size: None,
    }
}

fn snapshot(output: &str, id: i32, name: &str) -> HyprlandSnapshot {
    HyprlandSnapshot {
        workspaces: vec![(output.to_string(), WorkspaceInfo { id, name: name.to_string() })],
    }
}

fn options() -> EngineOptions {
    EngineOptions {
        cache_only: false,
        refresh_all: false,
        global_fps: None,
        global_antialias: Antialiasing::Auto,
        global_color_space: ColorSpaceMode::Auto,
        prewarm: 250_000_000,
    }
}

/// Shows a change the way the daemon does: an item that does not load is
/// skipped, up to as many times as the playlist has items. Gives the handle
/// shown and its crossfade.
fn activate(engine: &mut PlaylistEngine, change: SelectionChange, loadable: &[&str], now: u128) -> Option<(String, u128)> {
    let tid = change.target.0.clone();
    let mut change = change;
    let mut attempts = 0usize;
    loop {
        let item = change.item.clone();
        let refresh = engine.should_refresh_item(&item);
        if loadable.contains(&item.handle.as_str()) {
            let activation = engine.activation_loaded(&tid, &item, refresh)?;
            return Some((item.handle.clone(), activation.crossfade));
        }
        attempts += 1;
        change = engine.activation_failed(&tid, attempts, now)?;
    }
}

fn sample_config() -> MultiConfig {
    let mut ambient = playlist(PlaylistMode::Continuous, 300 * SECOND, &["shader://grayday", "shadertoy://3dXyWj"]);
    ambient.items[1].duration = Some(120 * SECOND);
    ambient.items[1].fps = Some(fps(60.0));
    ambient.items[1].antialias = Some(AntialiasSetting::Samples4);
    ambient.items[1].refresh_once = true;
    let focus = playlist(PlaylistMode::Shuffle, 90 * SECOND, &["shader://simplex"]);
    config(
        vec![("ambient", ambient), ("focus", focus)],
        vec![("workspace:2", "focus"), ("_default", "ambient")],
        Some("ambient"),
    )
}

#[test]
fn parses_sample_config() {
    let config = sample_config();
    assert!(config.validate().is_ok());
    assert_eq!(config.version, 1);
    assert!(config.playlist("ambient").is_some());
    assert_eq!(config.default_playlist(), Some("ambient"));
    let focus = config.targets.iter().find(|(k, _)| k == "workspace:2").map(|(_, v)| v.as_str());
    assert_eq!(focus, Some("focus"));
}

#[test]
fn rejects_unknown_playlist() {
    let config = config(
        vec![("main", playlist(PlaylistMode::Continuous, 60 * SECOND, &["shader://demo"]))],
        vec![],
        Some("missing"),
    );
    let err = config.validate().unwrap_err();
    assert!(matches!(err, ConfigErrorOf::Invalid(_)));
}

#[test]
fn rejects_invalid_selector() {
    let config = config(
        vec![("main", playlist(PlaylistMode::Continuous, 60 * SECOND, &["shader://demo"]))],
        vec![("badselector", "main")],
        None,
    );
    let err = config.validate().unwrap_err();
    assert!(matches!(err, ConfigErrorOf::Invalid(_)));
}

#[test]
fn resolves_item_with_defaults() {
    let mut config = config(
        vec![("main", playlist(PlaylistMode::Continuous, 5 * SECOND, &["local/demo"]))],
        vec![],
        None,
    );
    config.defaults.fps = Some(fps(24.0));
    config.defaults.antialias = Some(AntialiasSetting::Samples4);
    assert!(config.validate().is_ok());

    let playlist = config.playlist("main").unwrap();
    let resolved = playlist.resolved_item(0, &config.defaults).unwrap();
    assert_eq!(resolved.handle, "local/demo");
    assert_eq!(resolved.duration, 5 * SECOND);
    assert_eq!(resolved.fps, Some(fps(24.0)));
    assert_eq!(resolved.antialias, Some(AntialiasSetting::Samples4));
    assert_eq!(resolved.crossfade, SECOND);
    assert!(!resolved.refresh_once);
}

#[test]
fn rejects_wrong_version_and_empty_playlists() {
    let mut config = sample_config();
    config.version = 2;
    let err = config.validate().unwrap_err();
    assert_eq!(err.to_string(), "invalid configuration: unsupported config version 2; expected 1");

    let empty = config_with_items(&[]);
    assert_eq!(
        empty.validate().unwrap_err().to_string(),
        "invalid configuration: playlist 'main' must contain at least one item"
    );
}

fn config_with_items(handles: &[&str]) -> MultiConfig {
    config(vec![("main", playlist(PlaylistMode::Continuous, 60 * SECOND, handles))], vec![], None)
}

#[test]
fn durations_parse_from_text_and_numbers() {
    assert_eq!(duration_from_text("2h 37min"), Ok(9420 * SECOND));
    assert_eq!(duration_from_text("32ms"), Ok(32_000_000));
    assert_eq!(duration_from_text("0"), Ok(0));
    let err = duration_from_text("soon").unwrap_err();
    assert!(err.starts_with("invalid duration 'soon': "));
    assert_eq!(duration_from_signed_seconds(5), Ok(5 * SECOND));
    assert_eq!(duration_from_signed_seconds(-1), Err("duration must be non-negative".to_string()));
}

fn two_item_config(mode: PlaylistMode) -> MultiConfig {
    config(vec![("test", playlist(mode, SECOND, &["one", "two"]))], vec![], None)
}

#[test]
fn advances_continuous_playlist() {
    let config = two_item_config(PlaylistMode::Continuous);
    let mut scheduler = Scheduler::new(&config, 1);
    let target = TargetId::new("output:A".to_string());
    let mut now: u128 = 1_000;
    let first = scheduler.set_target(target.clone(), "test", now).unwrap();
    assert_eq!(first.item.handle, "one");
    now += SECOND;
    let changes = scheduler.tick(now);
    assert_eq!(changes.len(), 1);
    assert_eq!(changes[0].item.handle, "two");
}

#[test]
fn shuffle_generates_order() {
    let config = config(
        vec![("test", playlist(PlaylistMode::Shuffle, SECOND, &["one", "two", "three"]))],
        vec![],
        None,
    );
    let mut scheduler = Scheduler::new(&config, 42);
    let target = TargetId::new("output:A".to_string());
    let first = scheduler.set_target(target.clone(), "test", 0).unwrap();
    assert!(matches!(first.item.handle.as_str(), "one" | "two" | "three"));
}

#[test]
fn applies_global_defaults() {
    let mut config = config(
        vec![("test", playlist(PlaylistMode::Continuous, SECOND, &["local/demo"]))],
        vec![],
        None,
    );
    config.defaults.fps = Some(fps(48.0));
    config.defaults.antialias = Some(AntialiasSetting::Samples8);
    let mut scheduler = Scheduler::new(&config, 7);
    let target = TargetId::new("output:A".to_string());
    let change = scheduler.set_target(target.clone(), "test", 0).unwrap();
    assert_eq!(change.item.fps, Some(fps(48.0)));
    assert_eq!(change.item.antialias, Some(AntialiasSetting::Samples8));
    assert_eq!(change.item.crossfade, SECOND);
}

#[test]
fn zero_fps_treated_as_uncapped() {
    let mut config = config(
        vec![("test", playlist(PlaylistMode::Continuous, SECOND, &["local/demo"]))],
        vec![],
        None,
    );
    config.playlists[0].1.fps = Some(fps(0.0));
    config.playlists[0].1.items[0].fps = Some(fps(0.0));
    let mut scheduler = Scheduler::new(&config, 3);
    let target = TargetId::new("surface:1".to_string());
    let change = scheduler.set_target(target.clone(), "test", 0).unwrap();
    assert_eq!(change.item.fps, None, "fps=0 should map to uncapped");
}

#[test]
fn skip_advances_playlist() {
    let config = two_item_config(PlaylistMode::Continuous);
    let mut scheduler = Scheduler::new(&config, 11);
    let target = TargetId::new("output:A".to_string());
    let first = scheduler.set_target(target.clone(), "test", 0).unwrap();
    assert_eq!(first.item.handle, "one");
    let skipped = scheduler.skip_target(&target, 0).expect("skip result");
    assert_eq!(skipped.item.handle, "two");
}

#[test]
fn continuous_playlist_wraps_around() {
    let config = two_item_config(PlaylistMode::Continuous);
    let mut scheduler = Scheduler::new(&config, 5);
    let target = TargetId::new("output:A".to_string());
    scheduler.set_target(target.clone(), "test", 0).unwrap();
    let second = scheduler.skip_target(&target, 1).unwrap();
    let third = scheduler.skip_target(&target, 2).unwrap();
    assert_eq!(second.item.handle, "two");
    assert_eq!(third.item.handle, "one");
}

#[test]
fn unknown_playlist_is_refused_by_scheduler() {
    let config = two_item_config(PlaylistMode::Continuous);
    let mut scheduler = Scheduler::new(&config, 5);
    let err = scheduler.set_target(TargetId::new("x".to_string()), "nope", 0).unwrap_err();
    assert_eq!(err.to_string(), "playlist 'nope' not found");
}

#[test]
fn tick_before_the_item_is_due_changes_nothing() {
    let config = two_item_config(PlaylistMode::Continuous);
    let mut scheduler = Scheduler::new(&config, 5);
    let target = TargetId::new("output:A".to_string());
    scheduler.set_target(target, "test", 0).unwrap();
    assert!(scheduler.tick(SECOND - 1).is_empty());
}

fn resolver_config() -> MultiConfig {
    config(
        vec![
            ("ambient", playlist(PlaylistMode::Continuous, 60 * SECOND, &["local/a"])),
            ("focus", playlist(PlaylistMode::Continuous, 60 * SECOND, &["local/b"])),
        ],
        vec![("workspace:2", "focus"), ("output:HDMI-A-1", "ambient"), ("_default", "ambient")],
        Some("ambient"),
    )
}

#[test]
fn resolver_prefers_workspace_mapping() {
    let config = resolver_config();
    let resolver = TargetResolver::new(&config);
    let surface = surface(1, Some((10, "HDMI-A-1")));
    let snapshot = snapshot("HDMI-A-1", 2, "2");
    let resolved = resolver.resolve(&surface, Some(&snapshot)).expect("resolve workspace");
    assert_eq!(resolved.playlist, "focus");
    assert!(matches!(resolved.selector, TargetSelectorKindOf::Workspace(_)));
}

#[test]
fn resolver_falls_back_to_output() {
    let config = config(
        vec![("ambient", playlist(PlaylistMode::Continuous, 60 * SECOND, &["local/a"]))],
        vec![("output:DP-1", "ambient")],
        Some("ambient"),
    );
    let resolver = TargetResolver::new(&config);
    let surface = surface(1, Some((1, "DP-1")));
    let resolved = resolver.resolve(&surface, None).expect("resolve output mapping");
    assert_eq!(resolved.playlist, "ambient");
    assert!(matches!(resolved.selector, TargetSelectorKindOf::Output(_)));
}

#[test]
fn resolver_defaults_when_no_mapping() {
    let config = config(
        vec![("solo", playlist(PlaylistMode::Continuous, 60 * SECOND, &["demo"]))],
        vec![],
        Some("solo"),
    );
    let resolver = TargetResolver::new(&config);
    let surface = surface(1, None);
    let resolved = resolver.resolve(&surface, None).expect("use default playlist");
    assert_eq!(resolved.playlist, "solo");
    assert!(matches!(resolved.selector, TargetSelectorKindOf::Default));
}

#[test]
fn resolver_refuses_unmapped_surface() {
    let config = config(
        vec![("solo", playlist(PlaylistMode::Continuous, 60 * SECOND, &["demo"]))],
        vec![],
        None,
    );
    let resolver = TargetResolver::new(&config);
    let err = resolver.resolve(&surface(4, None), None).unwrap_err();
    assert_eq!(err, "no playlist mapping found for surface 4)");
}

#[test]
fn surface_targets_are_named_by_id() {
    assert_eq!(surface_target_id(7), "surface:7");
}

#[test]
fn engine_syncs_new_surface() {
    let config = config(
        vec![("solo", playlist(PlaylistMode::Continuous, SECOND, &["demo", "alt"]))],
        vec![],
        Some("solo"),
    );
    let mut engine = PlaylistEngine::new(config, 99, options());
    let start: u128 = 10 * SECOND;
    let changes = engine.sync_targets(&[surface(7, None)], None, start);
    assert_eq!(changes.len(), 1);
    let change = changes[0].clone().expect("new surface starts its playlist");
    let (handle, crossfade) = activate(&mut engine, change, &["demo", "alt"], start).unwrap();
    assert_eq!(handle, "demo");
    assert_eq!(crossfade, 0);
    assert_eq!(options().prewarm, 250_000_000);

    let advances = engine.tick(start + SECOND);
    assert_eq!(advances.len(), 1);
    let (handle, _) = activate(&mut engine, advances[0].clone(), &["demo", "alt"], start + SECOND).unwrap();
    assert_eq!(handle, "alt");
}

#[test]
fn workspace_switch_applies_crossfade_override() {
    let mut config = config(
        vec![
            ("ambient", playlist(PlaylistMode::Continuous, SECOND, &["ambient-pack"])),
            ("focus", playlist(PlaylistMode::Continuous, SECOND, &["focus-pack"])),
        ],
        vec![("workspace:1", "focus"), ("_default", "ambient")],
        Some("ambient"),
    );
    config.workspace_switch_crossfade = Some(2 * SECOND);
    let mut engine = PlaylistEngine::new(config, 7, options());
    let surface = surface(11, Some((5, "HDMI-A-1")));
    let loadable = ["ambient-pack", "focus-pack"];

    let now: u128 = 100 * SECOND;
    let initial = engine.sync_targets(std::slice::from_ref(&surface), Some(&snapshot("HDMI-A-1", 1, "1")), now);
    assert_eq!(initial.len(), 1);
    let (handle, crossfade) = activate(&mut engine, initial[0].clone().unwrap(), &loadable, now).unwrap();
    assert_eq!(handle, "focus-pack");
    assert_eq!(crossfade, 0);

    let later = now + SECOND;
    let retarget = engine.sync_targets(&[surface], Some(&snapshot("HDMI-A-1", 3, "3")), later);
    assert_eq!(retarget.len(), 1);
    let (handle, crossfade) = activate(&mut engine, retarget[0].clone().unwrap(), &loadable, later).unwrap();
    assert_eq!(handle, "ambient-pack");
    assert_eq!(crossfade, 2 * SECOND);
}

#[test]
fn engine_skips_missing_items_and_advances() {
    let config = config(
        vec![("solo", playlist(PlaylistMode::Continuous, SECOND, &["missing-pack", "valid-pack"]))],
        vec![],
        Some("solo"),
    );
    let mut engine = PlaylistEngine::new(config, 55, options());
    let changes = engine.sync_targets(&[surface(21, None)], None, 0);
    assert_eq!(changes.len(), 1);
    let (handle, crossfade) = activate(&mut engine, changes[0].clone().unwrap(), &["valid-pack"], 0).unwrap();
    assert_eq!(handle, "valid-pack");
    assert_eq!(crossfade, 0);
}

#[test]
fn engine_gives_up_when_no_item_loads() {
    let config = config(
        vec![("solo", playlist(PlaylistMode::Continuous, SECOND, &["a", "b"]))],
        vec![],
        Some("solo"),
    );
    let mut engine = PlaylistEngine::new(config, 1, options());
    let changes = engine.sync_targets(&[surface(2, None)], None, 0);
    assert!(activate(&mut engine, changes[0].clone().unwrap(), &[], 0).is_none());
}

#[test]
fn resync_with_same_mapping_is_quiet_and_removed_surfaces_are_forgotten() {
    let config = config(
        vec![("solo", playlist(PlaylistMode::Continuous, SECOND, &["demo"]))],
        vec![],
        Some("solo"),
    );
    let mut engine = PlaylistEngine::new(config, 1, options());
    let first = engine.sync_targets(&[surface(1, None), surface(2, None)], None, 0);
    assert!(first.iter().all(|c| c.is_some()));
    let again = engine.sync_targets(&[surface(1, None), surface(2, None)], None, SECOND / 2);
    assert!(again.iter().all(|c| c.is_none()));
    let pruned = engine.sync_targets(&[surface(2, None)], None, SECOND / 2);
    assert!(pruned[0].is_none());
    assert!(engine.skip_surface(1, SECOND).is_none());
    let back = engine.sync_targets(&[surface(1, None), surface(2, None)], None, SECOND);
    assert!(back[0].is_some());
    assert!(back[1].is_none());
}

#[test]
fn window_mode_requires_default_playlist() {
    let config = config(
        vec![("solo", playlist(PlaylistMode::Continuous, 60 * SECOND, &["demo"]))],
        vec![],
        None,
    );
    let err = plan_window_run(&config, None).unwrap_err();
    assert!(err.contains("defaults.playlist"));
}

#[test]
fn window_run_sizes_and_bootstrap_shader() {
    let config = config(
        vec![("solo", playlist(PlaylistMode::Continuous, 60 * SECOND, &["demo", "other"]))],
        vec![],
        Some("solo"),
    );
    assert_eq!(plan_window_run(&config, None), Ok((None, (1280, 720))));
    assert_eq!(plan_window_run(&config, Some("800x600")), Ok((Some((800, 600)), (800, 600))));
    assert_eq!(bootstrap_handle(&config), Some("demo".to_string()));
}

#[test]
fn retargeting_through_a_workspace_uses_the_switch_crossfade() {
    let ws = TargetSelectorKindOf::Workspace("workspace:1".to_string());
    let out = TargetSelectorKindOf::Output("output:DP-1".to_string());
    let def = TargetSelectorKindOf::Default;
    assert_eq!(retarget_override(&ws, &def, 7), Some(7));
    assert_eq!(retarget_override(&def, &ws, 7), Some(7));
    assert_eq!(retarget_override(&out, &def, 7), None);
}

use wallshader::durations::seconds_bound_fits;

#[test]
fn durations_near_the_largest_are_refused_not_parsed() {
    assert_eq!(
        duration_from_text("18446744073709551615s 500ms 500ms"),
        Err("invalid duration '18446744073709551615s 500ms 500ms': duration is too large".to_string())
    );
    assert!(!seconds_bound_fits("18446744073709551615s"));
    assert!(seconds_bound_fits("1h 30min 15.5s"));
    assert!(seconds_bound_fits("100000000000000ns"));
    assert_eq!(duration_from_text("100000000000000ns"), Ok(100_000_000_000_000));
    assert_eq!(duration_from_text("1.5s"), Ok(1_500_000_000));
}

#[test]
fn shuffled_playlists_show_every_item_once_per_order() {
    let config = config(
        vec![("test", playlist(PlaylistMode::Shuffle, SECOND, &["one", "two", "three"]))],
        vec![],
        None,
    );
    for seed in [1u64, 2, 3, 42] {
        let mut scheduler = Scheduler::new(&config, seed);
        let target = TargetId::new("output:A".to_string());
        let first = scheduler.set_target(target.clone(), "test", 0).unwrap();
        let second = scheduler.skip_target(&target, 1).unwrap();
        let third = scheduler.skip_target(&target, 2).unwrap();
        let mut seen = vec![first.item.handle, second.item.handle, third.item.handle];
        seen.sort();
        assert_eq!(seen, vec!["one".to_string(), "three".to_string(), "two".to_string()]);
    }
}

#[test]
fn sub_second_units_count_by_the_second() {
    assert!(seconds_bound_fits("18446744073709551614ns"));
    assert_eq!(duration_from_text("18446744073709551614ns"), Ok(18_446_744_073_709_551_614));
}
