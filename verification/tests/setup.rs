use wallshader::hyshadew::bootstrap::{parse_surface_size, plan_single_run, resolve_shader_handle};
use wallshader::hyshadew::defaults::{record_sync, DefaultsSyncReport};
use wallshader::hyshadew::state::AppState;
use wallshader::renderer::types::{ColorSpaceMode, RenderMode, SurfaceAlpha};
use wallshader::setup::{
    choose_dir_source, choose_share_source, plan_child, plan_directories, share_version_of, ChildActionOf, DirProbe,
    DirSourceOf, DirStepOf, EntryKind,
};
use wallshader::shadertoy::manifest::{ColorSpace, ShaderPackManifest, SurfaceAlpha as PackAlpha};
use wallshader::shadertoy::ShaderHandle;

#[test]
fn paths_env_overrides_take_precedence() {
    let config = choose_dir_source(Some("/tmp/root/config"), None, "/home/u/.config/wallshader", true, None);
    let data = choose_dir_source(Some("/tmp/root/data"), None, "/home/u/.local/share/wallshader", true, None);
    let cache = choose_dir_source(Some("/tmp/root/cache"), None, "/home/u/.cache/wallshader", true, None);
    let share = choose_share_source(
        Some("/tmp/root/share"),
        None,
        "/usr/share/wallshader",
        false,
        Some(("/usr/share/hyshadew", false)),
    );
    assert_eq!(config.chosen(), "/tmp/root/config");
    assert_eq!(data.chosen(), "/tmp/root/data");
    assert_eq!(cache.chosen(), "/tmp/root/cache");
    assert_eq!(share.chosen(), "/tmp/root/share");
    assert!(matches!(config, DirSourceOf::Env(_)));
}

#[test]
fn paths_default_share_dir_on_unix_matches_usr_share() {
    let share = choose_share_source(None, None, "/usr/share/wallshader", false, Some(("/usr/share/hyshadew", false)));
    assert_eq!(share.chosen(), "/usr/share/wallshader");
    let share = choose_share_source(Some(""), None, "/usr/share/wax11", false, None);
    assert_eq!(share.chosen(), "/usr/share/wax11");
}

#[test]
fn legacy_env_variables_are_supported() {
    let config = choose_dir_source(None, Some("/tmp/root/legacy-config"), "/home/u/.config/wallshader", true, None);
    assert!(matches!(config, DirSourceOf::LegacyEnv(ref d) if d == "/tmp/root/legacy-config"));
    assert_eq!(config.chosen(), "/tmp/root/legacy-config");
}

#[test]
fn migrates_legacy_directory_when_missing() {
    let config = choose_dir_source(
        None,
        None,
        "/tmp/root/wallshader-config",
        false,
        Some(("/tmp/root/hyshadew-config", true)),
    );
    assert!(matches!(config, DirSourceOf::Migrate { ref legacy, ref primary }
        if legacy == "/tmp/root/hyshadew-config" && primary == "/tmp/root/wallshader-config"));
    assert_eq!(config.chosen(), "/tmp/root/wallshader-config");
}

#[test]
fn legacy_sources_are_used_in_order() {
    let same = choose_dir_source(None, None, "/new/config", false, Some(("/new/config/", true)));
    assert!(matches!(same, DirSourceOf::Default(_)));
    let share = choose_share_source(None, None, "/usr/share/wallshader", false, Some(("/usr/share/hyshadew", true)));
    assert!(matches!(share, DirSourceOf::Legacy(ref d) if d == "/usr/share/hyshadew"));
}

#[test]
fn surface_sizes() {
    assert_eq!(parse_surface_size("1920x1080"), Ok((1920, 1080)));
    assert_eq!(parse_surface_size(" 800 X 600 "), Ok((800, 600)));
    assert_eq!(parse_surface_size("1920"), Err("expected WxH format, e.g. 1920x1080".to_string()));
    assert!(parse_surface_size("0x10").is_err());
}

fn manifest(alpha: PackAlpha, color: ColorSpace) -> ShaderPackManifest {
    ShaderPackManifest {
        name: None,
        entry: "image".to_string(),
        surface_alpha: alpha,
        color_space: color,
        description: None,
        tags: vec![],
        passes: vec![],
    }
}

#[test]
fn single_run_plan() {
    let plan = plan_single_run(None, false, ColorSpaceMode::Auto, &manifest(PackAlpha::Opaque, ColorSpace::Auto)).unwrap();
    assert_eq!(plan.surface_size, (1920, 1080));
    assert_eq!(plan.requested_size, None);
    assert_eq!(plan.mode, RenderMode::Wallpaper);
    assert_eq!(plan.surface_alpha, SurfaceAlpha::Opaque);
    assert_eq!(plan.color_space, ColorSpaceMode::Gamma);

    let plan = plan_single_run(
        Some("640x480"),
        true,
        ColorSpaceMode::Auto,
        &manifest(PackAlpha::Transparent, ColorSpace::Linear),
    )
    .unwrap();
    assert_eq!(plan.surface_size, (640, 480));
    assert_eq!(plan.requested_size, Some((640, 480)));
    assert_eq!(plan.mode, RenderMode::Windowed);
    assert_eq!(plan.surface_alpha, SurfaceAlpha::Transparent);
    assert_eq!(plan.color_space, ColorSpaceMode::Linear);

    let plan = plan_single_run(None, false, ColorSpaceMode::Gamma, &manifest(PackAlpha::Opaque, ColorSpace::Linear)).unwrap();
    assert_eq!(plan.color_space, ColorSpaceMode::Gamma);
    assert!(plan_single_run(Some("big"), false, ColorSpaceMode::Auto, &manifest(PackAlpha::Opaque, ColorSpace::Auto)).is_err());
}

#[test]
fn start_handle_choice() {
    assert_eq!(resolve_shader_handle(None, None).unwrap(), ShaderHandle::LocalPack("local-demo".to_string()));
    assert_eq!(resolve_shader_handle(None, Some("packs/x")).unwrap(), ShaderHandle::LocalPack("packs/x".to_string()));
    assert_eq!(
        resolve_shader_handle(Some("abc123"), Some("packs/x")).unwrap(),
        ShaderHandle::ShadertoyId("abc123".to_string())
    );
}

#[test]
fn directory_steps_follow_probes() {
    let dirs = vec!["/a".to_string(), "/b".to_string(), "/c".to_string()];
    let probes = vec![
        DirProbe { exists: true, is_dir: true },
        DirProbe { exists: false, is_dir: false },
        DirProbe { exists: true, is_dir: false },
    ];
    let steps = plan_directories(&dirs, &probes);
    assert!(matches!(steps[0], DirStepOf::Reuse(ref d) if d == "/a"));
    assert!(matches!(steps[1], DirStepOf::Create(ref d) if d == "/b"));
    assert!(matches!(steps[2], DirStepOf::NotADirectory(ref d) if d == "/c"));
}

#[test]
fn bundled_entries_never_overwrite() {
    assert_eq!(plan_child("/data/shaders", "demo", true, EntryKind::Directory), ChildActionOf::Skip);
    assert_eq!(
        plan_child("/data/shaders", "demo", false, EntryKind::Directory),
        ChildActionOf::CopyDirectory { target: "/data/shaders/demo".to_string() }
    );
    assert_eq!(
        plan_child("/data/shaders", "a.toml", false, EntryKind::File),
        ChildActionOf::CopyFile { target: "/data/shaders/a.toml".to_string() }
    );
    assert_eq!(plan_child("/data/shaders", "fifo", false, EntryKind::Other), ChildActionOf::Unsupported);
    assert_eq!(share_version_of("  1.2.3\n"), "1.2.3");
}

#[test]
fn sync_records_version_only_when_something_was_copied() {
    let mut state = AppState { defaults_version: Some("1".to_string()), last_defaults_sync: None, flags: vec![] };
    let nothing = DefaultsSyncReport::default();
    record_sync(&mut state, &nothing, 1700);
    assert_eq!(state.defaults_version.as_deref(), Some("1"));
    assert_eq!(state.last_defaults_sync, None);
    let report = DefaultsSyncReport {
        copied_shader_packs: vec!["/d/demo".to_string()],
        copied_playlists: vec![],
        share_version: Some("2".to_string()),
    };
    record_sync(&mut state, &report, 1700);
    assert_eq!(state.defaults_version.as_deref(), Some("2"));
    assert_eq!(state.last_defaults_sync.as_deref(), Some("1700"));
}

use wallshader::lambdash::defaults::{
    entry_status, record_sync as record_lambdash_sync, sort_by_name, DefaultCopy, DefaultsSyncReport as LambdashReport,
    SyncOptions,
};

#[test]
fn bundled_entries_are_listed_by_name() {
    let statuses = vec![
        entry_status("/usr/share/lambdash/local-shaders", "/d/local-shaders", "zeta", false),
        entry_status("/usr/share/lambdash/local-shaders", "/d/local-shaders", "alpha", true),
        entry_status("/usr/share/lambdash/local-shaders", "/d/local-shaders", "Beta", false),
    ];
    let sorted = sort_by_name(statuses);
    let names: Vec<&str> = sorted.iter().map(|s| s.name.as_str()).collect();
    assert_eq!(names, vec!["Beta", "alpha", "zeta"]);
    assert_eq!(sorted[1].source, "/usr/share/lambdash/local-shaders/alpha");
    assert_eq!(sorted[1].target, "/d/local-shaders/alpha");
    assert!(sorted[1].installed);
}

#[test]
fn sync_defaults_is_idempotent() {
    // The first sync copied both bundled entries; on the second one the user
    // already has each of them, so nothing is copied again.
    let mut state = AppState::default();
    let first = LambdashReport {
        copied_assets: vec![
            DefaultCopy { source: "/s/local-shaders/demo".to_string(), target: "/d/local-shaders/demo".to_string() },
            DefaultCopy {
                source: "/s/local-shaders/demo-playlist.toml".to_string(),
                target: "/d/local-shaders/demo-playlist.toml".to_string(),
            },
        ],
        share_version: Some("1.0.0".to_string()),
    };
    record_lambdash_sync(&mut state, &first, SyncOptions::default(), 10);
    assert_eq!(plan_child("/d/local-shaders", "demo", true, EntryKind::Directory), ChildActionOf::Skip);
    assert_eq!(plan_child("/d/local-shaders", "demo-playlist.toml", true, EntryKind::File), ChildActionOf::Skip);
    let second = LambdashReport { copied_assets: vec![], share_version: Some("1.0.0".to_string()) };
    assert!(!second.copied_any());
    record_lambdash_sync(&mut state, &second, SyncOptions::default(), 20);
    assert_eq!(state.defaults_version.as_deref(), Some("1.0.0"));
}

#[test]
fn sync_defaults_dry_run_reports_without_copying() {
    let mut state = AppState::default();
    let report = LambdashReport {
        copied_assets: vec![
            DefaultCopy { source: "/s/local-shaders/demo".to_string(), target: "/d/local-shaders/demo".to_string() },
            DefaultCopy {
                source: "/s/local-shaders/demo-playlist.toml".to_string(),
                target: "/d/local-shaders/demo-playlist.toml".to_string(),
            },
        ],
        share_version: Some("1.0.0".to_string()),
    };
    assert_eq!(report.copied_assets.len(), 2);
    record_lambdash_sync(&mut state, &report, SyncOptions { dry_run: true }, 30);
    assert!(state.last_defaults_sync.is_none());
    assert!(state.defaults_version.is_none());
}

use wallshader::renderer::runtime::ExportFormat;
use wallshader::wax11::run::{choose_render_policy, PolicyChoice};

#[test]
fn render_policy_follows_still_flags() {
    assert_eq!(choose_render_policy(None, false, false), Ok(PolicyChoice::Animate));
    assert_eq!(choose_render_policy(None, true, true), Ok(PolicyChoice::Still));
    assert_eq!(choose_render_policy(Some("/tmp/out.PNG"), false, true), Ok(PolicyChoice::Export(ExportFormat::Png)));
    assert_eq!(
        choose_render_policy(None, false, true),
        Err("--still-time requires --still or --still-export".to_string())
    );
    assert_eq!(
        choose_render_policy(Some("/tmp/out.jpg"), false, false),
        Err("unsupported export format '.jpg'; expected .png".to_string())
    );
}

#[test]
fn sizes_round_trip_with_each_separator_and_spaces() {
    assert_eq!(parse_surface_size("1920x1080"), Ok((1920, 1080)));
    assert_eq!(parse_surface_size(" 640 X 480 "), Ok((640, 480)));
    assert_eq!(parse_surface_size("800×600"), Ok((800, 600)));
    assert!(parse_surface_size("0x480").is_err());
    assert!(parse_surface_size("1920").is_err());
}
