use std::path::Path;

use wallshader::shadertoy::path::PathResolver;
use wallshader::wallshader::bootstrap::resolve_entry_handle;
use wallshader::wallshader::handles::{
    EntryHandle, LaunchHandle, LaunchHandleArg, PlaylistHandle,
};

/// A resolver working from the root directory, as the command line would
/// from a process started there.
fn process_resolver() -> PathResolver {
    PathResolver::with_cwd("/")
}

#[test]
fn parses_shadertoy() {
    let handle = EntryHandle::parse_with_resolver(&process_resolver(), "shadertoy://abc").unwrap();
    assert_eq!(handle, EntryHandle::Shadertoy { id: "abc".into() });
}

#[test]
fn parses_shader_scheme() {
    let handle = EntryHandle::parse_with_resolver(&process_resolver(), "shader://demo").unwrap();
    assert_eq!(
        handle,
        EntryHandle::LocalPack {
            name: "demo".into()
        }
    );
}

#[test]
fn raw_paths_require_slash() {
    let handle = EntryHandle::parse_with_resolver(&process_resolver(), "./packs/demo").unwrap();
    match handle {
        EntryHandle::RawPath(path) => assert!(Path::new(&path).ends_with("packs/demo")),
        _ => panic!("expected raw path"),
    }
}

#[test]
fn bare_names_error() {
    let err = EntryHandle::parse_with_resolver(&process_resolver(), "demo").unwrap_err();
    assert!(err.to_string().contains("shader://demo"));
}

#[test]
fn playlist_named() {
    let handle = PlaylistHandle::parse_with_resolver(&process_resolver(), "playlist://demo").unwrap();
    assert_eq!(
        handle,
        PlaylistHandle::Named {
            name: "demo".into()
        }
    );
}

#[test]
fn playlist_raw_path() {
    let handle =
        PlaylistHandle::parse_with_resolver(&process_resolver(), "./playlists/demo.toml").unwrap();
    match handle {
        PlaylistHandle::RawPath(path) => assert!(Path::new(&path).ends_with("playlists/demo.toml")),
        _ => panic!("expected raw path"),
    }
}

#[test]
fn launch_parses_playlist_scheme() {
    let handle = LaunchHandleArg::parse_with_resolver(&process_resolver(), "playlist://demo").unwrap();
    match handle.into_inner() {
        LaunchHandle::Playlist(PlaylistHandle::Named { name }) => assert_eq!(name, "demo"),
        _ => panic!("expected playlist launch handle"),
    }
}

#[test]
fn launch_parses_entry_scheme() {
    let handle = LaunchHandleArg::parse_with_resolver(&process_resolver(), "shader://demo").unwrap();
    match handle.into_inner() {
        LaunchHandle::Entry(EntryHandle::LocalPack { name }) => assert_eq!(name, "demo"),
        _ => panic!("expected entry launch handle"),
    }
}

#[test]
fn parse_with_resolver_or_local_accepts_bare_name() {
    let resolver = PathResolver::with_cwd("/");
    let handle = EntryHandle::parse_with_resolver_or_local(&resolver, "demo").unwrap();
    assert!(matches!(handle, EntryHandle::LocalPack { name } if name == "demo"));
}

#[test]
fn entry_handle_prefers_shadertoy_then_positional_then_demo() {
    let resolver = process_resolver();
    let from_ref = resolve_entry_handle(&resolver, Some("  https://www.shadertoy.com/view/XsXXDn "), None);
    assert_eq!(from_ref, Ok(EntryHandle::Shadertoy { id: "XsXXDn".into() }));
    let refused = resolve_entry_handle(&resolver, Some("   "), None);
    assert!(refused.is_err());
    let entry = LaunchHandle::Entry(EntryHandle::LocalPack { name: "grid".into() });
    assert_eq!(
        resolve_entry_handle(&resolver, None, Some(&entry)),
        Ok(EntryHandle::LocalPack { name: "grid".into() })
    );
    let playlist = LaunchHandle::Playlist(PlaylistHandle::Named { name: "calm".into() });
    assert_eq!(
        resolve_entry_handle(&resolver, None, Some(&playlist)),
        Err("playlist handle is not valid when resolving an entry shader".to_string())
    );
    assert_eq!(
        resolve_entry_handle(&resolver, None, None),
        Ok(EntryHandle::LocalPack { name: "local-demo".into() })
    );
}

use wallshader::wallshader::handles::{choose_absolute_playlist, search_given};

#[test]
fn playlist_search_takes_the_first_root_holding_the_file() {
    let roots = vec!["/config".to_string(), "/data".to_string(), "/share".to_string()];
    assert_eq!(search_given("calm.toml", &roots, &[false, true, true]), Ok("/data/calm.toml".to_string()));
    assert_eq!(search_given("calm.toml", &roots, &[true, true, true]), Ok("/config/calm.toml".to_string()));
    assert!(search_given("calm.toml", &roots, &[false, false]).is_err());
    assert!(search_given("../calm.toml", &roots, &[true, true, true]).is_err());
    let named = PlaylistHandle::Named { name: "calm".into() };
    assert_eq!(named.resolve_path_given(&roots, false, false, &[false, false, true]), Ok("/share/calm.toml".to_string()));
    assert!(choose_absolute_playlist("/x/p.toml", true, true).is_err());
    assert_eq!(choose_absolute_playlist("/x/p.toml", false, true), Ok("/x/p.toml".to_string()));
    assert!(choose_absolute_playlist("/x/p.toml", false, false).is_err());
}
