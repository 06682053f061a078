use std::path::{Path, PathBuf};

use wallshader::shadertoy::path::PathResolver;
use wallshader::shadertoy::remote::sanitize_label;
use wallshader::shadertoy::ShaderHandle;

#[test]
fn parses_shadertoy_scheme() {
    assert_eq!(
        ShaderHandle::from_input("shadertoy://abc"),
        ShaderHandle::ShadertoyId("abc".into())
    );
}

#[test]
fn parses_local_path() {
    assert!(matches!(
        ShaderHandle::from_input("packs/demo"),
        ShaderHandle::LocalPack(path) if PathBuf::from(&path) == PathBuf::from("packs/demo")
    ));
}

#[test]
fn expand_env_fails_on_missing_variable() {
    let resolver = PathResolver::with_cwd("/");
    let err = resolver
        .expand_path("/tmp/$UNSET_ENV_FOR_TEST")
        .unwrap_err();
    assert!(err.to_string().contains("UNSET_ENV_FOR_TEST"));
}

#[test]
fn expands_home_prefix() {
    let resolver = PathResolver::with_cwd("/");
    let expanded = resolver.expand_path("~").unwrap();
    assert!(Path::new(&expanded).is_absolute());
}

#[test]
fn sanitize_label_handles_edge_cases() {
    assert_eq!(sanitize_label("Buffer A"), Some("buffer_a".to_string()));
    assert_eq!(sanitize_label("  "), None);
    assert_eq!(sanitize_label("123name"), Some("p123name".to_string()));
}

use wallshader::shadertoy::manifest::{InputSource, PassKind};
use wallshader::shadertoy::remote::{
    build_cache_plan, derive_filename, make_unique_name, map_pass_kind, RenderInput, RenderOutput, RenderPass,
    ShaderInfo, ShaderPayload,
};

fn render_pass(name: &str, kind: &str, inputs: Vec<RenderInput>, output: i64) -> RenderPass {
    RenderPass {
        name: name.to_string(),
        pass_type: kind.to_string(),
        code: "void mainImage(out vec4 fragColor, in vec2 fragCoord) { fragColor = vec4(0.0); }".to_string(),
        inputs,
        outputs: vec![RenderOutput { id: output, channel: 0 }],
    }
}

fn input(channel: u8, kind: &str, id: Option<i64>, src: Option<&str>) -> RenderInput {
    RenderInput { id, channel, src: src.map(|s| s.to_string()), channel_type: kind.to_string() }
}

fn sample_payload() -> ShaderPayload {
    ShaderPayload {
        info: ShaderInfo {
            name: "Sample Shader".to_string(),
            description: Some("Demo".to_string()),
            tags: vec!["demo".to_string(), "test".to_string()],
        },
        render_passes: vec![
            render_pass("Buffer A", "buffer", vec![input(0, "texture", None, Some("/media/foo/tex0.png"))], 12),
            render_pass(
                "Image",
                "image",
                vec![
                    input(0, "buffer", Some(12), None),
                    input(1, "texture", None, Some("https://www.shadertoy.com/media/prev.png")),
                ],
                15,
            ),
        ],
    }
}

#[test]
fn cache_plan_lays_out_passes_and_assets() {
    let plan = build_cache_plan(&sample_payload()).expect("plan");
    assert_eq!(plan.manifest.entry, "image");
    assert_eq!(plan.manifest.passes.len(), 2);
    let image = plan.manifest.passes.iter().find(|p| p.name == "image").expect("image pass");
    assert_eq!(image.inputs.len(), 2);
    assert!(matches!(image.inputs[0].source, InputSource::Buffer { ref name } if name == "buffer_a"));
    assert!(matches!(image.inputs[1].source, InputSource::Texture { ref path } if path == "textures/prev.png"));
    let sources: Vec<&str> = plan.pass_artifacts.iter().map(|p| p.source_rel.as_str()).collect();
    assert_eq!(sources, vec!["buffer_a.glsl", "image.glsl"]);
    assert!(plan
        .assets
        .iter()
        .any(|a| a.url.contains("tex0.png") && a.destination_rel == "textures/tex0.png"));
    assert_eq!(plan.manifest.name.as_deref(), Some("Sample Shader"));
}

#[test]
fn cache_plan_refuses_empty_payload_and_bad_channels() {
    let empty = ShaderPayload {
        info: ShaderInfo { name: "x".to_string(), description: None, tags: vec![] },
        render_passes: vec![],
    };
    assert_eq!(build_cache_plan(&empty).unwrap_err(), "shader payload contains no render passes");
    let mut bad = sample_payload();
    bad.render_passes[1].inputs[1].channel = 4;
    assert_eq!(
        build_cache_plan(&bad).unwrap_err(),
        "pass 'Image' references channel 4 which exceeds supported range"
    );
}

#[test]
fn cache_plan_prepends_common_code() {
    let mut payload = sample_payload();
    let mut common = render_pass("Common", "common", vec![], 99);
    common.code = "float shared() { return 1.0; }".to_string();
    payload.render_passes.insert(0, common);
    let plan = build_cache_plan(&payload).unwrap();
    assert_eq!(plan.manifest.passes.len(), 2);
    assert!(plan.pass_artifacts[0].source_code.starts_with("float shared() { return 1.0; }\n"));
}

#[test]
fn unique_names_get_numbered_suffixes() {
    let mut used = Vec::new();
    assert_eq!(make_unique_name("buffer_a".to_string(), &mut used), "buffer_a");
    assert_eq!(make_unique_name("buffer_a".to_string(), &mut used), "buffer_a_2");
    assert_eq!(make_unique_name("buffer_a".to_string(), &mut used), "buffer_a_3");
    assert_eq!(used.len(), 3);
}

#[test]
fn file_names_of_asset_urls() {
    assert_eq!(derive_filename("/media/foo/tex0.png", "image_ch0", "png"), "tex0.png");
    assert_eq!(derive_filename("https://www.shadertoy.com/media/a/b.jpg?x=1", "image_ch0", "png"), "b.jpg");
    assert_eq!(derive_filename("https://www.shadertoy.com/", "Image CH0", ".png"), "image_ch0.png");
}

#[test]
fn pass_kinds_by_name() {
    assert_eq!(map_pass_kind("Image"), Ok(PassKind::Image));
    assert_eq!(map_pass_kind("buffer"), Ok(PassKind::Buffer));
    assert!(map_pass_kind("webcam").is_err());
}

use wallshader::shadertoy::remote::{check_api_key, check_shader_id, media_url};
use wallshader::shadertoy::repository::{missing_pack_message, not_cached_message, remote_step, RemoteStep};

#[test]
fn media_urls_of_asset_references() {
    assert_eq!(media_url("/media/a/tex.png"), Ok("https://www.shadertoy.com/media/a/tex.png".to_string()));
    assert_eq!(media_url("//cdn.example.com/x.png"), Ok("https://cdn.example.com/x.png".to_string()));
    assert_eq!(media_url("https://example.com/y.png"), Ok("https://example.com/y.png".to_string()));
    assert_eq!(media_url("http://["), Err("resolving asset url 'http://['".to_string()));
}

#[test]
fn keys_and_ids_must_not_be_blank() {
    assert_eq!(check_api_key("  "), Err("Shadertoy API key must not be empty".to_string()));
    assert_eq!(check_api_key("abc"), Ok(()));
    assert_eq!(check_shader_id(""), Err("shader id must not be empty".to_string()));
}

#[test]
fn remote_shaders_come_from_cache_or_network() {
    assert_eq!(remote_step(true, true, true), RemoteStep::ClearAndFetch);
    assert_eq!(remote_step(true, false, true), RemoteStep::UseCache { refetch_if_invalid: true });
    assert_eq!(remote_step(true, false, false), RemoteStep::Fetch);
    assert_eq!(remote_step(false, true, true), RemoteStep::UseCache { refetch_if_invalid: false });
    assert_eq!(remote_step(false, false, false), RemoteStep::NotCached);
    assert_eq!(not_cached_message("abc", "/c/abc"), "no cached shader 'abc' found at /c/abc");
    assert_eq!(
        missing_pack_message("demo", &vec!["/a".to_string(), "/b".to_string()]),
        "unable to locate shader pack 'demo'. searched roots: [\"/a\", \"/b\"]"
    );
}

use wallshader::shadertoy::manifest::{ColorSpace, PassInput, ShaderPackManifest, ShaderPass, SurfaceAlpha};
use wallshader::shadertoy::pack::LocalPack;
use wallshader::shadertoy::repository::{load_entry_shader, ShaderRepository, ShaderSource};

#[test]
fn expands_environment_variables() {
    let resolver = PathResolver::with_env("/", vec![("SHADERTOY_PATH_TEST".to_string(), "value".to_string())]);
    let path = resolver.expand_path("/tmp/$SHADERTOY_PATH_TEST").unwrap();
    assert_eq!(PathBuf::from(path), PathBuf::from("/tmp/value"));
    let braced = resolver.expand_path("/tmp/${SHADERTOY_PATH_TEST}/x").unwrap();
    assert_eq!(braced, "/tmp/value/x");
}

fn demo_manifest() -> ShaderPackManifest {
    ShaderPackManifest {
        name: Some("demo".to_string()),
        entry: "image".to_string(),
        surface_alpha: SurfaceAlpha::Opaque,
        color_space: ColorSpace::Auto,
        description: None,
        tags: vec![],
        passes: vec![ShaderPass {
            name: "image".to_string(),
            kind: PassKind::Image,
            source: "image.glsl".to_string(),
            inputs: vec![PassInput {
                channel: 0,
                source: InputSource::Texture { path: "textures/tex0.png".to_string() },
            }],
        }],
    }
}

#[test]
fn local_packs_are_searched_under_each_root() {
    let repo = ShaderRepository::new(vec!["/a/shaders".to_string(), "/b/shaders".to_string()], "/c".to_string());
    assert_eq!(
        repo.local_pack_candidates("demo", false),
        Ok(vec!["/a/shaders/demo".to_string(), "/b/shaders/demo".to_string()])
    );
    assert_eq!(repo.local_pack_candidates("/abs/demo", false), Ok(vec!["/abs/demo".to_string()]));
    assert_eq!(repo.local_pack_candidates("", false), Err("shader pack path must not be empty".to_string()));
    assert_eq!(repo.remote_cache_dir("abc123"), "/c/abc123");
    let pack = LocalPack::from_parts("/a/shaders/demo".to_string(), demo_manifest()).expect("valid manifest");
    assert_eq!(pack.pass_source_path("image"), Some("/a/shaders/demo/image.glsl".to_string()));
    let entry = load_entry_shader(&ShaderSource::Local(pack)).unwrap();
    assert!(entry.ends_with("image.glsl"));
}

#[test]
fn buffer_inputs_are_found_by_pass_name_in_any_case() {
    let mut payload = sample_payload();
    payload.render_passes[1].inputs[0] = input(0, "buffer", None, Some("BUFFER A"));
    let plan = build_cache_plan(&payload).expect("plan");
    let image = plan.manifest.passes.iter().find(|p| p.name == "image").unwrap();
    assert!(matches!(image.inputs[0].source, InputSource::Buffer { ref name } if name == "buffer_a"));
    payload.render_passes[1].inputs[0] = input(0, "buffer", None, Some("nowhere"));
    assert_eq!(
        build_cache_plan(&payload).unwrap_err(),
        "pass 'Image' references buffer input with unknown target"
    );
}

#[test]
fn normalize_local_path_prefers_cwd_when_exists() {
    // `/tmp` exists on every machine the tests run on.
    let resolver = PathResolver::with_cwd("/");
    let normalized = resolver.normalize_local_path("tmp").unwrap();
    assert_eq!(normalized, "/tmp");
    let missing = resolver.normalize_local_path("no-such-pack-here").unwrap();
    assert_eq!(missing, "no-such-pack-here");
}

#[test]
fn detects_missing_shader_source() {
    let pack = LocalPack::from_parts("/no/such/pack/root".to_string(), demo_manifest()).expect("valid manifest");
    let err = wallshader::shadertoy::pack::ensure_glsl_sources(&pack).unwrap_err();
    assert!(matches!(err, wallshader::shadertoy::pack::PackError::ManifestValidation(ref m)
        if m == &vec!["missing shader source: /no/such/pack/root/image.glsl".to_string()]));
}

use wallshader::shadertoy::pack::{resolve_entry_source, PackError};
use wallshader::shadertoy::path::choose_local_path;

#[test]
fn local_paths_prefer_the_working_directory_when_present() {
    assert_eq!(choose_local_path("/w/pack".to_string(), "pack".to_string(), true), "/w/pack");
    assert_eq!(choose_local_path("/w/pack".to_string(), "pack".to_string(), false), "pack");
}

#[test]
fn pack_errors_have_their_messages() {
    let mut manifest = demo_manifest();
    manifest.entry = "image".to_string();
    let pack = LocalPack::from_parts("/p".to_string(), manifest).expect("valid manifest");
    assert_eq!(resolve_entry_source(&pack).unwrap(), "/p/image.glsl");
    assert_eq!(PackError::EntrySourceMissing.message(), "entry pass source not found");
    assert_eq!(PackError::ManifestMissing("/p/shader.toml".to_string()).message(), "manifest not found at /p/shader.toml");
    assert_eq!(
        PackError::ManifestValidation(vec!["missing shader source: /p/a.glsl".to_string()]).message(),
        "manifest validation failed: [\"missing shader source: /p/a.glsl\"]"
    );
}

#[test]
fn source_check_follows_the_disk_answers() {
    let pack = LocalPack::from_parts("/p".to_string(), demo_manifest()).expect("valid manifest");
    assert_eq!(wallshader::shadertoy::pack::sources_given(&pack, &[true]).unwrap(), vec!["/p/image.glsl".to_string()]);
    let err = wallshader::shadertoy::pack::sources_given(&pack, &[false]).unwrap_err();
    assert_eq!(err.message(), "manifest validation failed: [\"missing shader source: /p/image.glsl\"]");
}

#[test]
fn normalized_references_normalize_to_themselves() {
    for input in ["  abc123 ", "shadertoy:// abc123", "https://www.shadertoy.com/view/abc123?x=1"] {
        let once = wallshader::shadertoy::handle::normalize_shadertoy_reference(input).unwrap();
        let twice = wallshader::shadertoy::handle::normalize_shadertoy_reference(&once).unwrap();
        assert_eq!(once, "shadertoy://abc123");
        assert_eq!(twice, once);
    }
}
