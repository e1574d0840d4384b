use yammm::commands::{ExportCommand, ExportFormat};
use yammm::config::{LoaderConfig, ModpackManifest};
use yammm::errors::YammmError;
use yammm::mrpack::{
    build_mrpack_hashes, collect_mrpack_files, mod_env_to_mrpack, mrpack_dir_prefix,
    mrpack_env_to_mod_env, slugify, MrpackEnv, MrpackIndex,
};
use yammm::types::{HashType, LoaderType, ModEnv, ModSource, ProjectType, TrackedMod};

fn fixture_tracked_mod() -> TrackedMod {
    TrackedMod {
        id: "sodium".to_string(),
        name: "Sodium".to_string(),
        description: String::new(),
        version: "0.5.0".to_string(),
        source: ModSource::modrinth("sodium"),
        dependencies: Vec::new(),
        url: String::new(),
        download_url: "https://example.com/sodium.jar".to_string(),
        hash: Some("a".repeat(40)),
        hash_type: HashType::Sha1,
        project_type: ProjectType::Mod,
        env: ModEnv::Client,
        categories: Vec::new(),
        filename: Some("sodium.jar".to_string()),
        unresolved: false,
        connector_compat: false,
    }
}

fn fixture_manifest() -> ModpackManifest {
    ModpackManifest {
        name: "Golden Pack".to_string(),
        description: "Fixture for golden test".to_string(),
        version: "1.0.0".to_string(),
        minecraft_version: "1.20.4".to_string(),
        loader: LoaderConfig {
            loader: Some(LoaderType::Fabric),
            version: "0.16.5".to_string(),
        },
        mod_path: None,
        resource_pack_path: None,
        shader_pack_path: None,
    }
}

#[test]
fn mrpack_index_fields_for_fixture_modpack() {
    let files = collect_mrpack_files(&[fixture_tracked_mod()], mrpack_dir_prefix(ProjectType::Mod), ".jar", &[0], &[None]);
    let index = MrpackIndex::from_modpack(&fixture_manifest(), files).unwrap();
    assert_eq!(index.format_version, 1);
    assert_eq!(index.game, "minecraft");
    assert_eq!(index.version_id, "1.0.0");
    assert_eq!(index.name, "Golden Pack");
    assert_eq!(index.summary.as_deref(), Some("Fixture for golden test"));
    assert_eq!(
        index.dependencies,
        vec![
            ("minecraft".to_string(), "1.20.4".to_string()),
            ("fabric-loader".to_string(), "0.16.5".to_string())
        ]
    );
    let f = &index.files[0];
    assert_eq!(f.path, "mods/sodium.jar");
    assert_eq!(f.hashes.sha1.as_deref(), Some("a".repeat(40).as_str()));
    assert!(f.hashes.sha256.is_none() && f.hashes.sha512.is_none());
    let env = f.env.as_ref().unwrap();
    assert_eq!((env.client.as_str(), env.server.as_str()), ("required", "unsupported"));
    assert_eq!(f.downloads, vec!["https://example.com/sodium.jar"]);
    assert_eq!(f.file_size, Some(0));
    assert!(f.loaders.is_none());
}

#[test]
fn from_modpack_requires_versions() {
    let mut m = fixture_manifest();
    m.minecraft_version = String::new();
    match MrpackIndex::from_modpack(&m, Vec::new()) {
        Err(YammmError::ConfigError(msg)) => assert!(msg.starts_with("Minecraft version is not set")),
        _ => panic!("expected a config error"),
    }
    let mut m = fixture_manifest();
    m.loader.version = String::new();
    match MrpackIndex::from_modpack(&m, Vec::new()) {
        Err(YammmError::ConfigError(msg)) => assert!(msg.starts_with("Loader version is not set")),
        _ => panic!("expected a config error"),
    }
}

#[test]
fn from_modpack_defaults() {
    let mut m = fixture_manifest();
    m.version = String::new();
    m.description = String::new();
    m.loader.loader = None;
    let index = MrpackIndex::from_modpack(&m, Vec::new()).unwrap();
    assert_eq!(index.version_id, "1.0.0");
    assert!(index.summary.is_none());
    assert_eq!(index.dependencies[1].0, "fabric-loader");
}

#[test]
fn env_roundtrip() {
    for env in [ModEnv::Both, ModEnv::Client, ModEnv::Server] {
        assert_eq!(mrpack_env_to_mod_env(&mod_env_to_mrpack(&env)), env);
    }
    let optional_server = MrpackEnv {
        client: "required".to_string(),
        server: "optional".to_string(),
    };
    assert_eq!(mrpack_env_to_mod_env(&optional_server), ModEnv::Client);
    let odd = MrpackEnv {
        client: "optional".to_string(),
        server: "optional".to_string(),
    };
    assert_eq!(mrpack_env_to_mod_env(&odd), ModEnv::Both);
}

#[test]
fn hashes_carry_computed_sha1_for_other_algorithms() {
    let mut m = fixture_tracked_mod();
    m.hash_type = HashType::Sha512;
    m.hash = Some("f".repeat(128));
    let h = build_mrpack_hashes(&m, Some("b".repeat(40)));
    assert_eq!(h.sha1, Some("b".repeat(40)));
    assert_eq!(h.sha512, Some("f".repeat(128)));
    assert!(h.sha256.is_none());
    m.hash = None;
    let h = build_mrpack_hashes(&m, Some("b".repeat(40)));
    assert!(h.sha1.is_none() && h.sha512.is_none());
}

#[test]
fn entry_without_filename_uses_slug() {
    let mut m = fixture_tracked_mod();
    m.filename = None;
    m.name = "Sodium Extra!".to_string();
    m.download_url = String::new();
    m.hash = None;
    m.connector_compat = true;
    let files = collect_mrpack_files(&[m], "resourcepacks", ".zip", &[42], &[None]);
    assert_eq!(files[0].path, "resourcepacks/sodium-extra.zip");
    assert!(files[0].downloads.is_empty());
    assert_eq!(files[0].file_size, None);
    assert_eq!(files[0].loaders, Some(vec!["fabric".to_string()]));
}

#[test]
fn slugify_examples() {
    assert_eq!(slugify("My Cool Pack"), "my-cool-pack");
    assert_eq!(slugify("  --Hello__World--  "), "hello-world");
    assert_eq!(slugify(""), "");
}

#[test]
fn export_output_path() {
    let cmd = ExportCommand {
        format: ExportFormat::Ympk,
        output: None,
        yes: false,
    };
    assert_eq!(cmd.generate_output_path("My Pack", "1700000000"), "my-pack-1700000000.ympk");
    let cmd = ExportCommand {
        format: ExportFormat::Mrpack,
        output: Some("out/pack.mrpack".to_string()),
        yes: true,
    };
    assert_eq!(cmd.generate_output_path("My Pack", "1"), "out/pack.mrpack");
}
