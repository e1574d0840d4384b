use yammm::config::ModpackManifest;
use yammm::export::project_file_copies;
use yammm::mrpack::{build_mrpack_hashes, export_extension, mrpack_dir_prefix, MrpackEnv};
use yammm::types::TrackedMod;
use yammm::mrpack_import::{
    import_entry_step, ImportAction, ImportTally,
    content_type_for_path, entry_filename, import_env, imported_tracked_mod, is_fabric_only,
    import_output_dir, is_ympk_entry, loader_categories, merge_index_metadata, merge_ympk_manifest,
    mrpack_import_summary, override_target, preferred_hash, search_hit_matches,
    should_try_connector, unresolved_import,
};
use yammm::types::{HashType, LoaderType, ModEnv, ModSource, ProjectType};

fn s(v: &[&str]) -> Vec<String> {
    v.iter().map(|x| x.to_string()).collect()
}

#[test]
fn content_type_by_directory() {
    assert_eq!(content_type_for_path("resourcepacks/faithful.zip"), ProjectType::ResourcePack);
    assert_eq!(content_type_for_path("shaderpacks/bsl.zip"), ProjectType::Shader);
    assert_eq!(content_type_for_path("mods/sodium.jar"), ProjectType::Mod);
    assert_eq!(content_type_for_path("resourcepacks"), ProjectType::Mod);
}

#[test]
fn sha512_preferred_and_empty_ignored() {
    let (h, t) = preferred_hash(&Some("abc".to_string()), &Some("def".to_string()));
    assert_eq!((h.as_deref(), t), (Some("abc"), HashType::Sha512));
    let (h, t) = preferred_hash(&Some(String::new()), &Some("def".to_string()));
    assert_eq!((h.as_deref(), t), (Some("def"), HashType::Sha1));
    let (h, _) = preferred_hash(&None, &Some(String::new()));
    assert!(h.is_none());
}

#[test]
fn filename_is_last_segment() {
    assert_eq!(entry_filename("mods/sodium-0.5.jar"), "sodium-0.5.jar");
    assert_eq!(entry_filename("plain.jar"), "plain.jar");
}

#[test]
fn unresolved_entry_is_named_from_path() {
    let m = unresolved_import(
        &s(&["https://cdn.modrinth.com/data/AbCd/versions/1/Cool Mod-1.2.3.jar"]),
        "mods/Cool Mod-1.2.3.jar",
        &None,
        &Some("ff".to_string()),
    );
    assert_eq!(m.name, "Cool Mod");
    assert_eq!(m.slug, "cool-mod");
    assert_eq!(m.version, "1.2.3");
    assert!(matches!(m.source, ModSource::Modrinth { ref id } if id == "AbCd"));
    assert_eq!(m.hash.as_deref(), Some("ff"));
    assert_eq!(m.hash_type, HashType::Sha1);
    assert!(m.unresolved);
    assert_eq!(m.env, ModEnv::Both);
}

#[test]
fn fabric_only_and_connector() {
    assert!(is_fabric_only(&s(&["fabric", "quilt"])));
    assert!(!is_fabric_only(&s(&["fabric", "forge"])));
    assert!(!is_fabric_only(&s(&["quilt"])));
    assert!(should_try_connector(Some(LoaderType::NeoForge), true));
    assert!(!should_try_connector(Some(LoaderType::Fabric), true));
    assert!(!should_try_connector(Some(LoaderType::Forge), false));
}

#[test]
fn entry_env_overrides_lookup() {
    let env = MrpackEnv {
        client: "unsupported".to_string(),
        server: "required".to_string(),
    };
    assert_eq!(import_env(&Some(env), ModEnv::Client), ModEnv::Server);
    assert_eq!(import_env(&None, ModEnv::Client), ModEnv::Client);
}

#[test]
fn tracked_record_of_import() {
    let m = unresolved_import(&[], "mods/x-1.0.jar", &None, &None);
    let t = imported_tracked_mod(&m, "https://dl/x.jar", ProjectType::Mod, ModEnv::Client, Some("x-1.0.jar".to_string()), true);
    assert_eq!(t.id, "x");
    assert_eq!(t.download_url, "https://dl/x.jar");
    assert_eq!(t.filename.as_deref(), Some("x-1.0.jar"));
    assert!(t.connector_compat && t.unresolved);
    assert!(matches!(t.source, ModSource::Modrinth { ref id } if id == "x"));
}

#[test]
fn metadata_fills_only_empty_fields() {
    let mut m = ModpackManifest::new();
    m.name = "Mine".to_string();
    let deps = vec![("minecraft".to_string(), "1.20.1".to_string())];
    let updated = merge_index_metadata(&mut m, "Theirs", "2.0", &Some("Desc".to_string()), &deps);
    assert!(updated);
    assert_eq!(m.name, "Mine");
    assert_eq!(m.version, "2.0");
    assert_eq!(m.description, "Desc");
    assert_eq!(m.minecraft_version, "1.20.1");
    let again = merge_index_metadata(&mut m, "Theirs", "3.0", &None, &deps);
    assert!(!again);
}

#[test]
fn search_hits() {
    assert!(search_hit_matches("sodium", "Sodium", "sodium"));
    assert!(search_hit_matches("Sodium", "x", "sodium"));
    assert!(search_hit_matches("other", "Fabric-API", "fabric-api"));
    assert!(!search_hit_matches("iris", "Iris Shaders", "sodium"));
    assert_eq!(loader_categories(&s(&["optimization", "fabric", "quilt", "library"])), s(&["fabric", "quilt"]));
}

#[test]
fn override_entry_lands_under_root() {
    let t = override_target(
        "overrides/config/a.txt",
        "overrides",
        "/pack",
        Some("overrides/config/a.txt"),
    );
    assert_eq!(t.as_deref(), Some("/pack/config/a.txt"));
    let t = override_target(
        "overrides\\config\\b.txt",
        "overrides",
        "/pack",
        Some("overrides/config/b.txt"),
    );
    assert_eq!(t.as_deref(), Some("/pack/config/b.txt"));
}

#[test]
fn override_outside_dir_or_unsafe_is_skipped() {
    assert!(override_target("mods/a.jar", "overrides", "/pack", Some("mods/a.jar")).is_none());
    assert!(override_target("overrides/", "overrides", "/pack", Some("overrides")).is_none());
    assert!(override_target("overrides/x/", "overrides", "/pack", Some("overrides/x")).is_none());
    assert!(override_target("overrides/../../etc", "overrides", "/pack", None).is_none());
    let t = override_target(
        "client-overrides/options.txt",
        "client-overrides",
        "/pack",
        Some("client-overrides/options.txt"),
    );
    assert_eq!(t.as_deref(), Some("/pack/options.txt"));
}

#[test]
fn output_dir_preference() {
    let d = import_output_dir(&Some("out".to_string()), &Some("/open".to_string()), "stem");
    assert_eq!(d, "out");
    let d = import_output_dir(&None, &Some("/open".to_string()), "stem");
    assert_eq!(d, "/open");
    assert_eq!(import_output_dir(&None, &None, "stem"), "stem");
}

#[test]
fn ympk_entries_are_recognised() {
    assert!(is_ympk_entry("mods/sodium/entry.ron", "mods"));
    assert!(is_ympk_entry("mods\\sodium\\entry.ron", "mods"));
    assert!(!is_ympk_entry("mods/sodium/other.ron", "mods"));
    assert!(!is_ympk_entry("shaders/bsl/entry.ron", "mods"));
}

#[test]
fn ympk_manifest_fills_only_blanks() {
    let mut m = ModpackManifest::new();
    m.version = "1.0".to_string();
    let mut imported = ModpackManifest::new();
    imported.name = "Pack".to_string();
    imported.version = "9.9".to_string();
    imported.description = "About".to_string();
    merge_ympk_manifest(&mut m, &imported);
    assert_eq!(m.name, "Pack");
    assert_eq!(m.version, "1.0");
    assert_eq!(m.description, "About");
}

#[test]
fn import_summary_line() {
    assert_eq!(
        mrpack_import_summary(3, 1, 2),
        "Import complete: 3 added, 1 skipped, 2 unresolved"
    );
}

fn pack_item(name: &str, t: ProjectType) -> TrackedMod {
    TrackedMod {
        id: name.to_lowercase(),
        name: name.to_string(),
        description: String::new(),
        version: "1".to_string(),
        source: ModSource::modrinth(name),
        dependencies: Vec::new(),
        url: String::new(),
        download_url: String::new(),
        hash: None,
        hash_type: HashType::Sha1,
        project_type: t,
        env: ModEnv::Both,
        categories: Vec::new(),
        filename: None,
        unresolved: false,
        connector_compat: false,
    }
}

#[test]
fn exported_paths_import_as_their_type() {
    for t in [ProjectType::Mod, ProjectType::ResourcePack, ProjectType::Shader] {
        let items = vec![pack_item("Some Pack", t)];
        let cached = vec![Some("/c/x".to_string())];
        let out = project_file_copies(&items, &cached, mrpack_dir_prefix(t), export_extension(t));
        assert_eq!(content_type_for_path(&out[0].entry), t);
    }
}

#[test]
fn exported_hashes_import_back() {
    let mut m = pack_item("Sodium", ProjectType::Mod);
    m.hash = Some("b".repeat(128));
    m.hash_type = HashType::Sha512;
    let h = build_mrpack_hashes(&m, Some("a".repeat(40)));
    assert_eq!(preferred_hash(&h.sha512, &h.sha1), (Some("b".repeat(128)), HashType::Sha512));
    m.hash = Some("c".repeat(40));
    m.hash_type = HashType::Sha1;
    let h = build_mrpack_hashes(&m, None);
    assert_eq!(preferred_hash(&h.sha512, &h.sha1), (Some("c".repeat(40)), HashType::Sha1));
}

#[test]
fn exported_file_names_import_back() {
    let mut recorded = pack_item("Sodium", ProjectType::Mod);
    recorded.filename = Some("sodium-fabric-0.5.8.jar".to_string());
    let plain = pack_item("Iris Shaders", ProjectType::Mod);
    let items = vec![recorded, plain];
    let cached = vec![Some("/c/1".to_string()), Some("/c/2".to_string())];
    let out = project_file_copies(&items, &cached, "mods", ".jar");
    assert_eq!(entry_filename(&out[0].entry), "sodium-fabric-0.5.8.jar");
    assert_eq!(entry_filename(&out[1].entry), "iris-shaders.jar");
}

#[test]
fn import_steps_count_added_skipped_and_unresolved() {
    let t0 = ImportTally { added: 0, skipped: 0, unresolved: 0 };
    let (a, t1) = import_entry_step(t0, false, false, &ModSource::modrinth("sodium"));
    assert_eq!(a, ImportAction::Save { unresolved: false, resolve_deps: true });
    let (a, t2) = import_entry_step(t1, true, false, &ModSource::modrinth("sodium"));
    assert_eq!(a, ImportAction::Skip);
    let (a, t3) = import_entry_step(t2, false, true, &ModSource::modrinth("mystery"));
    assert_eq!(a, ImportAction::Save { unresolved: true, resolve_deps: false });
    let (a, t4) = import_entry_step(t3, false, false, &ModSource::url("https://example.com/x.jar"));
    assert_eq!(a, ImportAction::Save { unresolved: false, resolve_deps: false });
    assert_eq!(t4, ImportTally { added: 3, skipped: 1, unresolved: 1 });
}
