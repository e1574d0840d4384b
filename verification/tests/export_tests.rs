use yammm::export::{export_project_type_to_ympk, project_file_copies};
use yammm::types::{HashType, ModEnv, ModSource, ProjectType, TrackedMod};

fn item(id: &str, name: &str, filename: Option<&str>) -> TrackedMod {
    TrackedMod {
        id: id.to_string(),
        name: name.to_string(),
        description: String::new(),
        version: "1.0".to_string(),
        source: ModSource::modrinth(id),
        dependencies: Vec::new(),
        url: String::new(),
        download_url: String::new(),
        hash: Some("abc".to_string()),
        hash_type: HashType::Sha1,
        project_type: ProjectType::Mod,
        env: ModEnv::Both,
        categories: Vec::new(),
        filename: filename.map(|f| f.to_string()),
        unresolved: false,
        connector_compat: false,
    }
}

#[test]
fn mrpack_copies_use_recorded_name_or_slug() {
    let items = vec![
        item("sodium", "Sodium", Some("sodium-0.5.jar")),
        item("lithium", "Lithium", None),
        item("iris", "Iris Shaders", None),
    ];
    let cached = vec![Some("/cache/1".to_string()), None, Some("/cache/3".to_string())];
    let out = project_file_copies(&items, &cached, "mods", ".jar");
    assert_eq!(out.len(), 2);
    assert_eq!(out[0].source, "/cache/1");
    assert_eq!(out[0].entry, "mods/sodium-0.5.jar");
    assert_eq!(out[1].source, "/cache/3");
    assert_eq!(out[1].entry, "mods/iris-shaders.jar");
}

#[test]
fn ympk_files_hold_entries_then_jars() {
    let items = vec![item("sodium", "Sodium", Some("ignored.jar")), item("faithful", "Faithful 32x", None)];
    let entries = vec![Some("/store/mods/sodium.ron".to_string()), None];
    let cached = vec![Some("/cache/1".to_string()), Some("/cache/2".to_string())];
    let out = export_project_type_to_ympk(&items, &entries, &cached, "mods", ".jar");
    let entries_out: Vec<&str> = out.iter().map(|f| f.entry.as_str()).collect();
    assert_eq!(entries_out, vec!["mods/sodium/entry.ron", "mods/sodium.jar", "mods/faithful-32x.jar"]);
    assert_eq!(out[0].source, "/store/mods/sodium.ron");
    assert_eq!(out[2].source, "/cache/2");
}
