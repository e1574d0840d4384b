use yammm::config::ModpackManifest;
use yammm::errors::YammmError;
use yammm::info::{
    counted_heading, display_mod, item_line, list_heading, mod_table_row, overview_rows, tree_lines,
    verbose_item_parts, TreeLine,
};
use yammm::types::{Dependency, DependencyKind, HashType, LoaderType, ModEnv, ModSource, ProjectType, TrackedMod};

fn item(id: &str, cats: &[&str], deps: &[(&str, DependencyKind)]) -> TrackedMod {
    TrackedMod {
        id: id.to_string(),
        name: id.to_uppercase(),
        description: String::new(),
        version: "1.2".to_string(),
        source: ModSource::modrinth(id),
        dependencies: deps
            .iter()
            .map(|(d, k)| Dependency { mod_id: d.to_string(), source: ModSource::modrinth(d), kind: *k })
            .collect(),
        url: String::new(),
        download_url: String::new(),
        hash: None,
        hash_type: HashType::Sha1,
        project_type: ProjectType::Mod,
        env: ModEnv::Both,
        categories: cats.iter().map(|c| c.to_string()).collect(),
        filename: None,
        unresolved: false,
        connector_compat: false,
    }
}

fn pack() -> ModpackManifest {
    let mut m = ModpackManifest::new();
    m.name = "Pack".to_string();
    m.minecraft_version = "1.20.1".to_string();
    m.loader.loader = Some(LoaderType::Fabric);
    m.loader.version = "0.15.0".to_string();
    m
}

#[test]
fn overview_and_headings() {
    let rows = overview_rows(&pack(), 3, 1, 0);
    assert_eq!(rows[0], ("Minecraft".to_string(), "1.20.1".to_string()));
    assert_eq!(rows[1], ("Loader".to_string(), "fabric 0.15.0".to_string()));
    assert_eq!(rows[2].1, "3");
    assert_eq!(rows[4], ("Shader Packs".to_string(), "0".to_string()));
    assert_eq!(list_heading(&pack()), "Pack - MC 1.20.1 with fabric 0.15.0");
    assert_eq!(counted_heading("Mods", 3), "Mods (3)");
    let none = ModpackManifest::new();
    assert_eq!(overview_rows(&none, 0, 0, 0)[1].1, " ");
}

#[test]
fn item_lines_and_rows() {
    let m = item("sodium", &["perf", "client"], &[]);
    assert_eq!(item_line(&m), "SODIUM v1.2");
    assert_eq!(mod_table_row(&m), vec!["SODIUM", "1.2", "both", "Modrinth", "perf, client"]);
    assert_eq!(verbose_item_parts(&m), vec!["SODIUM", "v1.2", "both", "[Modrinth]", "[perf, client]"]);
    assert_eq!(verbose_item_parts(&item("x", &[], &[])).len(), 4);
}

#[test]
fn mod_details_and_missing_mod() {
    let mut m = item("sodium", &[], &[]);
    m.description = "Fast".to_string();
    m.hash = Some("a".repeat(40));
    let store = vec![item("iris", &[], &[]), m];
    let rows = display_mod(&store, "sodium").unwrap();
    let labels: Vec<&str> = rows.iter().map(|r| r.0.as_str()).collect();
    assert_eq!(labels, vec!["ID", "Name", "Version", "Env", "Source", "Description", "Hash"]);
    assert_eq!(rows[6].1, format!("{}\u{2026}", "a".repeat(32)));
    assert!(matches!(
        display_mod(&store, "lithium"),
        Err(YammmError::ModNotFound(m)) if m == "Mod 'lithium' not found in mods, resourcepacks, or shaderpacks"
    ));
}

#[test]
fn dependency_tree_lines() {
    let mods = vec![
        item("iris", &["shaders"], &[("sodium", DependencyKind::Required), ("indium", DependencyKind::Optional)]),
        item("sodium", &[], &[]),
    ];
    let lines = tree_lines(&mods);
    assert_eq!(lines.len(), 4);
    match &lines[0] {
        TreeLine::Mod { branch, categories, .. } => {
            assert_eq!(branch, "\u{251c}\u{2500}\u{2500} ");
            assert_eq!(categories.as_deref(), Some("[shaders]"));
        },
        _ => panic!(),
    }
    match &lines[2] {
        TreeLine::Dep { indent, branch, id, kind } => {
            assert_eq!(indent, "\u{2502}   ");
            assert_eq!(branch, "\u{2514}\u{2500}\u{2500} ");
            assert_eq!((id.as_str(), kind.as_str()), ("indium", "optional"));
        },
        _ => panic!(),
    }
    match &lines[3] {
        TreeLine::Mod { branch, categories, .. } => {
            assert_eq!(branch, "\u{2514}\u{2500}\u{2500} ");
            assert!(categories.is_none());
        },
        _ => panic!(),
    }
}
