use yammm::vfs::{SourceEntry, VfsEntry, VfsTree};

#[test]
fn test_empty_tree_root_is_dir_with_no_children() {
    let tree = VfsTree::new();
    assert!(matches!(tree.root(), VfsEntry::Dir));
    assert!(tree.child_names("").is_empty());
}

#[test]
fn test_add_file_at_root() {
    let mut tree = VfsTree::new();
    tree.add_file("a.jar", "/src/a.jar");
    let names = tree.child_names("");
    assert_eq!(names, vec!["a.jar"]);
    match tree.entry("a.jar").unwrap() {
        VfsEntry::File { source } => assert_eq!(source, "/src/a.jar"),
        _ => panic!("expected file at a.jar"),
    }
}

#[test]
fn test_add_file_creates_intermediate_dirs() {
    let mut tree = VfsTree::new();
    tree.add_file("mods/sodium.jar", "/cache/sodium.jar");
    let mods = tree.entry("mods").expect("mods dir not created");
    assert!(matches!(mods, VfsEntry::Dir));
    assert!(matches!(tree.entry("mods/sodium.jar"), Some(VfsEntry::File { .. })));
}

#[test]
fn test_add_file_overwrites_at_same_path() {
    let mut tree = VfsTree::new();
    tree.add_file("a.jar", "/src/v1.jar");
    tree.add_file("a.jar", "/src/v2.jar");
    match tree.entry("a.jar").unwrap() {
        VfsEntry::File { source } => {
            assert_eq!(source, "/src/v2.jar", "last add at same path wins")
        }
        _ => panic!("expected file"),
    }
}

#[test]
fn test_add_dir_only() {
    let mut tree = VfsTree::new();
    tree.add_dir("config/overrides");
    let config = tree.entry("config").expect("config dir");
    assert!(matches!(config, VfsEntry::Dir));
    let overrides = tree.entry("config/overrides").expect("overrides dir");
    assert!(matches!(overrides, VfsEntry::Dir));
}

#[test]
fn test_add_dir_from_source_missing_dir_is_noop() {
    let mut tree = VfsTree::new();
    tree.add_dir_from_source("nope", false, &[]);
    assert!(tree.child_names("").is_empty());
}

#[test]
fn test_add_dir_from_source_mirrors_real_tree() {
    let listing = vec![
        SourceEntry {
            relative: "a.txt".to_string(),
            source: "/src/a.txt".to_string(),
            is_dir: false,
        },
        SourceEntry {
            relative: "sub".to_string(),
            source: "/src/sub".to_string(),
            is_dir: true,
        },
        SourceEntry {
            relative: "sub/b.txt".to_string(),
            source: "/src/sub/b.txt".to_string(),
            is_dir: false,
        },
    ];
    let mut tree = VfsTree::new();
    tree.add_dir_from_source("data", true, &listing);
    assert!(matches!(tree.entry("data"), Some(VfsEntry::Dir)));
    assert!(matches!(tree.entry("data/a.txt"), Some(VfsEntry::File { .. })));
    assert!(matches!(tree.entry("data/sub"), Some(VfsEntry::Dir)));
    assert!(matches!(tree.entry("data/sub/b.txt"), Some(VfsEntry::File { .. })));
}

// Own tests.

#[test]
fn file_in_the_way_stops_the_walk() {
    let mut tree = VfsTree::new();
    tree.add_file("mods", "/src/mods-file");
    tree.add_file("mods/a.jar", "/src/a.jar");
    tree.add_dir("mods/sub");
    assert!(matches!(tree.entry("mods"), Some(VfsEntry::File { .. })));
    assert!(tree.entry("mods/a.jar").is_none());
    assert!(tree.entry("mods/sub").is_none());
}

#[test]
fn file_replaces_directory_and_its_contents() {
    let mut tree = VfsTree::new();
    tree.add_file("config/a.toml", "/src/a.toml");
    tree.add_file("config", "/src/config-file");
    assert!(matches!(tree.entry("config"), Some(VfsEntry::File { .. })));
    assert!(tree.entry("config/a.toml").is_none());
    assert_eq!(tree.child_names(""), vec!["config"]);
}

#[test]
fn children_are_listed_once() {
    let mut tree = VfsTree::new();
    tree.add_dir("mods");
    tree.add_file("mods/a.jar", "/a");
    tree.add_file("mods/b.jar", "/b");
    tree.add_dir("mods");
    let mut names = tree.child_names("mods");
    names.sort();
    assert_eq!(names, vec!["a.jar", "b.jar"]);
}
