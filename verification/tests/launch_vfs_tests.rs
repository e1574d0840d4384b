use yammm::launch_vfs::{build_client_vfs, build_mod_vfs, build_server_vfs, collect_mod_jars, populate_config_vfs, DirSource, ModJar};
use yammm::vfs::{SourceEntry, VfsEntry, VfsTree};

fn jar(name: &str, path: Option<&str>) -> ModJar {
    ModJar { name: name.to_string(), jar: path.map(|p| p.to_string()) }
}

fn file(rel: &str, src: &str) -> SourceEntry {
    SourceEntry { relative: rel.to_string(), source: src.to_string(), is_dir: false }
}

fn dir(rel: &str, src: &str) -> SourceEntry {
    SourceEntry { relative: rel.to_string(), source: src.to_string(), is_dir: true }
}

fn source_of(tree: &VfsTree, path: &str) -> Option<String> {
    match tree.entry(path) {
        Some(VfsEntry::File { source }) => Some(source),
        _ => None,
    }
}

fn missing() -> DirSource {
    DirSource { exists: false, listing: Vec::new() }
}

#[test]
fn mod_tree_links_cached_jars_by_slug() {
    let mods = vec![jar("Sodium Extra!", Some("/cache/ab12")), jar("Lithium", None)];
    let tree = build_mod_vfs(&mods, &[], &missing());
    assert_eq!(source_of(&tree, "mods/sodium-extra.jar"), Some("/cache/ab12".to_string()));
    assert_eq!(tree.child_names("mods"), vec!["sodium-extra.jar"]);
    assert!(matches!(tree.entry("config"), Some(VfsEntry::Dir)));
}

#[test]
fn later_config_directories_win() {
    let configs = vec![
        DirSource { exists: true, listing: vec![file("a.toml", "/store/a/config/a.toml")] },
        missing(),
        DirSource { exists: true, listing: vec![dir("sub", "/pack/config/sub"), file("a.toml", "/pack/config/a.toml")] },
    ];
    let tree = build_server_vfs(&[], &configs, &missing());
    assert_eq!(source_of(&tree, "config/a.toml"), Some("/pack/config/a.toml".to_string()));
    assert!(matches!(tree.entry("config/sub"), Some(VfsEntry::Dir)));
}

#[test]
fn populate_config_skips_missing_directories() {
    let mut tree = VfsTree::new();
    populate_config_vfs(&mut tree, "config", &[missing()]);
    assert!(tree.entry("config").is_none());
}

#[test]
fn resources_are_mirrored_at_the_top() {
    let resources = DirSource { exists: true, listing: vec![file("options.txt", "/pack/resources/client/options.txt")] };
    let tree = build_mod_vfs(&[], &[], &resources);
    assert_eq!(source_of(&tree, "./options.txt"), Some("/pack/resources/client/options.txt".to_string()));
    assert!(tree.entry("options.txt").is_none());
}

#[test]
fn client_tree_adds_packs() {
    let rp = DirSource { exists: true, listing: vec![file("faithful.zip", "/pack/resourcepacks/faithful.zip")] };
    let sp = missing();
    let tree = build_client_vfs(&[], &[], &missing(), &rp, &sp);
    assert_eq!(source_of(&tree, "resourcepacks/faithful.zip"), Some("/pack/resourcepacks/faithful.zip".to_string()));
    assert!(tree.entry("shaderpacks").is_none());
}

#[test]
fn collect_jars_keeps_cached_in_order() {
    let mods = vec![jar("a", Some("/c/1")), jar("b", None), jar("c", Some("/c/3"))];
    assert_eq!(collect_mod_jars(&mods), vec!["/c/1".to_string(), "/c/3".to_string()]);
}
