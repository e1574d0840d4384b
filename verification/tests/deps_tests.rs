use yammm::deps::{
    build_dep_tree, cleanup_stale_deps_after_remove, find_mod_by_source, find_reverse_dependents,
    flatten_dep_tree,
};
use yammm::types::{Dependency, DependencyKind, HashType, ModEnv, ModSource, ProjectType, TrackedMod};

fn recorded(id: &str, deps: Vec<Dependency>) -> TrackedMod {
    TrackedMod {
        id: id.to_string(),
        name: format!("{} name", id),
        description: String::new(),
        version: "1.0".to_string(),
        source: ModSource::modrinth(id),
        dependencies: deps,
        url: String::new(),
        download_url: String::new(),
        hash: None,
        hash_type: HashType::Sha1,
        project_type: ProjectType::Mod,
        env: ModEnv::Both,
        categories: Vec::new(),
        filename: None,
        unresolved: false,
        connector_compat: false,
    }
}

fn dep(id: &str, kind: DependencyKind) -> Dependency {
    Dependency {
        mod_id: id.to_string(),
        source: ModSource::modrinth(id),
        kind,
    }
}

#[test]
fn tree_follows_recorded_dependencies() {
    let store = vec![
        recorded("a", vec![dep("b", DependencyKind::Required), dep("Missing Mod", DependencyKind::Optional)]),
        recorded("b", vec![]),
    ];
    let tree = build_dep_tree(&store, "a", &ModSource::modrinth("a"), 5);
    assert_eq!(tree.len(), 1);
    let root = &tree[0];
    assert!(root.installed);
    assert_eq!(root.name, "a name");
    assert!(root.kind.is_none());
    assert_eq!(root.children.len(), 2);
    assert_eq!(root.children[0].mod_id, "b");
    assert_eq!(root.children[0].kind, Some(DependencyKind::Required));
    assert_eq!(root.children[1].mod_id, "missing-mod");
    assert!(!root.children[1].installed);
    assert_eq!(root.children[1].name, "missing-mod");
    assert_eq!(root.children[1].version, "");
}

#[test]
fn cycles_and_depth_are_cut() {
    let store = vec![
        recorded("a", vec![dep("b", DependencyKind::Required)]),
        recorded("b", vec![dep("a", DependencyKind::Required)]),
    ];
    let tree = build_dep_tree(&store, "a", &ModSource::modrinth("a"), 10);
    assert_eq!(tree[0].children.len(), 1);
    assert!(tree[0].children[0].children.is_empty());
    let shallow = build_dep_tree(&store, "a", &ModSource::modrinth("a"), 1);
    assert!(shallow[0].children.is_empty());
    assert!(build_dep_tree(&store, "a", &ModSource::modrinth("a"), 0).is_empty());
}

#[test]
fn lookup_needs_matching_source() {
    let store = vec![recorded("a", vec![])];
    assert_eq!(find_mod_by_source(&store, "a", &ModSource::modrinth("a")), Some(0));
    assert_eq!(find_mod_by_source(&store, "a", &ModSource::curseforge("a")), None);
}

#[test]
fn flatten_indents_children() {
    let store = vec![
        recorded("a", vec![dep("b", DependencyKind::Required)]),
        recorded("b", vec![dep("c", DependencyKind::Embedded)]),
    ];
    let tree = build_dep_tree(&store, "a", &ModSource::modrinth("a"), 5);
    let rows = flatten_dep_tree(&tree, 0);
    let shape: Vec<(String, usize)> = rows.iter().map(|r| (r.mod_id.clone(), r.indent)).collect();
    assert_eq!(
        shape,
        vec![("a".to_string(), 0), ("b".to_string(), 1), ("c".to_string(), 2)]
    );
}

#[test]
fn reverse_dependents_in_store_order() {
    let store = vec![
        recorded("a", vec![dep("c", DependencyKind::Required)]),
        recorded("b", vec![]),
        recorded("d", vec![dep("b", DependencyKind::Optional), dep("c", DependencyKind::Optional)]),
    ];
    let r = find_reverse_dependents(&store, "c", &ModSource::modrinth("c"));
    assert_eq!(
        r,
        vec![
            ("a".to_string(), "a name".to_string()),
            ("d".to_string(), "d name".to_string())
        ]
    );
    assert!(find_reverse_dependents(&store, "c", &ModSource::curseforge("c")).is_empty());
}

#[test]
fn cleanup_drops_edges_to_removed_mod() {
    let mut store = vec![
        recorded("a", vec![dep("c", DependencyKind::Required), dep("b", DependencyKind::Required)]),
        recorded("b", vec![]),
    ];
    let changed = cleanup_stale_deps_after_remove(&mut store, "c", &ModSource::modrinth("c"));
    assert_eq!(changed, vec![0]);
    assert_eq!(store[0].dependencies.len(), 1);
    assert_eq!(store[0].dependencies[0].mod_id, "b");
    assert!(cleanup_stale_deps_after_remove(&mut store, "c", &ModSource::modrinth("c")).is_empty());
}
