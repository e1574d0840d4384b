use yammm::organize::{add_ignored, glob_match, is_ignored_config, select_orphans, IgnoredConfigs, ListedFile, OrganizeResult, Side};

fn list(v: &[&str]) -> Vec<String> {
    v.iter().map(|s| s.to_string()).collect()
}

#[test]
fn side_names() {
    assert_eq!(Side::Client.as_str(), "client");
    assert_eq!(Side::Server.as_str(), "server");
}

#[test]
fn glob_with_one_star() {
    assert!(glob_match("sodium*.json", "sodium-options.json"));
    assert!(!glob_match("sodium*.json", "iris.json"));
    assert!(glob_match("a*", "a"));
    assert!(glob_match("exact.txt", "exact.txt"));
    assert!(!glob_match("a*b*c", "abc"));
}

#[test]
fn ignore_by_name_path_or_glob() {
    let ignore = list(&["options.txt", "sub/x.toml", "logs/*.log"]);
    assert!(is_ignored_config(&ignore, "options.txt", "options.txt"));
    assert!(is_ignored_config(&ignore, "x.toml", "sub/x.toml"));
    assert!(is_ignored_config(&ignore, "latest.log", "logs/latest.log"));
    assert!(!is_ignored_config(&ignore, "y.toml", "sub/y.toml"));
}

#[test]
fn add_ignored_skips_known_entries() {
    let mut ignored = IgnoredConfigs::new();
    add_ignored(&mut ignored.client, &list(&["a", "b", "a"]));
    add_ignored(&mut ignored.client, &list(&["b", "c"]));
    assert_eq!(ignored.client, list(&["a", "b", "c"]));
    assert!(ignored.server.is_empty());
}

#[test]
fn total_assigned_sums_counts() {
    let r = OrganizeResult {
        assigned: vec![("sodium".to_string(), 2), ("iris".to_string(), 3)],
        ignored_count: 1,
        skipped_count: 0,
        ignored_new: Vec::new(),
    };
    assert_eq!(r.total_assigned(), Some(5));
    let big = OrganizeResult {
        assigned: vec![("a".to_string(), usize::MAX), ("b".to_string(), 1)],
        ignored_count: 0,
        skipped_count: 0,
        ignored_new: Vec::new(),
    };
    assert_eq!(big.total_assigned(), None);
}

fn listed(path: &str, is_file: bool, is_symlink: bool, content: Option<&str>) -> ListedFile {
    ListedFile {
        path: path.to_string(),
        is_file,
        is_symlink,
        content: content.map(|c| c.to_string()),
    }
}

#[test]
fn orphans_are_sorted_by_relative_path() {
    let listing = vec![
        listed("/pack/config/zeta.toml", true, false, Some("z")),
        listed("/pack/config/sub/alpha.json", true, false, Some("a")),
        listed("/pack/config/beta.cfg", true, false, Some("b")),
    ];
    let out = select_orphans(&listing, "/pack/config", &Vec::new());
    let rels: Vec<&str> = out.iter().map(|c| c.rel_path.as_str()).collect();
    assert_eq!(rels, vec!["beta.cfg", "sub/alpha.json", "zeta.toml"]);
    assert_eq!(out[1].file_name, "alpha.json");
    assert_eq!(out[1].path, "/pack/config/sub/alpha.json");
    assert_eq!(out[1].content, "a");
}

#[test]
fn orphans_skip_links_dirs_unreadable_and_ignored() {
    let listing = vec![
        listed("/pack/config/dir", false, false, None),
        listed("/pack/config/linked.toml", true, true, Some("x")),
        listed("/pack/config/binary.dat", true, false, None),
        listed("/pack/config/options.txt", true, false, Some("o")),
        listed("/pack/config/keep.toml", true, false, Some("k")),
        listed("/pack/config/logs/today.log", true, false, Some("l")),
    ];
    let ignore = vec!["options.txt".to_string(), "logs/*".to_string()];
    let out = select_orphans(&listing, "/pack/config", &ignore);
    assert_eq!(out.len(), 1);
    assert_eq!(out[0].rel_path, "keep.toml");
}

#[test]
fn ignored_relative_path_is_never_an_orphan() {
    let listing = vec![
        listed("/pack/config/odd*name.toml", true, false, Some("x")),
        listed("/pack/config/sub/kept.toml", true, false, Some("k")),
    ];
    let ignore = vec!["odd*name.toml".to_string()];
    let out = select_orphans(&listing, "/pack/config", &ignore);
    assert_eq!(out.len(), 1);
    assert_eq!(out[0].rel_path, "sub/kept.toml");
}
