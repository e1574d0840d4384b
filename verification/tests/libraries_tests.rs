use yammm::libraries::{
    is_native_library_file, native_classifier_candidates, plan_library_files,
    rule_matches_features, rule_matches_os, should_include_library, Artifact, HostPlatform,
    Library, LibraryDownloads, OsRule, Rule,
};
use yammm::libraries::{merge_libraries, MergeStep};

fn host() -> HostPlatform {
    HostPlatform {
        os_name: "linux".to_string(),
        is_x86: false,
        is_arm64: false,
    }
}

fn current_os_name() -> &'static str {
    "linux"
}

fn lib_with_rules(rules: Vec<Rule>) -> Library {
    Library {
        name: "test:lib:1".to_string(),
        downloads: None,
        rules: Some(rules),
    }
}

fn allow_for_os(name: &str) -> Rule {
    Rule {
        action: "allow".to_string(),
        os: Some(OsRule {
            name: Some(name.to_string()),
            arch: None,
        }),
        features: None,
    }
}

fn disallow_for_os(name: &str) -> Rule {
    Rule {
        action: "disallow".to_string(),
        os: Some(OsRule {
            name: Some(name.to_string()),
            arch: None,
        }),
        features: None,
    }
}

fn artifact(path: &str) -> Artifact {
    Artifact {
        path: path.to_string(),
        url: format!("https://libraries.example/{}", path),
        sha1: None,
    }
}

#[test]
fn test_library_without_rules_is_always_included() {
    let lib = Library {
        name: "no-rules".to_string(),
        downloads: None,
        rules: None,
    };
    assert!(should_include_library(&lib, &host()));
}

#[test]
fn test_library_with_allow_for_current_os_is_included() {
    let lib = lib_with_rules(vec![allow_for_os(current_os_name())]);
    assert!(should_include_library(&lib, &host()));
}

#[test]
fn test_library_with_allow_for_other_os_is_excluded() {
    let lib = lib_with_rules(vec![allow_for_os("haiku-os")]);
    assert!(
        !should_include_library(&lib, &host()),
        "libraries default to disallowed; an allow that doesn't match shouldn't flip it"
    );
}

#[test]
fn test_library_allow_then_disallow_for_current_os() {
    let allow_all = Rule {
        action: "allow".to_string(),
        os: None,
        features: None,
    };
    let lib = lib_with_rules(vec![allow_all, disallow_for_os(current_os_name())]);
    assert!(
        !should_include_library(&lib, &host()),
        "later disallow for current OS must override earlier allow-all"
    );
}

#[test]
fn test_rule_matches_features_with_true_feature_disqualifies() {
    let features = vec![("is_demo_user".to_string(), Some(true))];
    assert!(
        !rule_matches_features(&Some(features)),
        "any feature flag set to true disqualifies the rule"
    );
}

#[test]
fn test_rule_matches_features_with_no_features_or_all_false() {
    assert!(rule_matches_features(&None));
    let features = vec![("has_custom_resolution".to_string(), Some(false))];
    assert!(rule_matches_features(&Some(features)));
}

#[test]
fn test_native_classifier_candidates_includes_arch_specific_first() {
    let candidates = native_classifier_candidates(&host());
    assert_eq!(candidates.len(), 2, "expected arch-specific + generic");
    let os = current_os_name();
    assert!(
        candidates[0].starts_with(&format!("natives-{}-", os)),
        "first candidate should be arch-specific: {}",
        candidates[0]
    );
    assert_eq!(candidates[1], format!("natives-{}", os));
}

// Own tests.

#[test]
fn native_candidates_name_the_architecture() {
    assert_eq!(native_classifier_candidates(&host())[0], "natives-linux-x86_64");
    let arm = HostPlatform {
        os_name: "osx".to_string(),
        is_x86: false,
        is_arm64: true,
    };
    assert_eq!(native_classifier_candidates(&arm), vec!["natives-osx-arm64", "natives-osx"]);
}

#[test]
fn x86_rule_needs_x86_host() {
    let rule = Some(OsRule {
        name: None,
        arch: Some("x86".to_string()),
    });
    assert!(!rule_matches_os(&rule, &host()));
    let x86 = HostPlatform {
        os_name: "windows".to_string(),
        is_x86: true,
        is_arm64: false,
    };
    assert!(rule_matches_os(&rule, &x86));
    assert!(rule_matches_os(&None, &host()));
}

#[test]
fn plan_picks_jar_and_first_native_candidate() {
    let lib = Library {
        name: "lwjgl".to_string(),
        downloads: Some(LibraryDownloads {
            artifact: Some(artifact("lwjgl.jar")),
            classifiers: Some(vec![
                ("natives-linux".to_string(), artifact("generic.jar")),
                ("natives-linux-x86_64".to_string(), artifact("specific.jar")),
            ]),
        }),
        rules: None,
    };
    let excluded = Library {
        name: "mac-only".to_string(),
        downloads: Some(LibraryDownloads {
            artifact: Some(artifact("mac.jar")),
            classifiers: None,
        }),
        rules: Some(vec![allow_for_os("osx")]),
    };
    let plan = plan_library_files(&[lib, excluded], &host());
    assert_eq!(plan.len(), 2);
    assert_eq!(plan[0].0.as_ref().unwrap().path, "lwjgl.jar");
    assert_eq!(plan[0].1.as_ref().unwrap().path, "specific.jar");
    assert!(plan[1].0.is_none() && plan[1].1.is_none());
}

#[test]
fn native_file_suffixes() {
    assert!(is_native_library_file("linux/liblwjgl.so"));
    assert!(is_native_library_file("lwjgl.dll"));
    assert!(is_native_library_file("libglfw.dylib"));
    assert!(is_native_library_file("libjinput.jnilib"));
    assert!(!is_native_library_file("META-INF/MANIFEST.MF"));
}

fn lib_entry(rel: &str, src: &str, is_dir: bool, dest_exists: bool) -> yammm::libraries::LibraryEntry {
    yammm::libraries::LibraryEntry { relative: rel.to_string(), source: src.to_string(), is_dir, dest_exists }
}

#[test]
fn merge_links_only_missing_files() {
    let listing = vec![
        lib_entry("net", "/loader/libs/net", true, true),
        lib_entry("net/fabric", "/loader/libs/net/fabric", true, false),
        lib_entry("net/fabric/loader.jar", "/loader/libs/net/fabric/loader.jar", false, false),
        lib_entry("net/old.jar", "/loader/libs/net/old.jar", false, true),
    ];
    let steps = merge_libraries(true, "/mc/libraries", &listing);
    assert_eq!(steps.len(), 2);
    match &steps[0] {
        MergeStep::CreateDir { dest } => assert_eq!(dest, "/mc/libraries/net/fabric"),
        _ => panic!("expected a directory first"),
    }
    match &steps[1] {
        MergeStep::Link { source, dest } => {
            assert_eq!(source, "/loader/libs/net/fabric/loader.jar");
            assert_eq!(dest, "/mc/libraries/net/fabric/loader.jar");
        }
        _ => panic!("expected a link"),
    }
}

#[test]
fn merge_without_loader_dir_does_nothing() {
    let listing = vec![lib_entry("a.jar", "/l/a.jar", false, false)];
    assert!(merge_libraries(false, "/mc/libraries", &listing).is_empty());
}
