use std::path::PathBuf;

use yammm::archive_import;
use yammm::import::{
    classify_archive_entry, determine_source, detect_format, detect_zip_format,
    extract_host, extract_project_id_from_cdn_url, extract_slug_from_path,
    extract_version_from_path, ExtractDecision, FormatGuess, ImportFormat,
};
use yammm::types::ModSource;

fn classify(name: &str, prefix: &str, root: &str) -> ExtractDecision {
    classify_archive_entry(name, prefix, root)
}

fn extracted(decision: ExtractDecision) -> Option<PathBuf> {
    match decision {
        ExtractDecision::Extract(p) => Some(PathBuf::from(p)),
        _ => None,
    }
}

#[test]
fn extracts_regular_file_under_prefix() {
    let out = extracted(classify("overrides/config/foo.json", "overrides", "/pack"))
        .expect("expected extract decision");
    assert_eq!(out, PathBuf::from("/pack/config/foo.json"));
}

#[test]
fn extracts_nested_path() {
    let out = extracted(classify(
        "overrides/config/sodium/options.json",
        "overrides",
        "/pack",
    ))
    .expect("expected extract decision");
    assert_eq!(out, PathBuf::from("/pack/config/sodium/options.json"));
}

#[test]
fn normalizes_backslash_separators() {
    let out = extracted(classify("overrides\\config\\foo.json", "overrides", "/pack"))
        .expect("expected extract decision");
    assert_eq!(out, PathBuf::from("/pack/config/foo.json"));
}

#[test]
fn skips_entry_outside_prefix() {
    assert!(matches!(
        classify("mods/sodium.jar", "overrides", "/pack"),
        ExtractDecision::Skip
    ));
}

#[test]
fn skips_prefix_substring_attack() {
    assert!(matches!(
        classify("overrides_evil/foo.txt", "overrides", "/pack"),
        ExtractDecision::Skip
    ));
}

#[test]
fn skips_sibling_override_dir_with_shared_prefix() {
    assert!(matches!(
        classify("client-overrides/foo.txt", "overrides", "/pack"),
        ExtractDecision::Skip
    ));
}

#[test]
fn skips_directory_marker_entries() {
    assert!(matches!(
        classify("overrides/", "overrides", "/pack"),
        ExtractDecision::Skip
    ));
    assert!(matches!(
        classify("overrides/subdir/", "overrides", "/pack"),
        ExtractDecision::Skip
    ));
}

#[test]
fn skips_bare_prefix_entry() {
    assert!(matches!(
        classify("overrides", "overrides", "/pack"),
        ExtractDecision::Skip
    ));
}

#[test]
fn rejects_parent_dir_traversal() {
    assert!(matches!(
        classify("overrides/../etc/passwd", "overrides", "/pack"),
        ExtractDecision::Unsafe
    ));
}

#[test]
fn rejects_deep_traversal_that_resolves_outside() {
    assert!(matches!(
        classify("overrides/sub/../../etc/passwd", "overrides", "/pack"),
        ExtractDecision::Unsafe
    ));
}

#[test]
fn rejects_traversal_that_resolves_inside() {
    assert!(matches!(
        classify("overrides/sub/../foo.json", "overrides", "/pack"),
        ExtractDecision::Unsafe
    ));
}

#[test]
fn absolute_path_does_not_match_prefix() {
    assert!(matches!(
        classify("/overrides/foo.txt", "overrides", "/pack"),
        ExtractDecision::Skip
    ));
}

#[test]
fn allows_curdir_components() {
    let out = extracted(classify("overrides/./foo.txt", "overrides", "/pack"))
        .expect("expected extract decision");
    assert_eq!(out, PathBuf::from("/pack/foo.txt"));
}

#[test]
fn dest_root_with_dot_prefix_still_matches() {
    let out = extracted(classify("overrides/foo.txt", "overrides", "./pack"))
        .expect("expected extract decision");
    assert_eq!(out, PathBuf::from("pack/foo.txt"));
}

#[test]
fn dest_root_with_trailing_slash_still_matches() {
    let out = extracted(classify("overrides/foo.txt", "overrides", "/pack/"))
        .expect("expected extract decision");
    assert_eq!(out, PathBuf::from("/pack/foo.txt"));
}

#[test]
fn ympk_config_prefix_extracts_correctly() {
    let out = extracted(classify(
        "config/sodium/options.json",
        "config",
        "/pack/config",
    ))
    .expect("expected extract decision");
    assert_eq!(out, PathBuf::from("/pack/config/sodium/options.json"));
}

#[test]
fn mod_test_extract_slug_from_path() {
    assert_eq!(extract_slug_from_path("mods/sodium.jar"), "sodium");
    assert_eq!(extract_slug_from_path("mods/lithium-2.0.jar"), "lithium");
    assert_eq!(extract_slug_from_path("mods\\windows-mod.jar"), "windows-mod");
    assert_eq!(
        extract_slug_from_path("resourcepacks/some-pack.zip"),
        "some-pack"
    );
    assert_eq!(
        extract_slug_from_path("shaderpacks/bsl-shaders.zip"),
        "bsl-shaders"
    );
}

#[test]
fn mod_test_extract_version_from_path() {
    assert_eq!(extract_version_from_path("mods/sodium-0.5.8.jar"), "0.5.8");
    assert_eq!(
        extract_version_from_path("mods/fabric-api-0.92.0+1.20.4.jar"),
        "0.92.0+1.20.4"
    );
    assert_eq!(extract_version_from_path("mods/simplemod.jar"), "0.0.0");
    assert_eq!(
        extract_version_from_path("mods/iris-mc1.20.4-1.6.17.jar"),
        "1.6.17"
    );
}

#[test]
fn mod_test_determine_source_modrinth_cdn() {
    let source = determine_source(
        &["https://cdn.modrinth.com/data/fRiHVvU7/versions/1.0/mod.jar".to_string()],
        "abc",
    );
    match source {
        ModSource::Modrinth { id } => assert_eq!(id, "fRiHVvU7"),
        _ => panic!("Expected Modrinth source with project ID"),
    }
}

#[test]
fn mod_test_determine_source_modrinth_no_cdn() {
    let source = determine_source(&["https://api.modrinth.com/some/path.jar".to_string()], "abc");
    match source {
        ModSource::Modrinth { id } => assert_eq!(id, "abc"),
        _ => panic!("Expected Modrinth source with slug fallback"),
    }
}

#[test]
fn mod_test_determine_source_curseforge() {
    let source = determine_source(
        &["https://edge.forge.curseforge.com/files/123/mod.jar".to_string()],
        "abc",
    );
    assert!(matches!(source, ModSource::CurseForge { .. }));
}

#[test]
fn mod_test_determine_source_url() {
    let source = determine_source(&["https://example.com/mod.jar".to_string()], "abc");
    assert!(matches!(source, ModSource::Url { .. }));
}

#[test]
fn mod_test_extract_project_id_from_cdn_url() {
    assert_eq!(
        extract_project_id_from_cdn_url(
            "https://cdn.modrinth.com/data/fRiHVvU7/versions/abc123/mod.jar"
        ),
        Some("fRiHVvU7".to_string())
    );
    assert_eq!(
        extract_project_id_from_cdn_url("https://api.modrinth.com/v2/project/emi"),
        None
    );
    assert_eq!(extract_project_id_from_cdn_url("https://example.com/mod.jar"), None);
}

#[test]
fn import_test_extract_slug_from_path() {
    assert_eq!(archive_import::extract_slug_from_path("mods/sodium.jar"), "sodium");
    assert_eq!(
        archive_import::extract_slug_from_path("mods/lithium-2.0.jar"),
        "lithium-2.0"
    );
    assert_eq!(
        archive_import::extract_slug_from_path("mods\\windows-mod.jar"),
        "windows-mod"
    );
    assert_eq!(
        archive_import::extract_slug_from_path("resourcepacks/some-pack.zip"),
        "some-pack"
    );
    assert_eq!(
        archive_import::extract_slug_from_path("shaderpacks/bsl-shaders.zip"),
        "bsl-shaders"
    );
}

#[test]
fn import_test_extract_version_from_path() {
    assert_eq!(archive_import::extract_version_from_path("mods/sodium-0.5.8.jar"), "0.5.8");
    assert_eq!(
        archive_import::extract_version_from_path("mods/fabric-api-0.92.0+1.20.4.jar"),
        "0.92.0+1.20.4"
    );
    assert_eq!(archive_import::extract_version_from_path("mods/simplemod.jar"), "0.0.0");
    assert_eq!(
        archive_import::extract_version_from_path("mods/iris-mc1.20.4-1.6.17.jar"),
        "1.6.17"
    );
}

#[test]
fn import_test_determine_source_modrinth_cdn() {
    let source = archive_import::determine_source(
        &["https://cdn.modrinth.com/data/fRiHVvU7/versions/1.0/mod.jar".to_string()],
        "abc",
    );
    match source {
        ModSource::Modrinth { id } => assert_eq!(id, "fRiHVvU7"),
        _ => panic!("Expected Modrinth source with project ID"),
    }
}

#[test]
fn import_test_determine_source_modrinth_no_cdn() {
    let source = archive_import::determine_source(
        &["https://api.modrinth.com/some/path.jar".to_string()],
        "abc",
    );
    match source {
        ModSource::Modrinth { id } => assert_eq!(id, "abc"),
        _ => panic!("Expected Modrinth source with slug fallback"),
    }
}

#[test]
fn import_test_determine_source_curseforge() {
    let source = archive_import::determine_source(
        &["https://edge.forge.curseforge.com/files/123/mod.jar".to_string()],
        "abc",
    );
    assert!(matches!(source, ModSource::CurseForge { .. }));
}

#[test]
fn import_test_determine_source_url() {
    let source =
        archive_import::determine_source(&["https://example.com/mod.jar".to_string()], "abc");
    assert!(matches!(source, ModSource::Url { .. }));
}

#[test]
fn import_test_extract_project_id_from_cdn_url() {
    assert_eq!(
        archive_import::extract_project_id_from_cdn_url(
            "https://cdn.modrinth.com/data/fRiHVvU7/versions/abc123/mod.jar"
        ),
        Some("fRiHVvU7".to_string())
    );
    assert_eq!(
        archive_import::extract_project_id_from_cdn_url("https://api.modrinth.com/v2/project/emi"),
        None
    );
    assert_eq!(
        archive_import::extract_project_id_from_cdn_url("https://example.com/mod.jar"),
        None
    );
}

// Own tests.

#[test]
fn determine_source_without_downloads() {
    match determine_source(&[], "sodium") {
        ModSource::Modrinth { id } => assert_eq!(id, "sodium"),
        _ => panic!("expected Modrinth source named by slug"),
    }
    match archive_import::determine_source(&[], "sodium") {
        ModSource::Url { url } => assert_eq!(url, ""),
        _ => panic!("expected empty URL source"),
    }
}

#[test]
fn determine_source_keeps_url_of_unknown_host() {
    match determine_source(&["https://example.com/mod.jar".to_string()], "abc") {
        ModSource::Url { url } => assert_eq!(url, "https://example.com/mod.jar"),
        _ => panic!("expected URL source"),
    }
}

#[test]
fn extract_host_lowercases_and_strips_port() {
    assert_eq!(extract_host("https://CDN.Modrinth.com:443/x"), Some("cdn.modrinth.com".to_string()));
    assert_eq!(extract_host("not a url"), None);
}

#[test]
fn host_match_is_case_insensitive() {
    let source = determine_source(
        &["https://CDN.MODRINTH.COM/data/AbC/versions/1/mod.jar".to_string()],
        "slug",
    );
    match source {
        ModSource::Modrinth { id } => assert_eq!(id, "AbC"),
        _ => panic!("expected Modrinth source"),
    }
}

#[test]
fn detect_format_by_extension() {
    assert!(matches!(detect_format("pack.mrpack"), FormatGuess::Known(ImportFormat::Mrpack)));
    assert!(matches!(detect_format("pack.YMPK"), FormatGuess::Known(ImportFormat::Ympk)));
    assert!(matches!(detect_format("pack.zip"), FormatGuess::InspectZip));
    match detect_format("pack.tar") {
        FormatGuess::Unsupported(ext) => assert_eq!(ext, "tar"),
        _ => panic!("expected unsupported"),
    }
    assert!(matches!(detect_format("pack"), FormatGuess::Unsupported(_)));
}

#[test]
fn detect_zip_format_prefers_mrpack_index() {
    assert!(matches!(detect_zip_format(true, true), Some(ImportFormat::Mrpack)));
    assert!(matches!(detect_zip_format(false, true), Some(ImportFormat::Ympk)));
    assert!(detect_zip_format(false, false).is_none());
}

#[test]
fn slug_and_version_rebuild_the_stem() {
    for (path, stem) in [
        ("mods/sodium-fabric-0.5.8+mc1.20.1.jar", "sodium-fabric-0.5.8+mc1.20.1"),
        ("mods\\lithium-1.2.3.jar", "lithium-1.2.3"),
        ("packs/Faithful.zip", "Faithful"),
        ("a-b-c", "a-b-c"),
        ("x--2.jar", "x--2"),
    ] {
        let slug = extract_slug_from_path(path);
        let version = extract_version_from_path(path);
        assert!(
            (version == "0.0.0" && slug == stem) || stem == format!("{}-{}", slug, version),
            "{path}: {slug} / {version}"
        );
    }
}
