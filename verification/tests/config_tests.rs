use std::path::PathBuf;

use yammm::config::{
    get_config_value, parse_bool, set_config_value, ConfigKey, GlobalConfig, ModpackManifest,
    OutputFormat,
};
use yammm::errors::YammmError;
use yammm::types::LoaderType;

fn deps(pairs: &[(&str, &str)]) -> Vec<(String, String)> {
    pairs.iter().map(|(k, v)| (k.to_string(), v.to_string())).collect()
}

#[test]
fn test_new_modpack() {
    let config = ModpackManifest::new();
    assert_eq!(config.name, "");
    assert_eq!(config.description, "");
}

#[test]
fn test_is_initialized() {
    let empty = ModpackManifest::new();
    assert!(!empty.is_initialized());
    let mut initialized = ModpackManifest::new();
    initialized.minecraft_version = "1.20.4".to_string();
    assert!(initialized.is_initialized());
}

#[test]
fn test_mods_dir_default() {
    let config = ModpackManifest::new();
    assert_eq!(
        PathBuf::from(config.mods_dir("/tmp/modpack")),
        PathBuf::from("/tmp/modpack/mods")
    );
}

#[test]
fn test_mods_dir_custom() {
    let mut config = ModpackManifest::new();
    config.mod_path = Some("custom-mods".to_string());
    assert_eq!(
        PathBuf::from(config.mods_dir("/tmp/modpack")),
        PathBuf::from("/tmp/modpack/custom-mods")
    );
}

#[test]
fn test_version_filters_empty() {
    let config = ModpackManifest::new();
    let filters = config.version_filters();
    assert_eq!(filters.minecraft_version, None);
    assert_eq!(filters.loader, None);
}

#[test]
fn test_version_filters_populated() {
    let mut config = ModpackManifest::new();
    config.minecraft_version = "1.20.4".to_string();
    config.loader.loader = Some(LoaderType::Fabric);
    config.loader.version = "0.16.0".to_string();
    let filters = config.version_filters();
    assert_eq!(filters.minecraft_version, Some("1.20.4".to_string()));
    assert_eq!(filters.loader, Some(LoaderType::Fabric));
}

#[test]
fn test_version_filters_non_default_loader() {
    let mut config = ModpackManifest::new();
    config.minecraft_version = "1.20.4".to_string();
    config.loader.loader = Some(LoaderType::Forge);
    let filters = config.version_filters();
    assert_eq!(filters.minecraft_version, Some("1.20.4".to_string()));
    assert_eq!(filters.loader, Some(LoaderType::Forge));
}

#[test]
fn test_apply_index_dependencies_minecraft() {
    let mut config = ModpackManifest::new();
    let updated = config.apply_index_dependencies(&deps(&[("minecraft", "1.21.1")]));
    assert!(updated);
    assert_eq!(config.minecraft_version, "1.21.1");
}

#[test]
fn test_apply_index_dependencies_does_not_overwrite() {
    let mut config = ModpackManifest::new();
    config.minecraft_version = "1.20.4".to_string();
    let updated = config.apply_index_dependencies(&deps(&[("minecraft", "1.21.1")]));
    assert!(!updated);
    assert_eq!(config.minecraft_version, "1.20.4");
}

#[test]
fn test_apply_index_dependencies_loader() {
    let mut config = ModpackManifest::new();
    let updated = config.apply_index_dependencies(&deps(&[("fabric-loader", "0.16.5")]));
    assert!(updated);
    assert_eq!(config.loader.loader, Some(LoaderType::Fabric));
    assert_eq!(config.loader.version, "0.16.5");
}

#[test]
fn test_apply_index_dependencies_loader_bare_key() {
    let mut config = ModpackManifest::new();
    let updated = config.apply_index_dependencies(&deps(&[("forge", "49.0.30")]));
    assert!(updated);
    assert_eq!(config.loader.loader, Some(LoaderType::Forge));
    assert_eq!(config.loader.version, "49.0.30");
}

#[test]
fn test_apply_index_dependencies_neoforge_loader_key() {
    let mut config = ModpackManifest::new();
    let updated = config.apply_index_dependencies(&deps(&[("neoforge-loader", "20.1.0")]));
    assert!(updated);
    assert_eq!(config.loader.loader, Some(LoaderType::NeoForge));
    assert_eq!(config.loader.version, "20.1.0");
}

#[test]
fn test_apply_index_dependencies_empty_map() {
    let mut config = ModpackManifest::new();
    let updated = config.apply_index_dependencies(&[]);
    assert!(!updated);
}

#[test]
fn test_resourcepacks_dir_default() {
    let config = ModpackManifest::new();
    assert_eq!(
        PathBuf::from(config.resourcepacks_dir("/tmp/modpack")),
        PathBuf::from("/tmp/modpack/resourcepacks")
    );
}

#[test]
fn test_validate_empty_manifest_passes() {
    let manifest = ModpackManifest::new();
    assert!(manifest.validate().is_ok());
}

#[test]
fn test_validate_fully_populated_manifest_passes() {
    let mut manifest = ModpackManifest::new();
    manifest.name = "Test".to_string();
    manifest.minecraft_version = "1.20.4".to_string();
    manifest.loader.loader = Some(LoaderType::Fabric);
    manifest.loader.version = "0.16.5".to_string();
    assert!(manifest.validate().is_ok());
}

#[test]
fn test_validate_partial_manifest_rejects_missing_minecraft_version() {
    let mut manifest = ModpackManifest::new();
    manifest.name = "Test".to_string();
    let err = manifest.validate().unwrap_err();
    assert!(err.to_string().contains("minecraft_version"));
}

#[test]
fn test_validate_loader_version_without_loader_type_rejected() {
    let mut manifest = ModpackManifest::new();
    manifest.minecraft_version = "1.20.4".to_string();
    manifest.loader.version = "0.16.5".to_string();
    let err = manifest.validate().unwrap_err();
    assert!(err.to_string().contains("loader type"));
}

#[test]
fn test_validate_loader_type_without_version_passes() {
    let mut manifest = ModpackManifest::new();
    manifest.minecraft_version = "1.20.4".to_string();
    manifest.loader.loader = Some(LoaderType::Fabric);
    assert!(manifest.validate().is_ok());
}

#[test]
fn test_shaderpacks_dir_default() {
    let config = ModpackManifest::new();
    assert_eq!(
        PathBuf::from(config.shaderpacks_dir("/tmp/modpack")),
        PathBuf::from("/tmp/modpack/shaderpacks")
    );
}

// Own tests.

#[test]
fn apply_index_dependencies_first_loader_key_wins_and_quilt() {
    let mut config = ModpackManifest::new();
    let updated = config.apply_index_dependencies(&deps(&[
        ("quilt-loader", "0.26.0"),
        ("minecraft", "1.21.1"),
    ]));
    assert!(updated);
    assert_eq!(config.loader.loader, Some(LoaderType::Quilt));
    assert_eq!(config.loader.version, "0.26.0");
    assert_eq!(config.minecraft_version, "1.21.1");
}

#[test]
fn validate_error_is_config_error() {
    let mut manifest = ModpackManifest::new();
    manifest.name = "Test".to_string();
    assert!(matches!(manifest.validate(), Err(YammmError::ConfigError(_))));
}

#[test]
fn parse_bool_words() {
    assert_eq!(parse_bool("true"), Some(true));
    assert_eq!(parse_bool("false"), Some(false));
    assert_eq!(parse_bool("0"), None);
    assert_eq!(parse_bool("maybe"), None);
}

#[test]
fn output_format_parse_is_case_insensitive() {
    assert!(matches!(OutputFormat::parse("JSON"), Ok(OutputFormat::Json)));
    let err = OutputFormat::parse("xml").unwrap_err();
    assert_eq!(err.input, "xml");
}

#[test]
fn global_config_set_then_get() {
    let mut config = GlobalConfig::new();
    assert!(set_config_value(&mut config, &ConfigKey::MaxConcurrentDownloads, "8").is_ok());
    assert_eq!(get_config_value(&config, &ConfigKey::MaxConcurrentDownloads), "8");
    assert!(set_config_value(&mut config, &ConfigKey::MaxConcurrentDownloads, "lots").is_err());
    assert_eq!(config.max_concurrent_downloads(), 8);
}

#[test]
fn test_new_config() {
    let config = GlobalConfig::new();
    assert_eq!(config.output.format, OutputFormat::Table);
    assert!(config.output.color);
}

#[test]
fn test_default_values() {
    let config = GlobalConfig::new();
    assert!(config.api_keys.curseforge.is_none());
    assert!(config.cache_dir.is_none());
    assert!(config.default_modpack_dir.is_none());
}

#[test]
fn setting_one_key_keeps_the_others() {
    let mut config = GlobalConfig::new();
    assert!(set_config_value(&mut config, &ConfigKey::CacheDir, "/var/cache/yammm").is_ok());
    let before: Vec<String> = [ConfigKey::DefaultModpackDir, ConfigKey::MaxConcurrentDownloads, ConfigKey::OutputFormat, ConfigKey::OutputColor]
        .iter()
        .map(|k| get_config_value(&config, k))
        .collect();
    assert!(set_config_value(&mut config, &ConfigKey::ApiKeysCurseforge, "test-key").is_ok());
    let after: Vec<String> = [ConfigKey::DefaultModpackDir, ConfigKey::MaxConcurrentDownloads, ConfigKey::OutputFormat, ConfigKey::OutputColor]
        .iter()
        .map(|k| get_config_value(&config, k))
        .collect();
    assert_eq!(before, after);
    assert_eq!(get_config_value(&config, &ConfigKey::CacheDir), "/var/cache/yammm");
    assert_eq!(get_config_value(&config, &ConfigKey::ApiKeysCurseforge), "test-key");
}

#[test]
fn apply_index_dependencies_keeps_a_set_loader() {
    let mut config = ModpackManifest::new();
    config.loader.loader = Some(LoaderType::Forge);
    let updated = config.apply_index_dependencies(&deps(&[("fabric-loader", "0.16.5")]));
    assert!(updated);
    assert_eq!(config.loader.loader, Some(LoaderType::Forge));
    assert_eq!(config.loader.version, "0.16.5");
}

#[test]
fn apply_index_dependencies_keeps_a_set_loader_version() {
    let mut config = ModpackManifest::new();
    config.loader.version = "47.2.0".to_string();
    let updated = config.apply_index_dependencies(&deps(&[("forge", "49.0.30")]));
    assert!(updated);
    assert_eq!(config.loader.loader, Some(LoaderType::Forge));
    assert_eq!(config.loader.version, "47.2.0");
    let again = config.apply_index_dependencies(&deps(&[("fabric-loader", "0.16.5")]));
    assert!(!again);
    assert_eq!(config.loader.loader, Some(LoaderType::Forge));
}

#[test]
fn output_format_names_parse_back() {
    for f in [OutputFormat::Table, OutputFormat::Compact, OutputFormat::Json] {
        assert_eq!(f.to_string(), f.as_str());
        assert!(matches!(OutputFormat::parse(f.as_str()), Ok(g) if g == f));
        assert!(matches!(OutputFormat::parse(&f.as_str().to_uppercase()), Ok(g) if g == f));
    }
    assert_ne!(OutputFormat::Table.as_str(), OutputFormat::Compact.as_str());
    assert_ne!(OutputFormat::Compact.as_str(), OutputFormat::Json.as_str());
    assert_ne!(OutputFormat::Table.as_str(), OutputFormat::Json.as_str());
}
