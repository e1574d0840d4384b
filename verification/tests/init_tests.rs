use yammm::config::ModpackManifest;
use yammm::errors::YammmError;
use yammm::init::{init_manifest, readme_content, InitCommand, InitInfo};
use yammm::types::LoaderType;

fn command(name: Option<&str>, interactive: bool) -> InitCommand {
    InitCommand {
        name: name.map(|s| s.to_string()),
        minecraft_version: None,
        loader: None,
        loader_version: None,
        description: None,
        output_dir: ".".to_string(),
        interactive,
    }
}

#[test]
fn test_should_interact() {
    let cmd = command(None, false);
    assert!(cmd.should_interact());
    let cmd = command(Some("test"), false);
    assert!(!cmd.should_interact());
    let cmd = command(Some("test"), true);
    assert!(cmd.should_interact());
}

// Own tests.

#[test]
fn non_interactive_defaults() {
    let mut cmd = command(Some("pack"), false);
    cmd.loader = Some("forge".to_string());
    let info = cmd.non_interactive_info().unwrap();
    assert_eq!(info.name, "pack");
    assert_eq!(info.minecraft_version, "1.21.5");
    assert_eq!(info.loader, LoaderType::Forge);
    assert!(info.version.is_none());
    let cmd = command(Some("pack"), false);
    assert_eq!(cmd.non_interactive_info().unwrap().loader, LoaderType::Fabric);
}

#[test]
fn unknown_loader_is_invalid_args() {
    let mut cmd = command(None, false);
    cmd.loader = Some("rift".to_string());
    assert!(matches!(cmd.non_interactive_info(), Err(YammmError::InvalidArgs(_))));
}

#[test]
fn manifest_and_readme_of_new_workspace() {
    let info = InitInfo {
        name: "My Pack".to_string(),
        version: None,
        minecraft_version: "1.20.1".to_string(),
        loader: LoaderType::Quilt,
        loader_version: None,
        description: Some("Fast".to_string()),
    };
    let m: ModpackManifest = init_manifest(info);
    assert_eq!(m.version, "1.0.0");
    assert_eq!(m.description, "Fast");
    assert_eq!(m.loader.version, "");
    let readme = readme_content(&m);
    assert!(readme.starts_with("# My Pack\n\nFast\n\n- **Minecraft Version:** 1.20.1\n"));
    assert!(readme.contains("- **Mod Loader:** quilt\n\n"));
    assert!(readme.ends_with("```bash\nyammm export\n```"));
}
