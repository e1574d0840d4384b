use yammm::config::ModpackManifest;
use yammm::launch::{
    check_modloader_deps, deduplicate_classpath, fabric_like_main_class, launch_classpath_jars, loader_lib_dir, skips_mc_libraries,
    LaunchSide, SidedMainClass,
};
use yammm::output::{DiagnosticKind, OutputEvent, StatusKind};
use yammm::types::LoaderType;

fn ids(list: &[&str]) -> Vec<String> {
    list.iter().map(|s| s.to_string()).collect()
}

#[test]
fn dedupe_drops_jars_naming_loader_libraries() {
    let mut jars = ids(&["/libs/asm-9.6.jar", "/libs/guava-32.jar", "/mc/client.jar"]);
    deduplicate_classpath(&mut jars, &ids(&["asm-", "jopt"]));
    assert_eq!(jars, ids(&["/libs/guava-32.jar", "/mc/client.jar"]));
}

#[test]
fn launch_jars_order_and_replacement() {
    let jars = launch_classpath_jars(
        "/mc/client.jar",
        &ids(&["/libs/a.jar", "/libs/asm-9.jar"]),
        false,
        false,
        &ids(&["asm-"]),
        &ids(&["/loader/fabric.jar"]),
    );
    assert_eq!(jars, ids(&["/mc/client.jar", "/libs/a.jar", "/loader/fabric.jar"]));
    let jars = launch_classpath_jars(
        "/mc/server.jar",
        &ids(&["/libs/a.jar"]),
        true,
        true,
        &[],
        &ids(&["/loader/forge.jar"]),
    );
    assert_eq!(jars, ids(&["/loader/forge.jar"]));
}

#[test]
fn bundler_server_skips_mc_libraries() {
    assert!(skips_mc_libraries(true, LaunchSide::Server, true));
    assert!(!skips_mc_libraries(true, LaunchSide::Client, true));
    assert!(!skips_mc_libraries(false, LaunchSide::Server, true));
}

fn manifest(loader: Option<LoaderType>) -> ModpackManifest {
    let mut m = ModpackManifest::new();
    m.loader.loader = loader;
    m
}

#[test]
fn missing_fabric_api_warns_with_hint() {
    let events = check_modloader_deps(&ids(&["sodium"]), &manifest(Some(LoaderType::Fabric)));
    assert_eq!(events.len(), 2);
    match &events[0] {
        OutputEvent::Diagnostic(DiagnosticKind::Warning, m) => {
            assert_eq!(m, "Fabric API is missing! Most Fabric mods require it.")
        }
        _ => panic!("expected a warning"),
    }
    match &events[1] {
        OutputEvent::Status(StatusKind::Dim, m) => assert_eq!(m, "  Run: yammm add fabric-api"),
        _ => panic!("expected a hint"),
    }
}

#[test]
fn companion_present_or_no_mods_is_quiet() {
    assert!(check_modloader_deps(&ids(&["sodium", "fabric-api"]), &manifest(None)).is_empty());
    assert!(check_modloader_deps(&[], &manifest(Some(LoaderType::Quilt))).is_empty());
    assert!(check_modloader_deps(&ids(&["qfapi"]), &manifest(Some(LoaderType::Quilt))).is_empty());
}

#[test]
fn forge_warning_has_no_hint() {
    let events = check_modloader_deps(&ids(&["jei"]), &manifest(Some(LoaderType::Forge)));
    assert_eq!(events.len(), 1);
    let events = check_modloader_deps(&ids(&["jei"]), &manifest(Some(LoaderType::NeoForge)));
    assert_eq!(events.len(), 1);
}

#[test]
fn fabric_server_uses_knot_server() {
    let profile = SidedMainClass {
        client: "net.fabricmc.loader.impl.launch.knot.KnotClient".to_string(),
        server: "net.fabricmc.loader.impl.launch.knot.KnotClient".to_string(),
    };
    assert_eq!(
        fabric_like_main_class(LoaderType::Fabric, LaunchSide::Server, &profile),
        "net.fabricmc.loader.impl.launch.knot.KnotServer"
    );
    assert_eq!(
        fabric_like_main_class(LoaderType::Fabric, LaunchSide::Client, &profile),
        "net.fabricmc.loader.impl.launch.knot.KnotClient"
    );
}

#[test]
fn quilt_uses_profile_class_for_side() {
    let profile = SidedMainClass { client: "q.Client".to_string(), server: "q.Server".to_string() };
    assert_eq!(fabric_like_main_class(LoaderType::Quilt, LaunchSide::Server, &profile), "q.Server");
    assert_eq!(fabric_like_main_class(LoaderType::Quilt, LaunchSide::Client, &profile), "q.Client");
}

#[test]
fn loader_lib_dir_nests_loader_and_versions() {
    assert_eq!(loader_lib_dir("/cache/loaders", LoaderType::Quilt, "1.20.1", "0.25.0"), "/cache/loaders/quilt/1.20.1/0.25.0");
}
