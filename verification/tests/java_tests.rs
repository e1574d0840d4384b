use yammm::errors::YammmError;
use yammm::java::{
    log4j_patch_plan, JarEntry, JarEntryAction,
    detect_java_version, java_launch_prefix, log4j_config_args, JavaRun, LOG4J_COMPAT_XML,
    log4j_mitigation_args, needs_log4j_config_override, parse_java_version,
    parse_java_version_string, required_java_version, required_java_version_for_loader,
    version_triple,
};
use yammm::types::LoaderType;

#[test]
fn test_parse_java_version_modern() {
    let output = "openjdk version \"17.0.5\" 2022-10-18\n";
    assert_eq!(parse_java_version(output), Some(17));
}

#[test]
fn test_parse_java_version_legacy() {
    let output = "java version \"1.8.0_352\"\n";
    assert_eq!(parse_java_version(output), Some(8));
}

#[test]
fn test_parse_java_version_21() {
    let output = "openjdk version \"21.0.1\" 2023-10-17\n";
    assert_eq!(parse_java_version(output), Some(21));
}

#[test]
fn test_required_java_version_old() {
    assert_eq!(required_java_version("1.16.5"), 8);
}

#[test]
fn test_required_java_version_17() {
    assert_eq!(required_java_version("1.17.1"), 16);
    assert_eq!(required_java_version("1.18.1"), 17);
    assert_eq!(required_java_version("1.18"), 17);
}

#[test]
fn test_required_java_version_20_5() {
    assert_eq!(required_java_version("1.20.5"), 21);
}

#[test]
fn test_required_java_version_21() {
    assert_eq!(required_java_version("1.21.0"), 21);
}

#[test]
fn test_required_java_version_26() {
    assert_eq!(required_java_version("26.1"), 25);
}

#[test]
fn test_required_java_version_26_1_2() {
    assert_eq!(required_java_version("26.1.2"), 25);
}

#[test]
fn test_required_java_version_for_loader_fabric_116() {
    assert_eq!(required_java_version_for_loader("1.16.5", &LoaderType::Fabric), 21);
}

#[test]
fn test_required_java_version_for_loader_fabric_26() {
    assert_eq!(required_java_version_for_loader("26.1", &LoaderType::Fabric), 25);
}

#[test]
fn test_required_java_version_for_loader_forge_26() {
    assert_eq!(required_java_version_for_loader("26.1", &LoaderType::Forge), 25);
}

#[test]
fn test_required_java_version_for_loader_neoforge_26() {
    assert_eq!(required_java_version_for_loader("26.1", &LoaderType::NeoForge), 25);
}

#[test]
fn test_required_java_version_for_loader_forge_121() {
    assert_eq!(required_java_version_for_loader("1.21.1", &LoaderType::Forge), 21);
}

#[test]
fn test_required_java_version_for_loader_forge_118() {
    assert_eq!(required_java_version_for_loader("1.18.2", &LoaderType::Forge), 17);
}

#[test]
fn test_required_java_version_for_loader_quilt_119() {
    assert_eq!(required_java_version_for_loader("1.19.2", &LoaderType::Quilt), 21);
}

// Own tests.

#[test]
fn parse_java_version_without_version_line() {
    assert_eq!(parse_java_version("no java here\n"), None);
    assert_eq!(parse_java_version(""), None);
}

#[test]
fn parse_java_version_string_forms() {
    assert_eq!(parse_java_version_string("1.8.0_352"), 8);
    assert_eq!(parse_java_version_string("17.0.5"), 17);
    assert_eq!(parse_java_version_string("21"), 21);
}

#[test]
fn version_triple_pads_missing_parts() {
    assert_eq!(version_triple("1.20"), (1, 20, 0));
    assert_eq!(version_triple("1.20.4"), (1, 20, 4));
}

#[test]
fn log4j_window() {
    assert!(log4j_mitigation_args("1.16.5").len() > 0);
    assert!(log4j_mitigation_args("1.18.2").is_empty());
    assert!(needs_log4j_config_override("1.12.2"));
    assert!(!needs_log4j_config_override("1.19"));
}

#[test]
fn detect_java_version_outcomes() {
    let ok = JavaRun::Finished {
        success: true,
        stderr: "openjdk version \"21.0.2\" 2024-01-16\n".to_string(),
    };
    assert_eq!(detect_java_version("/jdk/bin/java", &ok).unwrap(), 21);
    let failed = JavaRun::Finished {
        success: false,
        stderr: String::new(),
    };
    assert!(matches!(
        detect_java_version("/jdk/bin/java", &failed),
        Err(YammmError::InvalidArgs(m)) if m == "Java at /jdk/bin/java returned an error"
    ));
    assert!(matches!(
        detect_java_version("/nope", &JavaRun::NotStarted),
        Err(YammmError::InvalidArgs(m)) if m == "No Java installation found at /nope"
    ));
    let garbage = JavaRun::Finished {
        success: true,
        stderr: "hello".to_string(),
    };
    assert!(matches!(detect_java_version("/j", &garbage), Err(YammmError::InvalidArgs(_))));
}

#[test]
fn launch_prefix_and_log4j_flags() {
    assert_eq!(java_launch_prefix("/j/java", false), vec!["/j/java"]);
    assert_eq!(java_launch_prefix("/j/java", true), vec!["arch", "-x86_64", "/j/java"]);
    assert_eq!(
        log4j_config_args("/tmp/log4j2.xml"),
        vec![
            "-Dlog4j.configurationFile=/tmp/log4j2.xml",
            "-Dlog4j2.configurationFile=/tmp/log4j2.xml"
        ]
    );
    assert!(LOG4J_COMPAT_XML.contains("<PatternLayout pattern=\"%d{HH:mm:ss} [%t]"));
}

fn jar_entry(name: &str, is_dir: bool) -> JarEntry {
    JarEntry { name: name.to_string(), is_dir }
}

#[test]
fn log4j_patch_replaces_embedded_config_and_keeps_the_rest() {
    let entries = vec![jar_entry("META-INF/", true), jar_entry("log4j2.xml", false), jar_entry("net/minecraft/Main.class", false)];
    let plan = log4j_patch_plan(&entries).expect("jar embeds a config");
    assert_eq!(plan.len(), 3);
    assert!(matches!(&plan[0], JarEntryAction::AddDirectory { name } if name == "META-INF/"));
    assert!(matches!(&plan[1], JarEntryAction::ReplaceWithCompatConfig { name } if name == "log4j2.xml"));
    assert!(matches!(&plan[2], JarEntryAction::Copy { name } if name == "net/minecraft/Main.class"));
}

#[test]
fn log4j_patch_leaves_jars_without_config() {
    let entries = vec![jar_entry("a.class", false), jar_entry("conf/log4j2.xml", false)];
    assert!(log4j_patch_plan(&entries).is_none());
}
