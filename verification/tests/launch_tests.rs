use yammm::launch::{
    build_classpath, loader_jvm_args_resolved, module_path_candidates, parse_shim_jar_filenames,
    resolve_classpath, resolve_jvm_args, retain_non_module_jars, LaunchSide,
};
use yammm::launch_args::{
    java_command_argv, user_jvm_args_content,
    build_classpath_java_args, build_client_java_args, build_unix_args_java_args, ClientArgs,
    ClientAuth, ClientLaunchInputs, ResolvedClasspath, ServerArgs, ADD_OPENS_ARG,
};

const CLASSPATH_SEPARATOR: char = ':';

fn make_client_args(offline: bool, jvm_args: Option<&str>) -> ClientArgs {
    ClientArgs {
        offline,
        jvm_args: jvm_args.map(|s| s.to_string()),
        java: None,
    }
}

fn make_server_args(port: u16, jvm_args: Option<&str>) -> ServerArgs {
    ServerArgs {
        port,
        jvm_args: jvm_args.map(|s| s.to_string()),
        eula: false,
        java: None,
    }
}

fn make_resolved(
    classpath: &str,
    resolved_jvm: Option<Vec<String>>,
    main_class: &str,
    game_args: Vec<String>,
) -> ResolvedClasspath {
    ResolvedClasspath {
        classpath: classpath.to_string(),
        resolved_jvm_args: resolved_jvm,
        main_class: main_class.to_string(),
        game_args,
    }
}

fn default_inputs<'a>(
    args: &'a ClientArgs,
    resolved: &'a ResolvedClasspath,
    auth: &'a ClientAuth,
) -> ClientLaunchInputs<'a> {
    ClientLaunchInputs {
        natives_dir: "/cache/natives",
        mc_cache: "/cache/mc",
        mc_jvm_args: &[],
        args,
        resolved,
        client_dir: "/pack/client",
        mc_version: "1.20.4",
        asset_index_id: None,
        log4j_config_args: &[],
        auth,
        macos: false,
    }
}

#[test]
fn test_offline_emits_player_credentials() {
    let args = make_client_args(true, None);
    let resolved = make_resolved("cp", None, "Main", vec![]);
    let result = build_client_java_args(default_inputs(&args, &resolved, &ClientAuth::Offline));
    let idx = result.iter().position(|a| a == "--username").unwrap();
    assert_eq!(result[idx + 1], "Player");
    assert_eq!(result[idx + 2], "--accessToken");
    assert_eq!(result[idx + 3], "0");
    assert_eq!(result[idx + 4], "--uuid");
    assert_eq!(result[idx + 5], "00000000000000000000000000000000");
}

#[test]
fn test_online_emits_token_fields() {
    let args = make_client_args(false, None);
    let resolved = make_resolved("cp", None, "Main", vec![]);
    let auth = ClientAuth::Online {
        username: "alice".to_string(),
        access_token: "tok-abc".to_string(),
        uuid: "uuid-xyz".to_string(),
    };
    let result = build_client_java_args(default_inputs(&args, &resolved, &auth));
    let idx = result.iter().position(|a| a == "--username").unwrap();
    assert_eq!(result[idx + 1], "alice");
    assert_eq!(result[idx + 3], "tok-abc");
    assert_eq!(result[idx + 5], "uuid-xyz");
}

#[test]
fn test_cp_immediately_precedes_main_class() {
    let args = make_client_args(true, None);
    let resolved = make_resolved(
        "/lib/a.jar:/lib/b.jar",
        None,
        "net.minecraft.client.main.Main",
        vec![],
    );
    let result = build_client_java_args(default_inputs(&args, &resolved, &ClientAuth::Offline));
    let cp_idx = result.iter().position(|a| a == "-cp").unwrap();
    assert_eq!(result[cp_idx + 1], "/lib/a.jar:/lib/b.jar");
    assert_eq!(result[cp_idx + 2], "net.minecraft.client.main.Main");
}

#[test]
fn test_java_library_path_present() {
    let args = make_client_args(true, None);
    let resolved = make_resolved("cp", None, "Main", vec![]);
    let result = build_client_java_args(default_inputs(&args, &resolved, &ClientAuth::Offline));
    assert!(result.iter().any(|a| a == "-Djava.library.path=/cache/natives"));
}

#[test]
fn test_asset_index_only_when_some() {
    let args = make_client_args(true, None);
    let resolved = make_resolved("cp", None, "Main", vec![]);
    let auth = ClientAuth::Offline;
    let result = build_client_java_args(default_inputs(&args, &resolved, &auth));
    assert!(!result.iter().any(|a| a == "--assetIndex"));
    let mut inputs = default_inputs(&args, &resolved, &auth);
    inputs.asset_index_id = Some("17");
    let result = build_client_java_args(inputs);
    let idx = result.iter().position(|a| a == "--assetIndex").unwrap();
    assert_eq!(result[idx + 1], "17");
}

#[test]
fn test_version_type_yammm_appended() {
    let args = make_client_args(true, None);
    let resolved = make_resolved("cp", None, "Main", vec![]);
    let result = build_client_java_args(default_inputs(&args, &resolved, &ClientAuth::Offline));
    let vt_idx = result.iter().position(|a| a == "--versionType").unwrap();
    assert_eq!(result[vt_idx + 1], "yammm");
}

#[test]
fn test_resolved_jvm_path_emits_add_opens_arg_and_filters_mc_jvm_args() {
    let args = make_client_args(true, None);
    let resolved = make_resolved("cp", Some(vec!["-Dprop=v".to_string()]), "Main", vec![]);
    let mc_jvm = vec![
        "--add-opens=java.base/sun.foo=ALL".to_string(),
        "-Xmx1G".to_string(),
    ];
    let mut inputs = default_inputs(&args, &resolved, &ClientAuth::Offline);
    inputs.mc_jvm_args = &mc_jvm;
    let result = build_client_java_args(inputs);
    assert!(result.iter().any(|a| a == "-Dprop=v"));
    assert!(result.iter().any(|a| a == ADD_OPENS_ARG));
    assert!(result.iter().any(|a| a == "--add-opens=java.base/sun.foo=ALL"));
    assert!(
        !result.iter().any(|a| a == "-Xmx1G"),
        "non-module mc_jvm_args entries are filtered on the resolved path"
    );
}

#[test]
fn test_no_resolved_jvm_path_filters_library_path_from_mc_jvm_args() {
    let args = make_client_args(true, None);
    let resolved = make_resolved("cp", None, "Main", vec![]);
    let mc_jvm = vec![
        "-Djava.library.path=stale".to_string(),
        "-Dthrough.passthrough=ok".to_string(),
    ];
    let mut inputs = default_inputs(&args, &resolved, &ClientAuth::Offline);
    inputs.mc_jvm_args = &mc_jvm;
    let result = build_client_java_args(inputs);
    assert!(result.iter().any(|a| a == "-Dthrough.passthrough=ok"));
    assert_eq!(
        result
            .iter()
            .filter(|a| a.starts_with("-Djava.library.path="))
            .count(),
        1
    );
}

#[test]
fn test_user_jvm_args_are_space_split() {
    let args = make_client_args(true, Some("-Xmx4G -XX:+UseG1GC -XX:MaxGCPauseMillis=50"));
    let resolved = make_resolved("cp", None, "Main", vec![]);
    let result = build_client_java_args(default_inputs(&args, &resolved, &ClientAuth::Offline));
    assert!(result.iter().any(|a| a == "-Xmx4G"));
    assert!(result.iter().any(|a| a == "-XX:+UseG1GC"));
    assert!(result.iter().any(|a| a == "-XX:MaxGCPauseMillis=50"));
}

#[test]
fn test_game_args_appear_before_game_dir() {
    let args = make_client_args(true, None);
    let resolved = make_resolved(
        "cp",
        None,
        "Main",
        vec!["--demo".to_string(), "--quickPlay".to_string()],
    );
    let result = build_client_java_args(default_inputs(&args, &resolved, &ClientAuth::Offline));
    let demo_idx = result.iter().position(|a| a == "--demo").unwrap();
    let game_dir_idx = result.iter().position(|a| a == "--gameDir").unwrap();
    assert!(demo_idx < game_dir_idx);
}

#[test]
fn test_log4j_config_args_appear_before_resolved_jvm() {
    let args = make_client_args(true, None);
    let resolved = make_resolved("cp", Some(vec!["-Dlate=arg".to_string()]), "Main", vec![]);
    let log4j = vec!["-Dlog4j.configurationFile=/path".to_string()];
    let mut inputs = default_inputs(&args, &resolved, &ClientAuth::Offline);
    inputs.log4j_config_args = &log4j;
    let result = build_client_java_args(inputs);
    let log4j_idx = result
        .iter()
        .position(|a| a.starts_with("-Dlog4j.configurationFile="))
        .unwrap();
    let late_idx = result.iter().position(|a| a == "-Dlate=arg").unwrap();
    assert!(log4j_idx < late_idx);
}

#[test]
fn test_macos_prepends_start_on_first_thread() {
    let args = make_client_args(true, None);
    let resolved = make_resolved("cp", None, "Main", vec![]);
    let mut inputs = default_inputs(&args, &resolved, &ClientAuth::Offline);
    inputs.macos = true;
    let result = build_client_java_args(inputs);
    assert_eq!(result.first().map(|s| s.as_str()), Some("-XstartOnFirstThread"));
}

#[test]
fn test_parse_shim_skips_comments_and_blanks() {
    let content = "# comment line\n\n  \nfoo.jar\n";
    assert_eq!(parse_shim_jar_filenames(content), vec!["foo.jar"]);
}

#[test]
fn test_parse_shim_skips_non_jar_tokens() {
    let content = "main.class some-arg foo.jar bar.txt baz.JAR\n";
    assert_eq!(parse_shim_jar_filenames(content), vec!["foo.jar"]);
}

#[test]
fn test_parse_shim_skips_flag_tokens() {
    let content = "-Xmx2G --some=foo.jar real.jar\n";
    assert_eq!(parse_shim_jar_filenames(content), vec!["real.jar"]);
}

#[test]
fn test_parse_shim_skips_absolute_paths() {
    let content = "/abs/path/skipme.jar relative/keepme.jar\n";
    assert_eq!(parse_shim_jar_filenames(content), vec!["keepme.jar"]);
}

#[test]
fn test_parse_shim_strips_directory_components() {
    let content = "libs/sub/dir/cool.jar\n";
    assert_eq!(parse_shim_jar_filenames(content), vec!["cool.jar"]);
}

#[test]
fn test_parse_shim_handles_multiple_jars_per_line() {
    let content = "a.jar b.jar  c.jar\n";
    assert_eq!(parse_shim_jar_filenames(content), vec!["a.jar", "b.jar", "c.jar"]);
}

#[test]
fn test_unix_args_appends_port_and_nogui_at_tail() {
    let args = make_server_args(25566, None);
    let result = build_unix_args_java_args(&args, &[], "/loader/unix_args.txt", "1.20.4", &[]);
    let tail = &result[result.len() - 5..];
    assert_eq!(tail[0], "@user_jvm_args.txt");
    assert!(tail[1].starts_with("@/loader/unix_args.txt"));
    assert_eq!(tail[2], "--port");
    assert_eq!(tail[3], "25566");
    assert_eq!(tail[4], "nogui");
}

#[test]
fn test_unix_args_filters_mc_jvm_args_to_module_flags() {
    let mc_jvm = vec![
        "--add-opens=java.base/sun.nio=ALL-UNNAMED".to_string(),
        "-Xmx1G".to_string(),
        "--add-exports=java.base/sun.foo=ALL-UNNAMED".to_string(),
    ];
    let args = make_server_args(25565, None);
    let result = build_unix_args_java_args(&args, &mc_jvm, "u.txt", "1.20.4", &[]);
    assert!(result.iter().any(|a| a.starts_with("--add-opens=")));
    assert!(result.iter().any(|a| a.starts_with("--add-exports=")));
    assert!(
        !result.iter().any(|a| a == "-Xmx1G"),
        "only --add-opens/--add-exports survive the filter"
    );
}

#[test]
fn test_unix_args_prepends_log4j_config_args() {
    let args = make_server_args(25565, None);
    let log4j_args = vec!["-Dlog4j.configurationFile=/foo".to_string()];
    let result = build_unix_args_java_args(&args, &[], "u.txt", "1.20.4", &log4j_args);
    let user_jvm_idx = result.iter().position(|a| a == "@user_jvm_args.txt").unwrap();
    let log4j_idx = result
        .iter()
        .position(|a| a.starts_with("-Dlog4j.configurationFile="))
        .unwrap();
    assert!(log4j_idx < user_jvm_idx);
}

#[test]
fn test_classpath_args_no_log4j_uses_original_classpath() {
    let args = make_server_args(25565, None);
    let resolved = make_resolved(
        "/orig/server.jar:/lib/a.jar",
        None,
        "net.minecraft.server.Main",
        vec![],
    );
    let result = build_classpath_java_args(
        &args,
        &[],
        &resolved,
        "/orig/server.jar",
        "/dest/server.jar",
        "1.20.4",
        &[],
    );
    let cp_idx = result.iter().position(|a| a == "-cp").unwrap();
    assert_eq!(result[cp_idx + 1], "/orig/server.jar:/lib/a.jar");
    assert_eq!(result[cp_idx + 2], "net.minecraft.server.Main");
}

#[test]
fn test_classpath_args_log4j_swaps_server_jar_to_dest() {
    let args = make_server_args(25565, None);
    let resolved = make_resolved(
        "/orig/server.jar:/lib/a.jar",
        None,
        "net.minecraft.server.Main",
        vec![],
    );
    let result = build_classpath_java_args(
        &args,
        &[],
        &resolved,
        "/orig/server.jar",
        "/dest/server.jar",
        "1.17.1",
        &[],
    );
    let cp_idx = result.iter().position(|a| a == "-cp").unwrap();
    assert_eq!(result[cp_idx + 1], "/dest/server.jar:/lib/a.jar");
}

#[test]
fn test_classpath_args_user_jvm_args_split_and_appended_before_cp() {
    let args = make_server_args(25565, Some("-Xmx2G -XX:+UseG1GC"));
    let resolved = make_resolved("cp", None, "Main", vec![]);
    let result = build_classpath_java_args(&args, &[], &resolved, "/s.jar", "/d.jar", "1.20.4", &[]);
    let xmx_idx = result.iter().position(|a| a == "-Xmx2G").unwrap();
    let gc_idx = result.iter().position(|a| a == "-XX:+UseG1GC").unwrap();
    let cp_idx = result.iter().position(|a| a == "-cp").unwrap();
    assert!(xmx_idx < cp_idx && gc_idx < cp_idx);
}

#[test]
fn test_classpath_args_resolved_jvm_path_includes_add_opens_arg() {
    let mc_jvm = vec!["--add-opens=java.base/sun.foo=ALL".to_string()];
    let args = make_server_args(25565, None);
    let resolved = make_resolved("cp", Some(vec!["-Dprop=v".to_string()]), "Main", vec![]);
    let result =
        build_classpath_java_args(&args, &mc_jvm, &resolved, "/s.jar", "/d.jar", "1.20.4", &[]);
    assert!(result.iter().any(|a| a == "-Dprop=v"));
    assert!(result.iter().any(|a| a == ADD_OPENS_ARG));
    assert!(result.iter().any(|a| a == "--add-opens=java.base/sun.foo=ALL"));
}

#[test]
fn test_classpath_args_tail_is_port_and_nogui() {
    let args = make_server_args(25577, None);
    let resolved = make_resolved("cp", None, "Main", vec!["--demo".to_string()]);
    let result = build_classpath_java_args(&args, &[], &resolved, "/s.jar", "/d.jar", "1.20.4", &[]);
    let tail = &result[result.len() - 3..];
    assert_eq!(
        tail,
        &["--port".to_string(), "25577".to_string(), "nogui".to_string()]
    );
    assert!(result.iter().position(|a| a == "--demo").unwrap() < result.len() - 3);
}

#[test]
fn test_build_classpath() {
    let jars = vec!["/a/b.jar".to_string(), "/c/d.jar".to_string()];
    let cp = build_classpath(&jars, CLASSPATH_SEPARATOR);
    assert_eq!(cp, format!("/a/b.jar{}/c/d.jar", CLASSPATH_SEPARATOR));
}

// Own tests.

#[test]
fn launch_side_names() {
    assert_eq!(LaunchSide::Client.as_str(), "client");
    assert_eq!(LaunchSide::Server.as_str(), "server");
}

#[test]
fn build_classpath_of_nothing_is_empty() {
    assert_eq!(build_classpath(&[], ':'), "");
    assert_eq!(build_classpath(&["only.jar".to_string()], ';'), "only.jar");
}

#[test]
fn resolve_jvm_args_fills_placeholders() {
    let args = vec![
        "-p".to_string(),
        "${library_directory}/a.jar${classpath_separator}${library_directory}/b.jar".to_string(),
        "-Dv=${version_name}".to_string(),
    ];
    let out = resolve_jvm_args(&args, "/libs", ':', "1.20.1");
    assert_eq!(out, vec!["-p", "/libs/a.jar:/libs/b.jar", "-Dv=1.20.1"]);
    assert!(loader_jvm_args_resolved(&[], "/libs", ':', "1.20.1").is_none());
}

#[test]
fn module_path_candidates_follow_dash_p() {
    let args = vec![
        "-Dx=y".to_string(),
        "-p".to_string(),
        "/l/a.jar:/l/b.jar".to_string(),
        "--add-modules".to_string(),
        "ALL".to_string(),
        "-p".to_string(),
    ];
    assert_eq!(module_path_candidates(&args, ':'), vec!["/l/a.jar", "/l/b.jar"]);
}

#[test]
fn module_jars_leave_the_classpath() {
    let jars = vec!["/l/a.jar".to_string(), "/l//b.jar".to_string(), "/l/c.jar".to_string()];
    let kept = retain_non_module_jars(&jars, &["/l/b.jar".to_string()]);
    assert_eq!(kept, vec!["/l/a.jar", "/l/c.jar"]);
}

#[test]
fn resolve_classpath_adds_mods_only_without_loader_args() {
    let r = resolve_classpath(
        &["/mc.jar".to_string()],
        &["/mods/a.jar".to_string()],
        None,
        &[],
        "Main",
        vec![],
        ':',
    );
    assert_eq!(r.classpath, "/mc.jar:/mods/a.jar");
    let r = resolve_classpath(
        &["/mc.jar".to_string(), "/l/m.jar".to_string()],
        &["/mods/a.jar".to_string()],
        Some(vec!["-p".to_string(), "/l/m.jar".to_string()]),
        &["/l/m.jar".to_string()],
        "Main",
        vec!["--x".to_string()],
        ':',
    );
    assert_eq!(r.classpath, "/mc.jar");
    assert_eq!(r.main_class, "Main");
    assert_eq!(r.game_args, vec!["--x"]);
}

#[test]
fn user_jvm_args_default_heap_then_user_words() {
    assert_eq!(user_jvm_args_content(&None), "-Xmx2G");
    assert_eq!(user_jvm_args_content(&Some("  -Xms1G   -XX:+UseG1GC ".to_string())), "-Xmx2G\n-Xms1G\n-XX:+UseG1GC");
}

#[test]
fn java_argv_puts_prefix_words_before_args() {
    let prefix = vec!["arch".to_string(), "-x86_64".to_string(), "/jdk/bin/java".to_string()];
    let (program, args) = java_command_argv(&prefix, vec!["-jar".to_string(), "server.jar".to_string()]);
    assert_eq!(program, "arch");
    assert_eq!(args, vec!["-x86_64", "/jdk/bin/java", "-jar", "server.jar"]);
    let (program, args) = java_command_argv(&["java".to_string()], vec!["nogui".to_string()]);
    assert_eq!(program, "java");
    assert_eq!(args, vec!["nogui"]);
}
