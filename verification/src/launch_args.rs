//! Assembly of the Java command lines for the client and the server.
use vstd::prelude::*;
use crate::java::{log4j_mitigation_args, needs_log4j_config_override, needs_log4j_mitigation_spec, log4j_no_lookups_flag, needs_log4j_config_override_spec};
use crate::output::views_of_strings;
use crate::paths::{join_paths, path_join};
use crate::text::{chars_of, chars_eq, has_prefix, split_whitespace_chars, starts_with, string_of, views, words};

verus! {

/// The JVM flag that opens `java.lang` to the unnamed module for loaders that
/// run on the module path.
pub const ADD_OPENS_ARG: &'static str = "--add-opens=java.base/java.lang=ALL-UNNAMED";

/// The flag's text.
pub open spec fn add_opens_arg_spec() -> Seq<char> {
    "--add-opens=java.base/java.lang=ALL-UNNAMED"@
}

/// A module-system flag (`--add-opens…` or `--add-exports…`).
pub open spec fn is_module_flag(a: Seq<char>) -> bool {
    has_prefix(a, "--add-opens"@) || has_prefix(a, "--add-exports"@)
}

/// `acc` extended with the module flags of `args`, in order, each only when
/// not already present.
pub open spec fn add_module_flags(acc: Seq<Seq<char>>, args: Seq<Seq<char>>) -> Seq<Seq<char>>
    decreases args.len(),
{
    if args.len() == 0 {
        acc
    } else {
        let a = add_module_flags(acc, args.drop_last());
        let x = args.last();
        if is_module_flag(x) && !a.contains(x) {
            a.push(x)
        } else {
            a
        }
    }
}

/// `args` without any `-Djava.library.path=` entries.
pub open spec fn without_library_path(args: Seq<Seq<char>>) -> Seq<Seq<char>>
    decreases args.len(),
{
    if args.len() == 0 {
        Seq::empty()
    } else {
        let a = without_library_path(args.drop_last());
        if has_prefix(args.last(), "-Djava.library.path="@) {
            a
        } else {
            a.push(args.last())
        }
    }
}

/// The user's extra JVM arguments, split at whitespace.
pub open spec fn user_jvm_words(jvm: Option<String>) -> Seq<Seq<char>> {
    match jvm {
        Some(s) => words(s@),
        None => Seq::empty(),
    }
}

/// The log4j flags: the lookup mitigation when needed, then the config args.
pub open spec fn log4j_prefix(mc: Seq<char>, config_args: Seq<Seq<char>>) -> Seq<Seq<char>> {
    (if needs_log4j_mitigation_spec(mc) {
        seq![log4j_no_lookups_flag()]
    } else {
        Seq::empty()
    }) + config_args
}

/// The JVM flags after the log4j ones: the loader's resolved flags, the
/// add-opens flag and the Minecraft module flags; or, without loader flags,
/// Minecraft's own flags minus the native library path.
pub open spec fn jvm_section(
    before: Seq<Seq<char>>,
    resolved: Option<Seq<Seq<char>>>,
    mc_jvm_args: Seq<Seq<char>>,
) -> Seq<Seq<char>> {
    match resolved {
        Some(r) => add_module_flags(before + r + seq![add_opens_arg_spec()], mc_jvm_args),
        None => before + without_library_path(mc_jvm_args),
    }
}

/// The resolved classpath pieces the command lines need.
#[derive(Debug)]
pub struct ResolvedClasspath {
    pub classpath: String,
    pub resolved_jvm_args: Option<Vec<String>>,
    pub main_class: String,
    pub game_args: Vec<String>,
}

/// The loader's resolved JVM flags, if any, by content.
pub open spec fn resolved_view(r: &ResolvedClasspath) -> Option<Seq<Seq<char>>> {
    match r.resolved_jvm_args {
        Some(v) => Some(views_of_strings(v@)),
        None => None,
    }
}

/// Appends copies of `src` to `dst`.
fn push_all(dst: &mut Vec<String>, src: &[String])
    ensures
        views_of_strings(final(dst)@) == views_of_strings(old(dst)@) + views_of_strings(src@),
{
    let mut i: usize = 0;
    let ghost start = views_of_strings(dst@);
    while i < src.len()
        invariant
            i <= src.len(),
            views_of_strings(dst@) == start + views_of_strings(src@).take(i as int),
        decreases src.len() - i,
    {
        let ghost before = dst@;
        dst.push(src[i].clone());
        assert(views_of_strings(dst@) =~= views_of_strings(before).push(src@[i as int]@));
        assert(views_of_strings(src@).take(i as int + 1) =~= views_of_strings(src@).take(i as int).push(
            src@[i as int]@,
        ));
        i += 1;
    }
    assert(views_of_strings(src@).take(src.len() as int) =~= views_of_strings(src@));
}

/// Appends one string.
fn push_str(dst: &mut Vec<String>, s: &str)
    ensures
        views_of_strings(final(dst)@) == views_of_strings(old(dst)@).push(s@),
{
    let ghost before = dst@;
    dst.push(String::from_str(s));
    assert(views_of_strings(dst@) =~= views_of_strings(before).push(s@));
}

/// Whether `v` holds a string equal to `s`.
fn contains_string(v: &Vec<String>, s: &String) -> (b: bool)
    ensures
        b == views_of_strings(v@).contains(s@),
{
    let mut i: usize = 0;
    while i < v.len()
        invariant
            i <= v.len(),
            forall|j: int| 0 <= j < i ==> views_of_strings(v@)[j] != s@,
        decreases v.len() - i,
    {
        if crate::text::string_eq(&v[i], s) {
            assert(views_of_strings(v@)[i as int] == s@);
            return true;
        }
        i += 1;
    }
    false
}

/// Whether `s` starts with the text `p`.
fn str_starts_with(s: &String, p: &str) -> (b: bool)
    ensures
        b == has_prefix(s@, p@),
{
    let sc = chars_of(s.as_str());
    let pc = chars_of(p);
    starts_with(&sc, &pc)
}

/// Appends the module flags of `args` that are not yet present.
fn push_module_flags(dst: &mut Vec<String>, args: &[String])
    ensures
        views_of_strings(final(dst)@) == add_module_flags(views_of_strings(old(dst)@), views_of_strings(args@)),
{
    let ghost start = views_of_strings(dst@);
    let ghost av = views_of_strings(args@);
    let mut i: usize = 0;
    while i < args.len()
        invariant
            i <= args.len(),
            av == views_of_strings(args@),
            views_of_strings(dst@) == add_module_flags(start, av.take(i as int)),
        decreases args.len() - i,
    {
        let a = &args[i];
        assert(av.take(i as int + 1).drop_last() == av.take(i as int));
        assert(av.take(i as int + 1).last() == a@);
        if (str_starts_with(a, "--add-opens") || str_starts_with(a, "--add-exports"))
            && !contains_string(dst, a) {
            let ghost before = dst@;
            dst.push(a.clone());
            assert(views_of_strings(dst@) =~= views_of_strings(before).push(a@));
        }
        i += 1;
    }
    assert(av.take(args.len() as int) == av);
}

/// Appends `args` without their `-Djava.library.path=` entries.
fn push_without_library_path(dst: &mut Vec<String>, args: &[String])
    ensures
        views_of_strings(final(dst)@) == views_of_strings(old(dst)@) + without_library_path(
            views_of_strings(args@),
        ),
{
    let ghost start = views_of_strings(dst@);
    let ghost av = views_of_strings(args@);
    let mut i: usize = 0;
    while i < args.len()
        invariant
            i <= args.len(),
            av == views_of_strings(args@),
            views_of_strings(dst@) == start + without_library_path(av.take(i as int)),
        decreases args.len() - i,
    {
        let a = &args[i];
        assert(av.take(i as int + 1).drop_last() == av.take(i as int));
        assert(av.take(i as int + 1).last() == a@);
        if !str_starts_with(a, "-Djava.library.path=") {
            let ghost before = dst@;
            dst.push(a.clone());
            assert(views_of_strings(dst@) =~= views_of_strings(before).push(a@));
            assert(start + without_library_path(av.take(i as int + 1)) =~= (start
                + without_library_path(av.take(i as int))).push(a@));
        }
        i += 1;
    }
    assert(av.take(args.len() as int) == av);
}

/// Appends the whitespace-separated words of `s`.
fn push_words(dst: &mut Vec<String>, s: &str)
    ensures
        views_of_strings(final(dst)@) == views_of_strings(old(dst)@) + words(s@),
{
    let c = chars_of(s);
    let ws = split_whitespace_chars(&c);
    let ghost start = views_of_strings(dst@);
    let mut i: usize = 0;
    while i < ws.len()
        invariant
            i <= ws.len(),
            views(ws@) == words(s@),
            views_of_strings(dst@) == start + views(ws@).take(i as int),
        decreases ws.len() - i,
    {
        let ghost before = dst@;
        dst.push(string_of(&ws[i]));
        assert(views_of_strings(dst@) =~= views_of_strings(before).push(ws@[i as int]@));
        assert(views(ws@).take(i as int + 1) =~= views(ws@).take(i as int).push(ws@[i as int]@));
        i += 1;
    }
    assert(views(ws@).take(ws.len() as int) == views(ws@));
}

/// Appends the log4j flags and the JVM section (see [`jvm_section`]).
fn push_log4j_and_jvm(
    dst: &mut Vec<String>,
    mc_version: &str,
    log4j_config_args: &[String],
    resolved: &Option<Vec<String>>,
    mc_jvm_args: &[String],
)
    ensures
        views_of_strings(final(dst)@) == jvm_section(
            views_of_strings(old(dst)@) + log4j_prefix(mc_version@, views_of_strings(log4j_config_args@)),
            match resolved {
                Some(v) => Some(views_of_strings(v@)),
                None => None,
            },
            views_of_strings(mc_jvm_args@),
        ),
{
    let ghost start = views_of_strings(dst@);
    let mitigation = log4j_mitigation_args(mc_version);
    push_all(dst, &mitigation);
    push_all(dst, log4j_config_args);
    proof {
        if needs_log4j_mitigation_spec(mc_version@) {
            assert(views_of_strings(mitigation@) =~= seq![log4j_no_lookups_flag()]);
        } else {
            assert(views_of_strings(mitigation@) =~= Seq::<Seq<char>>::empty());
        }
        assert(views_of_strings(dst@) =~= start + log4j_prefix(
            mc_version@,
            views_of_strings(log4j_config_args@),
        ));
    }
    match resolved {
        Some(r) => {
            let ghost before = views_of_strings(dst@);
            push_all(dst, r);
            push_str(dst, "--add-opens=java.base/java.lang=ALL-UNNAMED");
            assert(views_of_strings(dst@) =~= before + views_of_strings(r@) + seq![add_opens_arg_spec()]);
            push_module_flags(dst, mc_jvm_args);
        },
        None => {
            push_without_library_path(dst, mc_jvm_args);
        },
    }
}

} // verus!

verus! {

/// Command-line options of `launch client`.
#[derive(Debug)]
pub struct ClientArgs {
    pub offline: bool,
    pub jvm_args: Option<String>,
    pub java: Option<String>,
}

/// Who the client is launched as.
#[derive(Debug)]
pub enum ClientAuth {
    Offline,
    Online { username: String, access_token: String, uuid: String },
}

/// What the client command line is assembled from.
pub struct ClientLaunchInputs<'a> {
    pub natives_dir: &'a str,
    pub mc_cache: &'a str,
    pub mc_jvm_args: &'a [String],
    pub args: &'a ClientArgs,
    pub resolved: &'a ResolvedClasspath,
    pub client_dir: &'a str,
    pub mc_version: &'a str,
    pub asset_index_id: Option<&'a str>,
    /// Args pointing log4j at a patched config; empty when not needed.
    pub log4j_config_args: &'a [String],
    pub auth: &'a ClientAuth,
    /// macOS needs the first thread for the window system.
    pub macos: bool,
}

/// The login arguments.
pub open spec fn auth_args(auth: &ClientAuth) -> Seq<Seq<char>> {
    match auth {
        ClientAuth::Offline => seq![
            "--username"@,
            "Player"@,
            "--accessToken"@,
            "0"@,
            "--uuid"@,
            "00000000000000000000000000000000"@,
        ],
        ClientAuth::Online { username, access_token, uuid } => seq![
            "--username"@,
            username@,
            "--accessToken"@,
            access_token@,
            "--uuid"@,
            uuid@,
        ],
    }
}

/// The first client arguments: the macOS thread flag and the native library path.
pub open spec fn client_head(i: &ClientLaunchInputs) -> Seq<Seq<char>> {
    (if i.macos {
        seq!["-XstartOnFirstThread"@]
    } else {
        Seq::empty()
    }) + seq!["-Djava.library.path="@ + i.natives_dir@]
}

/// The classpath, main class and game arguments.
pub open spec fn main_section(r: &ResolvedClasspath) -> Seq<Seq<char>> {
    seq!["-cp"@, r.classpath@, r.main_class@] + views_of_strings(r.game_args@)
}

/// The game directory, assets, version, login and version type.
pub open spec fn client_tail(i: &ClientLaunchInputs) -> Seq<Seq<char>> {
    seq!["--gameDir"@, i.client_dir@, "--assetsDir"@, path_join(i.mc_cache@, "assets"@)] + (match i.asset_index_id {
        Some(a) => seq!["--assetIndex"@, a@],
        None => Seq::empty(),
    }) + seq!["--version"@, i.mc_version@] + auth_args(i.auth) + seq!["--versionType"@, "yammm"@]
}

/// The full client command line (after the java executable).
pub open spec fn client_args_spec(i: &ClientLaunchInputs) -> Seq<Seq<char>> {
    jvm_section(
        client_head(i) + log4j_prefix(i.mc_version@, views_of_strings(i.log4j_config_args@)),
        resolved_view(i.resolved),
        views_of_strings(i.mc_jvm_args@),
    ) + user_jvm_words(i.args.jvm_args) + main_section(i.resolved) + client_tail(i)
}

fn push_client_head(v: &mut Vec<String>, inputs: &ClientLaunchInputs<'_>)
    ensures
        views_of_strings(final(v)@) == views_of_strings(old(v)@) + client_head(inputs),
{
    let ghost start = views_of_strings(v@);
    if inputs.macos {
        push_str(v, "-XstartOnFirstThread");
    }
    let mut lib = String::from_str("-Djava.library.path=");
    lib.append(inputs.natives_dir);
    let ghost before = v@;
    v.push(lib);
    assert(views_of_strings(v@) =~= views_of_strings(before).push(
        "-Djava.library.path="@ + inputs.natives_dir@,
    ));
    assert(views_of_strings(v@) =~= start + client_head(inputs));
}

fn push_main_section(v: &mut Vec<String>, r: &ResolvedClasspath)
    ensures
        views_of_strings(final(v)@) == views_of_strings(old(v)@) + main_section(r),
{
    let ghost start = views_of_strings(v@);
    push_str(v, "-cp");
    let ghost b1 = v@;
    v.push(r.classpath.clone());
    assert(views_of_strings(v@) =~= views_of_strings(b1).push(r.classpath@));
    let ghost b2 = v@;
    v.push(r.main_class.clone());
    assert(views_of_strings(v@) =~= views_of_strings(b2).push(r.main_class@));
    push_all(v, &r.game_args);
    assert(views_of_strings(v@) =~= start + main_section(r));
}

fn push_auth(v: &mut Vec<String>, auth: &ClientAuth)
    ensures
        views_of_strings(final(v)@) == views_of_strings(old(v)@) + auth_args(auth),
{
    let ghost start = views_of_strings(v@);
    match auth {
        ClientAuth::Offline => {
            push_str(v, "--username");
            push_str(v, "Player");
            push_str(v, "--accessToken");
            push_str(v, "0");
            push_str(v, "--uuid");
            push_str(v, "00000000000000000000000000000000");
        },
        ClientAuth::Online { username, access_token, uuid } => {
            push_str(v, "--username");
            push_str(v, username.as_str());
            push_str(v, "--accessToken");
            push_str(v, access_token.as_str());
            push_str(v, "--uuid");
            push_str(v, uuid.as_str());
        },
    }
    assert(views_of_strings(v@) =~= start + auth_args(auth));
}

fn push_client_tail(v: &mut Vec<String>, inputs: &ClientLaunchInputs<'_>)
    ensures
        views_of_strings(final(v)@) == views_of_strings(old(v)@) + client_tail(inputs),
{
    let ghost start = views_of_strings(v@);
    push_str(v, "--gameDir");
    push_str(v, inputs.client_dir);
    push_str(v, "--assetsDir");
    let assets = join_paths(inputs.mc_cache, "assets");
    push_str(v, assets.as_str());
    let ghost m1 = views_of_strings(v@);
    match inputs.asset_index_id {
        Some(a) => {
            push_str(v, "--assetIndex");
            push_str(v, a);
        },
        None => {},
    }
    push_str(v, "--version");
    push_str(v, inputs.mc_version);
    push_auth(v, inputs.auth);
    push_str(v, "--versionType");
    push_str(v, "yammm");
    assert(views_of_strings(v@) =~= start + client_tail(inputs));
}

/// Assembles the Minecraft client command line. The order matters: `-cp`
/// immediately precedes the main class, game arguments come before `--gameDir`.
pub fn build_client_java_args(inputs: ClientLaunchInputs<'_>) -> (v: Vec<String>)
    ensures
        views_of_strings(v@) == client_args_spec(&inputs),
{
    let mut v: Vec<String> = Vec::new();
    push_client_head(&mut v, &inputs);
    assert(views_of_strings(v@) =~= client_head(&inputs));
    push_log4j_and_jvm(
        &mut v,
        inputs.mc_version,
        inputs.log4j_config_args,
        &inputs.resolved.resolved_jvm_args,
        inputs.mc_jvm_args,
    );
    match &inputs.args.jvm_args {
        Some(j) => push_words(&mut v, j.as_str()),
        None => {
            assert(views_of_strings(v@) + Seq::<Seq<char>>::empty() =~= views_of_strings(v@));
        },
    }
    push_main_section(&mut v, inputs.resolved);
    push_client_tail(&mut v, &inputs);
    v
}

/// Command-line options of `launch server`.
#[derive(Debug)]
pub struct ServerArgs {
    pub port: u16,
    pub jvm_args: Option<String>,
    pub eula: bool,
    pub java: Option<String>,
}

/// The server command line when the loader ships a `unix_args.txt`.
pub open spec fn unix_args_spec(
    port: u16,
    mc_jvm_args: Seq<Seq<char>>,
    unix_args: Seq<char>,
    mc: Seq<char>,
    log4j_config_args: Seq<Seq<char>>,
) -> Seq<Seq<char>> {
    add_module_flags(log4j_prefix(mc, log4j_config_args), mc_jvm_args) + seq![
        "@user_jvm_args.txt"@,
        "@"@ + unix_args,
        "--port"@,
        crate::text::decimal(port as nat),
        "nogui"@,
    ]
}

/// Assembles the server command line for a loader started through
/// `@unix_args.txt`.
pub fn build_unix_args_java_args(
    args: &ServerArgs,
    mc_jvm_args: &[String],
    unix_args: &str,
    mc_version: &str,
    log4j_config_args: &[String],
) -> (v: Vec<String>)
    ensures
        views_of_strings(v@) == unix_args_spec(
            args.port,
            views_of_strings(mc_jvm_args@),
            unix_args@,
            mc_version@,
            views_of_strings(log4j_config_args@),
        ),
{
    let mut v: Vec<String> = Vec::new();
    let mitigation = log4j_mitigation_args(mc_version);
    push_all(&mut v, &mitigation);
    push_all(&mut v, log4j_config_args);
    proof {
        if needs_log4j_mitigation_spec(mc_version@) {
            assert(views_of_strings(mitigation@) =~= seq![log4j_no_lookups_flag()]);
        } else {
            assert(views_of_strings(mitigation@) =~= Seq::<Seq<char>>::empty());
        }
        assert(views_of_strings(v@) =~= log4j_prefix(
            mc_version@,
            views_of_strings(log4j_config_args@),
        ));
    }
    push_module_flags(&mut v, mc_jvm_args);
    let ghost mid = views_of_strings(v@);
    push_str(&mut v, "@user_jvm_args.txt");
    let mut at = String::from_str("@");
    at.append(unix_args);
    let ghost b = v@;
    v.push(at);
    assert(views_of_strings(v@) =~= views_of_strings(b).push("@"@ + unix_args@));
    push_str(&mut v, "--port");
    let port = crate::text::u64_to_decimal(args.port as u64);
    let ghost b2 = v@;
    v.push(port);
    assert(views_of_strings(v@) =~= views_of_strings(b2).push(crate::text::decimal(args.port as nat)));
    push_str(&mut v, "nogui");
    assert(views_of_strings(v@) =~= unix_args_spec(
        args.port,
        views_of_strings(mc_jvm_args@),
        unix_args@,
        mc_version@,
        views_of_strings(log4j_config_args@),
    ));
    v
}

/// The classpath the server is started with: the original server jar is
/// swapped for the patched copy when log4j needs its config replaced.
pub open spec fn server_classpath(cp: Seq<char>, server_jar: Seq<char>, dest_jar: Seq<char>, mc: Seq<char>) -> Seq<char> {
    if needs_log4j_config_override_spec(mc) {
        crate::text::replace_all(cp, server_jar, dest_jar)
    } else {
        cp
    }
}

/// The server command line when launching by classpath.
pub open spec fn classpath_args_spec(
    args: &ServerArgs,
    mc_jvm_args: Seq<Seq<char>>,
    resolved: &ResolvedClasspath,
    server_jar: Seq<char>,
    dest_jar: Seq<char>,
    mc: Seq<char>,
    log4j_config_args: Seq<Seq<char>>,
) -> Seq<Seq<char>> {
    jvm_section(log4j_prefix(mc, log4j_config_args), resolved_view(resolved), mc_jvm_args)
        + user_jvm_words(args.jvm_args) + seq![
        "-cp"@,
        server_classpath(resolved.classpath@, server_jar, dest_jar, mc),
        resolved.main_class@,
    ] + views_of_strings(resolved.game_args@) + seq![
        "--port"@,
        crate::text::decimal(args.port as nat),
        "nogui"@,
    ]
}

/// Assembles the server command line for vanilla, Fabric and Quilt.
pub fn build_classpath_java_args(
    args: &ServerArgs,
    mc_jvm_args: &[String],
    resolved: &ResolvedClasspath,
    server_jar: &str,
    dest_jar: &str,
    mc_version: &str,
    log4j_config_args: &[String],
) -> (v: Vec<String>)
    ensures
        views_of_strings(v@) == classpath_args_spec(
            args,
            views_of_strings(mc_jvm_args@),
            resolved,
            server_jar@,
            dest_jar@,
            mc_version@,
            views_of_strings(log4j_config_args@),
        ),
{
    let mut v: Vec<String> = Vec::new();
    push_log4j_and_jvm(&mut v, mc_version, log4j_config_args, &resolved.resolved_jvm_args, mc_jvm_args);
    assert(Seq::<Seq<char>>::empty() + log4j_prefix(mc_version@, views_of_strings(log4j_config_args@))
        =~= log4j_prefix(mc_version@, views_of_strings(log4j_config_args@)));
    match &args.jvm_args {
        Some(j) => push_words(&mut v, j.as_str()),
        None => {},
    }
    push_str(&mut v, "-cp");
    if needs_log4j_config_override(mc_version) {
        let cp = chars_of(resolved.classpath.as_str());
        let from = chars_of(server_jar);
        let to = chars_of(dest_jar);
        let swapped = crate::text::replace_all_chars(&cp, &from, &to);
        let s = string_of(&swapped);
        let ghost b = v@;
        v.push(s);
        assert(views_of_strings(v@) =~= views_of_strings(b).push(swapped@));
    } else {
        let ghost b = v@;
        v.push(resolved.classpath.clone());
        assert(views_of_strings(v@) =~= views_of_strings(b).push(resolved.classpath@));
    }
    let ghost b = v@;
    v.push(resolved.main_class.clone());
    assert(views_of_strings(v@) =~= views_of_strings(b).push(resolved.main_class@));
    push_all(&mut v, &resolved.game_args);
    push_str(&mut v, "--port");
    let port = crate::text::u64_to_decimal(args.port as u64);
    let ghost b2 = v@;
    v.push(port);
    assert(views_of_strings(v@) =~= views_of_strings(b2).push(crate::text::decimal(args.port as nat)));
    push_str(&mut v, "nogui");
    assert(views_of_strings(v@) =~= classpath_args_spec(
        args,
        views_of_strings(mc_jvm_args@),
        resolved,
        server_jar@,
        dest_jar@,
        mc_version@,
        views_of_strings(log4j_config_args@),
    ));
    v
}


/// At position `k` of `s` stand `-cp`, the classpath, the main class, the
/// game arguments `g` and then `--gameDir`.
pub open spec fn cp_at(s: Seq<Seq<char>>, g: Seq<Seq<char>>, k: int, r: &ResolvedClasspath) -> bool {
    &&& 0 <= k && k + 3 + g.len() < s.len()
    &&& s[k] == "-cp"@
    &&& s[k + 1] == r.classpath@
    &&& s[k + 2] == r.main_class@
    &&& s.subrange(k + 3, k + 3 + g.len()) == g
    &&& s[k + 3 + g.len()] == "--gameDir"@
}

/// In the client command line `-cp` is immediately followed by the classpath
/// and the main class, then come the game arguments, and `--gameDir` follows
/// them.
pub proof fn lemma_client_cp_precedes_main_class(i: &ClientLaunchInputs)
    ensures
        exists|k: int| #[trigger] cp_at(client_args_spec(i), views_of_strings(i.resolved.game_args@), k, i.resolved),
{
    let pre = jvm_section(
        client_head(i) + log4j_prefix(i.mc_version@, views_of_strings(i.log4j_config_args@)),
        resolved_view(i.resolved),
        views_of_strings(i.mc_jvm_args@),
    ) + user_jvm_words(i.args.jvm_args);
    let s = client_args_spec(i);
    let g = views_of_strings(i.resolved.game_args@);
    let k = pre.len() as int;
    assert(s == pre + main_section(i.resolved) + client_tail(i));
    assert(s[k] == "-cp"@);
    assert(s.subrange(k + 3, k + 3 + g.len()) =~= g);
    assert(s[k + 3 + g.len()] == "--gameDir"@);
    assert(cp_at(s, g, k, i.resolved));
}

/// Both server command lines end with `--port`, the port and `nogui`.
pub proof fn lemma_server_args_end_with_port(
    args: &ServerArgs,
    mc_jvm_args: Seq<Seq<char>>,
    unix_args: Seq<char>,
    resolved: &ResolvedClasspath,
    server_jar: Seq<char>,
    dest_jar: Seq<char>,
    mc: Seq<char>,
    log4j_config_args: Seq<Seq<char>>,
)
    ensures
        ({
            let u = unix_args_spec(args.port, mc_jvm_args, unix_args, mc, log4j_config_args);
            u.len() >= 3 && u.subrange(u.len() - 3, u.len() as int) == seq![
                "--port"@,
                crate::text::decimal(args.port as nat),
                "nogui"@,
            ]
        }),
        ({
            let c = classpath_args_spec(args, mc_jvm_args, resolved, server_jar, dest_jar, mc, log4j_config_args);
            c.len() >= 3 && c.subrange(c.len() - 3, c.len() as int) == seq![
                "--port"@,
                crate::text::decimal(args.port as nat),
                "nogui"@,
            ]
        }),
{
    let u = unix_args_spec(args.port, mc_jvm_args, unix_args, mc, log4j_config_args);
    assert(u.subrange(u.len() - 3, u.len() as int) =~= seq![
        "--port"@,
        crate::text::decimal(args.port as nat),
        "nogui"@,
    ]);
    let c = classpath_args_spec(args, mc_jvm_args, resolved, server_jar, dest_jar, mc, log4j_config_args);
    assert(c.subrange(c.len() - 3, c.len() as int) =~= seq![
        "--port"@,
        crate::text::decimal(args.port as nat),
        "nogui"@,
    ]);
}

/// The default `user_jvm_args.txt` of a server: a 2 GB heap, then the
/// user's extra JVM arguments, one per line.
pub open spec fn user_jvm_args_spec(jvm: Option<String>) -> Seq<char> {
    crate::text::join_with(seq!["-Xmx2G"@] + user_jvm_words(jvm), "\n"@)
}

/// The text written to a server's `user_jvm_args.txt` when it is missing.
pub fn user_jvm_args_content(jvm_args: &Option<String>) -> (s: String)
    ensures
        s@ == user_jvm_args_spec(*jvm_args),
{
    let mut lines: Vec<Vec<char>> = Vec::new();
    lines.push(chars_of("-Xmx2G"));
    let ghost head = views(lines@);
    assert(head =~= seq!["-Xmx2G"@]);
    match jvm_args {
        Some(j) => {
            let ws = split_whitespace_chars(&chars_of(j.as_str()));
            let mut i: usize = 0;
            while i < ws.len()
                invariant
                    i <= ws@.len(),
                    views(lines@) == head + views(ws@).take(i as int),
                decreases ws@.len() - i,
            {
                let ghost before = lines@;
                lines.push(crate::text::copy_chars(ws[i].as_slice()));
                assert(views(lines@) =~= views(before).push(ws@[i as int]@));
                assert(views(ws@).take(i as int + 1) =~= views(ws@).take(i as int).push(ws@[i as int]@));
                i += 1;
            }
            assert(views(ws@).take(ws@.len() as int) == views(ws@));
            assert(views(lines@) == seq!["-Xmx2G"@] + user_jvm_words(*jvm_args));
        },
        None => {
            assert(head + Seq::<Seq<char>>::empty() =~= head);
            assert(views(lines@) == seq!["-Xmx2G"@] + user_jvm_words(*jvm_args));
        },
    }
    let nl = chars_of("\n");
    string_of(crate::text::join_chars(lines.as_slice(), nl.as_slice()).as_slice())
}

/// The program and arguments of a Java launch: the prefix's first word is
/// the program; its other words come before the launch arguments.
pub fn java_command_argv(java_prefix: &[String], java_args: Vec<String>) -> (r: (String, Vec<String>))
    requires
        java_prefix@.len() >= 1,
    ensures
        r.0@ == java_prefix@[0]@,
        views_of_strings(r.1@) == views_of_strings(java_prefix@.skip(1)) + views_of_strings(java_args@),
{
    let mut all: Vec<String> = Vec::new();
    let mut i: usize = 1;
    while i < java_prefix.len()
        invariant
            1 <= i <= java_prefix@.len(),
            views_of_strings(all@) == views_of_strings(java_prefix@.subrange(1, i as int)),
        decreases java_prefix@.len() - i,
    {
        let ghost before = all@;
        all.push(java_prefix[i].clone());
        assert(views_of_strings(all@) =~= views_of_strings(before).push(java_prefix@[i as int]@));
        assert(java_prefix@.subrange(1, i as int + 1) =~= java_prefix@.subrange(1, i as int).push(java_prefix@[i as int]));
        i += 1;
    }
    assert(java_prefix@.subrange(1, java_prefix@.len() as int) =~= java_prefix@.skip(1));
    let ghost head = all@;
    let mut k: usize = 0;
    while k < java_args.len()
        invariant
            k <= java_args@.len(),
            views_of_strings(all@) == views_of_strings(head) + views_of_strings(java_args@.take(k as int)),
        decreases java_args@.len() - k,
    {
        let ghost before = all@;
        all.push(java_args[k].clone());
        assert(views_of_strings(all@) =~= views_of_strings(before).push(java_args@[k as int]@));
        assert(java_args@.take(k as int + 1) =~= java_args@.take(k as int).push(java_args@[k as int]));
        assert(views_of_strings(java_args@.take(k as int + 1)) =~= views_of_strings(java_args@.take(k as int)).push(
            java_args@[k as int]@,
        ));
        k += 1;
    }
    assert(java_args@.take(java_args@.len() as int) =~= java_args@);
    (java_prefix[0].clone(), all)
}

} // verus!
