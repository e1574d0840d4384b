//! The classpath of a launch, the loader's JVM flags with their placeholders
//! filled in, and the jar names that a server's argument file refers to.
use vstd::prelude::*;
use crate::import::{file_name_spec, path_file_name};
use crate::launch_args::ResolvedClasspath;
use crate::output::{views_of_strings, DiagnosticKind, EventView, OutputEvent, StatusKind};
use crate::config::ModpackManifest;
use crate::types::LoaderType;
use crate::paths::{components, components_eq, path_components};
use crate::text::{
    chars_eq, chars_of, ends_with, has_infix, has_prefix, has_suffix, join_chars, lines_chars, lines_spec,
    replace_all, replace_all_chars, split_chars, split_on, split_whitespace_chars, starts_with,
    string_of, trim_chars, trim_spec, views, words,
};

verus! {

/// The side of the game being launched.
#[derive(Clone, Copy, PartialEq, Eq, Structural)]
pub enum LaunchSide {
    Client,
    Server,
}

impl LaunchSide {
    /// The side's name, as used in directory names.
    pub fn as_str(&self) -> (s: &'static str)
        ensures
            s@ == (match self {
                LaunchSide::Client => "client"@,
                LaunchSide::Server => "server"@,
            }),
    {
        match self {
            LaunchSide::Client => "client",
            LaunchSide::Server => "server",
        }
    }
}

/// The characters of each string, in order.
pub fn chars_of_strings(v: &[String]) -> (r: Vec<Vec<char>>)
    ensures
        views(r@) == views_of_strings(v@),
{
    let mut r: Vec<Vec<char>> = Vec::new();
    let mut i: usize = 0;
    while i < v.len()
        invariant
            i <= v.len(),
            views(r@) == views_of_strings(v@).take(i as int),
        decreases v.len() - i,
    {
        let ghost before = r@;
        r.push(chars_of(v[i].as_str()));
        assert(views(r@) =~= views(before).push(v@[i as int]@));
        assert(views_of_strings(v@).take(i as int + 1) =~= views_of_strings(v@).take(i as int).push(
            v@[i as int]@,
        ));
        i += 1;
    }
    assert(views_of_strings(v@).take(v.len() as int) =~= views_of_strings(v@));
    r
}

/// The classpath: the jar paths joined with the platform's separator.
pub fn build_classpath(jars: &[String], separator: char) -> (cp: String)
    ensures
        cp@ == crate::text::join_with(views_of_strings(jars@), seq![separator]),
{
    let parts = chars_of_strings(jars);
    let sep = [separator];
    assert(sep@ =~= seq![separator]);
    let joined = join_chars(&parts, &sep);
    string_of(&joined)
}

/// A loader JVM flag with its placeholders filled in, in this order:
/// `${library_directory}`, `${classpath_separator}`, `${version_name}`.
pub open spec fn resolve_placeholders(arg: Seq<char>, lib_dir: Seq<char>, sep: char, version: Seq<char>) -> Seq<char> {
    replace_all(
        replace_all(
            replace_all(arg, "${library_directory}"@, lib_dir),
            "${classpath_separator}"@,
            seq![sep],
        ),
        "${version_name}"@,
        version,
    )
}

/// The loader's JVM flags with the library directory, the classpath
/// separator and the version name filled in.
pub fn resolve_jvm_args(args: &[String], loader_lib_dir: &str, separator: char, version_name: &str) -> (out: Vec<String>)
    ensures
        out@.len() == args@.len(),
        forall|i: int|
            0 <= i < args@.len() ==> (#[trigger] out@[i])@ == resolve_placeholders(
                args@[i]@,
                loader_lib_dir@,
                separator,
                version_name@,
            ),
{
    let lib = chars_of(loader_lib_dir);
    let ver = chars_of(version_name);
    let sep = [separator];
    assert(sep@ =~= seq![separator]);
    let p_lib = chars_of("${library_directory}");
    let p_sep = chars_of("${classpath_separator}");
    let p_ver = chars_of("${version_name}");
    let mut out: Vec<String> = Vec::new();
    let mut i: usize = 0;
    while i < args.len()
        invariant
            i <= args.len(),
            out@.len() == i,
            lib@ == loader_lib_dir@,
            ver@ == version_name@,
            sep@ == seq![separator],
            p_lib@ == "${library_directory}"@,
            p_sep@ == "${classpath_separator}"@,
            p_ver@ == "${version_name}"@,
            forall|k: int|
                0 <= k < i ==> (#[trigger] out@[k])@ == resolve_placeholders(
                    args@[k]@,
                    loader_lib_dir@,
                    separator,
                    version_name@,
                ),
        decreases args.len() - i,
    {
        let a = chars_of(args[i].as_str());
        let r1 = replace_all_chars(&a, &p_lib, &lib);
        let r2 = replace_all_chars(&r1, &p_sep, &sep);
        let r3 = replace_all_chars(&r2, &p_ver, &ver);
        out.push(string_of(&r3));
        i += 1;
    }
    out
}

/// The loader's JVM flags resolved, or `None` when the loader has none.
pub fn loader_jvm_args_resolved(
    loader_jvm_args: &[String],
    loader_lib_dir: &str,
    separator: char,
    version_name: &str,
) -> (r: Option<Vec<String>>)
    ensures
        loader_jvm_args@.len() == 0 ==> r is None,
        loader_jvm_args@.len() > 0 ==> r is Some && r->0@.len() == loader_jvm_args@.len() && forall|i: int|
            0 <= i < loader_jvm_args@.len() ==> (#[trigger] r->0@[i])@ == resolve_placeholders(
                loader_jvm_args@[i]@,
                loader_lib_dir@,
                separator,
                version_name@,
            ),
{
    if loader_jvm_args.len() == 0 {
        None
    } else {
        Some(resolve_jvm_args(loader_jvm_args, loader_lib_dir, separator, version_name))
    }
}

/// The entries of every module path given with `-p`: each `-p` takes the
/// next argument as a separator-joined list of paths.
pub open spec fn module_path_entries(args: Seq<Seq<char>>, sep: char) -> Seq<Seq<char>>
    decreases args.len(),
{
    if args.len() == 0 {
        Seq::empty()
    } else if args[0] == "-p"@ {
        if args.len() >= 2 {
            split_on(args[1], sep) + module_path_entries(args.skip(2), sep)
        } else {
            Seq::empty()
        }
    } else {
        module_path_entries(args.skip(1), sep)
    }
}

/// The paths named on the module path of the resolved loader flags, in
/// order. Which of them exist on disk is for the caller to find out.
pub fn module_path_candidates(resolved_args: &[String], separator: char) -> (out: Vec<String>)
    ensures
        views_of_strings(out@) == module_path_entries(views_of_strings(resolved_args@), separator),
{
    let ghost all = views_of_strings(resolved_args@);
    let p = chars_of("-p");
    let mut out: Vec<String> = Vec::new();
    let mut i: usize = 0;
    assert(all.skip(0) == all);
    while i < resolved_args.len()
        invariant
            i <= resolved_args.len(),
            all == views_of_strings(resolved_args@),
            p@ == "-p"@,
            views_of_strings(out@) + module_path_entries(all.skip(i as int), separator)
                == module_path_entries(all, separator),
        decreases resolved_args.len() - i,
    {
        let ghost rest = all.skip(i as int);
        let a = chars_of(resolved_args[i].as_str());
        assert(rest[0] == a@);
        if chars_eq(&a, &p) {
            if i + 1 < resolved_args.len() {
                let parts = split_chars(&chars_of(resolved_args[i + 1].as_str()), separator);
                assert(rest[1] == resolved_args@[i + 1]@);
                let ghost before = views_of_strings(out@);
                let mut k: usize = 0;
                while k < parts.len()
                    invariant
                        k <= parts.len(),
                        views_of_strings(out@) == before + views(parts@).take(k as int),
                    decreases parts.len() - k,
                {
                    let ghost o = out@;
                    out.push(string_of(&parts[k]));
                    assert(views_of_strings(out@) =~= views_of_strings(o).push(parts@[k as int]@));
                    assert(views(parts@).take(k as int + 1) =~= views(parts@).take(k as int).push(
                        parts@[k as int]@,
                    ));
                    k += 1;
                }
                assert(views(parts@).take(parts.len() as int) == views(parts@));
                assert(rest.skip(2) =~= all.skip(i + 2));
                i += 2;
            } else {
                assert(module_path_entries(rest, separator) == Seq::<Seq<char>>::empty());
                assert(views_of_strings(out@) + Seq::<Seq<char>>::empty() =~= views_of_strings(out@));
                assert(all.skip(i + 1).len() == 0);
                assert(module_path_entries(all.skip(i + 1), separator) == Seq::<Seq<char>>::empty());
                i += 1;
            }
        } else {
            assert(rest.skip(1) =~= all.skip(i + 1));
            i += 1;
        }
    }
    assert(all.skip(resolved_args.len() as int).len() == 0);
    assert(views_of_strings(out@) + Seq::<Seq<char>>::empty() =~= views_of_strings(out@));
    out
}

/// `jars` without those that name, component by component, one of `module_jars`
/// (the comparison that `Path` equality makes).
pub open spec fn jars_outside(jars: Seq<Seq<char>>, module_jars: Seq<Seq<char>>) -> Seq<Seq<char>>
    decreases jars.len(),
{
    if jars.len() == 0 {
        Seq::empty()
    } else {
        let prev = jars_outside(jars.drop_last(), module_jars);
        let j = jars.last();
        if exists|k: int| 0 <= k < module_jars.len() && path_components(#[trigger] module_jars[k]) == path_components(j) {
            prev
        } else {
            prev.push(j)
        }
    }
}

/// The classpath jars without those that sit on the module path.
pub fn retain_non_module_jars(jars: &[String], module_jars: &[String]) -> (out: Vec<String>)
    ensures
        views_of_strings(out@) == jars_outside(views_of_strings(jars@), views_of_strings(module_jars@)),
{
    let ghost js = views_of_strings(jars@);
    let ghost ms = views_of_strings(module_jars@);
    let mut mods: Vec<Vec<Vec<char>>> = Vec::new();
    let mut k: usize = 0;
    while k < module_jars.len()
        invariant
            k <= module_jars.len(),
            mods@.len() == k,
            ms == views_of_strings(module_jars@),
            forall|j: int| 0 <= j < k ==> views(#[trigger] mods@[j]@) == path_components(ms[j]),
        decreases module_jars.len() - k,
    {
        let c = chars_of(module_jars[k].as_str());
        mods.push(components(&c));
        k += 1;
    }
    let mut out: Vec<String> = Vec::new();
    let mut i: usize = 0;
    while i < jars.len()
        invariant
            i <= jars.len(),
            js == views_of_strings(jars@),
            ms == views_of_strings(module_jars@),
            mods@.len() == ms.len(),
            forall|j: int| 0 <= j < ms.len() ==> views(#[trigger] mods@[j]@) == path_components(ms[j]),
            views_of_strings(out@) == jars_outside(js.take(i as int), ms),
        decreases jars.len() - i,
    {
        let jc = components(&chars_of(jars[i].as_str()));
        let mut found = false;
        let mut m: usize = 0;
        while m < mods.len()
            invariant
                m <= mods.len(),
                mods@.len() == ms.len(),
                forall|j: int| 0 <= j < ms.len() ==> views(#[trigger] mods@[j]@) == path_components(ms[j]),
                views(jc@) == path_components(js[i as int]),
                found == exists|q: int| 0 <= q < m && path_components(#[trigger] ms[q]) == path_components(js[i as int]),
            decreases mods.len() - m,
        {
            if !found && components_eq(&mods[m], &jc) {
                found = true;
            }
            proof {
                if views(mods@[m as int]@) == views(jc@) {
                    assert(path_components(ms[m as int]) == path_components(js[i as int]));
                }
            }
            m += 1;
        }
        let ghost t = js.take(i as int + 1);
        assert(t.drop_last() == js.take(i as int));
        assert(t.last() == js[i as int]);
        if !found {
            let ghost o = out@;
            out.push(jars[i].clone());
            assert(views_of_strings(out@) =~= views_of_strings(o).push(js[i as int]));
        }
        i += 1;
    }
    assert(js.take(jars.len() as int) == js);
    out
}

/// Puts together the classpath of a launch: the launch's jars, then the mod
/// jars when the loader brings no JVM flags of its own, minus the jars that
/// the loader puts on the module path (those of `existing_module_jars`, the
/// candidates that exist on disk).
pub fn resolve_classpath(
    classpath_jars: &[String],
    mod_jars: &[String],
    resolved_jvm_args: Option<Vec<String>>,
    existing_module_jars: &[String],
    main_class: &str,
    game_args: Vec<String>,
    separator: char,
) -> (r: ResolvedClasspath)
    ensures
        r.classpath@ == crate::text::join_with(
            jars_outside(
                views_of_strings(classpath_jars@) + (if resolved_jvm_args is None {
                    views_of_strings(mod_jars@)
                } else {
                    Seq::empty()
                }),
                views_of_strings(existing_module_jars@),
            ),
            seq![separator],
        ),
        r.resolved_jvm_args == resolved_jvm_args,
        r.main_class@ == main_class@,
        r.game_args == game_args,
{
    let mut jars: Vec<String> = Vec::new();
    let mut i: usize = 0;
    while i < classpath_jars.len()
        invariant
            i <= classpath_jars.len(),
            views_of_strings(jars@) == views_of_strings(classpath_jars@).take(i as int),
        decreases classpath_jars.len() - i,
    {
        let ghost o = jars@;
        jars.push(classpath_jars[i].clone());
        assert(views_of_strings(jars@) =~= views_of_strings(o).push(classpath_jars@[i as int]@));
        assert(views_of_strings(classpath_jars@).take(i as int + 1) =~= views_of_strings(classpath_jars@).take(
            i as int,
        ).push(classpath_jars@[i as int]@));
        i += 1;
    }
    assert(views_of_strings(classpath_jars@).take(classpath_jars.len() as int) == views_of_strings(
        classpath_jars@,
    ));
    if resolved_jvm_args.is_none() {
        let ghost base = views_of_strings(jars@);
        let mut k: usize = 0;
        while k < mod_jars.len()
            invariant
                k <= mod_jars.len(),
                views_of_strings(jars@) == base + views_of_strings(mod_jars@).take(k as int),
            decreases mod_jars.len() - k,
        {
            let ghost o = jars@;
            jars.push(mod_jars[k].clone());
            assert(views_of_strings(jars@) =~= views_of_strings(o).push(mod_jars@[k as int]@));
            assert(views_of_strings(mod_jars@).take(k as int + 1) =~= views_of_strings(mod_jars@).take(
                k as int,
            ).push(mod_jars@[k as int]@));
            k += 1;
        }
        assert(views_of_strings(mod_jars@).take(mod_jars.len() as int) == views_of_strings(mod_jars@));
    } else {
        assert(views_of_strings(jars@) + Seq::<Seq<char>>::empty() =~= views_of_strings(jars@));
    }
    let kept = retain_non_module_jars(&jars, existing_module_jars);
    let classpath = build_classpath(&kept, separator);
    ResolvedClasspath {
        classpath,
        resolved_jvm_args,
        main_class: String::from_str(main_class),
        game_args,
    }
}

/// The file name under which a token of an argument file is linked into the
/// server directory: a relative path ending in `.jar` that is not a flag.
pub open spec fn shim_jar_name(tok: Seq<char>) -> Option<Seq<char>> {
    if !has_suffix(tok, ".jar"@) || has_prefix(tok, "-"@) || has_prefix(tok, "/"@) {
        None
    } else {
        file_name_spec(tok)
    }
}

/// The jar names among the tokens, in order.
pub open spec fn shim_names_of_tokens(ts: Seq<Seq<char>>) -> Seq<Seq<char>>
    decreases ts.len(),
{
    if ts.len() == 0 {
        Seq::empty()
    } else {
        let prev = shim_names_of_tokens(ts.drop_last());
        match shim_jar_name(ts.last()) {
            Some(n) => prev.push(n),
            None => prev,
        }
    }
}

/// The jar names on one line; blank lines and `#` comments have none.
pub open spec fn shim_line_names(line: Seq<char>) -> Seq<Seq<char>> {
    let t = trim_spec(line);
    if t.len() == 0 || t[0] == '#' {
        Seq::empty()
    } else {
        shim_names_of_tokens(words(t))
    }
}

/// The jar names of the lines, in order.
pub open spec fn shim_names_of_lines(ls: Seq<Seq<char>>) -> Seq<Seq<char>>
    decreases ls.len(),
{
    if ls.len() == 0 {
        Seq::empty()
    } else {
        shim_names_of_lines(ls.drop_last()) + shim_line_names(ls.last())
    }
}

fn shim_jar_name_exec(tok: &[char]) -> (r: Option<Vec<char>>)
    ensures
        match r {
            Some(n) => shim_jar_name(tok@) == Some(n@),
            None => shim_jar_name(tok@) is None,
        },
{
    let jar = chars_of(".jar");
    let dash = chars_of("-");
    let slash = chars_of("/");
    if !ends_with(tok, &jar) || starts_with(tok, &dash) || starts_with(tok, &slash) {
        return None;
    }
    path_file_name(tok)
}

/// The bare file names of the relative `.jar` paths that a Forge or NeoForge
/// `unix_args.txt` names: blank lines and `#` comments are skipped, and so are
/// tokens that do not end in `.jar`, flags (starting with `-`) and absolute
/// paths; of each remaining path only the last component is kept.
pub fn parse_shim_jar_filenames(contents: &str) -> (names: Vec<String>)
    ensures
        views_of_strings(names@) == shim_names_of_lines(lines_spec(contents@)),
{
    let c = chars_of(contents);
    let lines = lines_chars(&c);
    let ghost ls = views(lines@);
    let mut names: Vec<String> = Vec::new();
    let mut i: usize = 0;
    while i < lines.len()
        invariant
            i <= lines.len(),
            ls == views(lines@),
            views_of_strings(names@) == shim_names_of_lines(ls.take(i as int)),
        decreases lines.len() - i,
    {
        let ghost before = views_of_strings(names@);
        let line = trim_chars(&lines[i]);
        assert(ls[i as int] == lines@[i as int]@);
        if line.len() > 0 && line[0] != '#' {
            let toks = split_whitespace_chars(&line);
            let mut k: usize = 0;
            while k < toks.len()
                invariant
                    k <= toks.len(),
                    views_of_strings(names@) == before + shim_names_of_tokens(views(toks@).take(k as int)),
                decreases toks.len() - k,
            {
                let ghost t = views(toks@).take(k as int + 1);
                assert(t.drop_last() =~= views(toks@).take(k as int));
                assert(t.last() == toks@[k as int]@);
                match shim_jar_name_exec(&toks[k]) {
                    Some(n) => {
                        let ghost o = names@;
                        names.push(string_of(&n));
                        assert(views_of_strings(names@) =~= views_of_strings(o).push(n@));
                    },
                    None => {},
                }
                k += 1;
            }
            assert(views(toks@).take(toks.len() as int) == views(toks@));
        } else {
            assert(before + Seq::<Seq<char>>::empty() =~= before);
        }
        assert(ls.take(i as int + 1).drop_last() == ls.take(i as int));
        assert(ls.take(i as int + 1).last() == ls[i as int]);
        i += 1;
    }
    assert(ls.take(lines.len() as int) == ls);
    names
}


/// `jars` without those whose path contains one of `names`.
pub open spec fn dedup_spec(jars: Seq<Seq<char>>, names: Seq<Seq<char>>) -> Seq<Seq<char>>
    decreases jars.len(),
{
    if jars.len() == 0 {
        Seq::empty()
    } else {
        let prev = dedup_spec(jars.drop_last(), names);
        let j = jars.last();
        if exists|k: int| 0 <= k < names.len() && has_infix(j, #[trigger] names[k]) {
            prev
        } else {
            prev.push(j)
        }
    }
}

/// Drops the classpath jars whose path contains one of the names a loader
/// ships its own copy of.
pub fn deduplicate_classpath(classpath_jars: &mut Vec<String>, dedup_names: &[String])
    ensures
        views_of_strings(final(classpath_jars)@) == dedup_spec(
            views_of_strings(old(classpath_jars)@),
            views_of_strings(dedup_names@),
        ),
{
    let ghost js = views_of_strings(classpath_jars@);
    let ghost ns = views_of_strings(dedup_names@);
    let names = chars_of_strings(dedup_names);
    let mut kept: Vec<String> = Vec::new();
    let mut i: usize = 0;
    while i < classpath_jars.len()
        invariant
            i <= classpath_jars.len(),
            js == views_of_strings(classpath_jars@),
            ns == views_of_strings(dedup_names@),
            views(names@) == ns,
            views_of_strings(kept@) == dedup_spec(js.take(i as int), ns),
        decreases classpath_jars.len() - i,
    {
        let jc = chars_of(classpath_jars[i].as_str());
        let mut hit = false;
        let mut k: usize = 0;
        while k < names.len()
            invariant
                k <= names.len(),
                views(names@) == ns,
                jc@ == js[i as int],
                hit == exists|q: int| 0 <= q < k && has_infix(js[i as int], #[trigger] ns[q]),
            decreases names.len() - k,
        {
            assert(ns[k as int] == names@[k as int]@);
            if !hit && crate::text::contains_chars(&jc, &names[k]) {
                hit = true;
            }
            k += 1;
        }
        let ghost t = js.take(i as int + 1);
        assert(t.drop_last() == js.take(i as int));
        assert(t.last() == js[i as int]);
        if !hit {
            let ghost o = kept@;
            kept.push(classpath_jars[i].clone());
            assert(views_of_strings(kept@) =~= views_of_strings(o).push(js[i as int]));
        }
        i += 1;
    }
    assert(js.take(classpath_jars.len() as int) == js);
    *classpath_jars = kept;
}

/// The jars a launch starts from: the game jar, Minecraft's libraries unless
/// a Fabric-like server runs from a bundler jar (which carries its own), the
/// game jar dropped when the loader replaces it, the libraries that the
/// loader ships itself left out, then the loader's jars.
pub open spec fn launch_jars_spec(
    mc_jar: Seq<char>,
    mc_libs: Seq<Seq<char>>,
    skip_mc_libs: bool,
    replaces_mc_jar: bool,
    dedup_names: Seq<Seq<char>>,
    loader_jars: Seq<Seq<char>>,
) -> Seq<Seq<char>> {
    let base = seq![mc_jar] + (if skip_mc_libs {
        Seq::empty()
    } else {
        mc_libs
    });
    let trimmed = if replaces_mc_jar {
        base.drop_first()
    } else {
        base
    };
    dedup_spec(trimmed, dedup_names) + loader_jars
}

/// Whether Minecraft's own libraries stay off the classpath: a Fabric-like
/// loader on a server whose jar is a bundler.
pub fn skips_mc_libraries(fabric_like: bool, side: LaunchSide, is_bundler_jar: bool) -> (b: bool)
    ensures
        b == (fabric_like && side == LaunchSide::Server && is_bundler_jar),
{
    fabric_like && side == LaunchSide::Server && is_bundler_jar
}

/// The classpath jars of a launch (see [`launch_jars_spec`]).
pub fn launch_classpath_jars(
    mc_jar: &str,
    mc_libs: &[String],
    skip_mc_libs: bool,
    replaces_mc_jar: bool,
    dedup_names: &[String],
    loader_jars: &[String],
) -> (jars: Vec<String>)
    ensures
        views_of_strings(jars@) == launch_jars_spec(
            mc_jar@,
            views_of_strings(mc_libs@),
            skip_mc_libs,
            replaces_mc_jar,
            views_of_strings(dedup_names@),
            views_of_strings(loader_jars@),
        ),
{
    let mut jars: Vec<String> = Vec::new();
    if !replaces_mc_jar {
        jars.push(String::from_str(mc_jar));
    }
    let ghost start = views_of_strings(jars@);
    if !skip_mc_libs {
        let mut i: usize = 0;
        while i < mc_libs.len()
            invariant
                i <= mc_libs.len(),
                views_of_strings(jars@) == start + views_of_strings(mc_libs@).take(i as int),
            decreases mc_libs.len() - i,
        {
            let ghost o = jars@;
            jars.push(mc_libs[i].clone());
            assert(views_of_strings(jars@) =~= views_of_strings(o).push(mc_libs@[i as int]@));
            assert(views_of_strings(mc_libs@).take(i as int + 1) =~= views_of_strings(mc_libs@).take(i as int).push(
                mc_libs@[i as int]@,
            ));
            i += 1;
        }
        assert(views_of_strings(mc_libs@).take(mc_libs.len() as int) == views_of_strings(mc_libs@));
    }
    let ghost base = seq![mc_jar@] + (if skip_mc_libs {
        Seq::<Seq<char>>::empty()
    } else {
        views_of_strings(mc_libs@)
    });
    assert(views_of_strings(jars@) =~= (if replaces_mc_jar {
        base.drop_first()
    } else {
        base
    }));
    deduplicate_classpath(&mut jars, dedup_names);
    let ghost mid = views_of_strings(jars@);
    let mut k: usize = 0;
    while k < loader_jars.len()
        invariant
            k <= loader_jars.len(),
            views_of_strings(jars@) == mid + views_of_strings(loader_jars@).take(k as int),
        decreases loader_jars.len() - k,
    {
        let ghost o = jars@;
        jars.push(loader_jars[k].clone());
        assert(views_of_strings(jars@) =~= views_of_strings(o).push(loader_jars@[k as int]@));
        assert(views_of_strings(loader_jars@).take(k as int + 1) =~= views_of_strings(loader_jars@).take(
            k as int,
        ).push(loader_jars@[k as int]@));
        k += 1;
    }
    assert(views_of_strings(loader_jars@).take(loader_jars.len() as int) == views_of_strings(loader_jars@));
    jars
}


/// The mod ids that count as a loader's companion library.
pub open spec fn companion_ids(l: LoaderType) -> Seq<Seq<char>> {
    match l {
        LoaderType::Fabric => seq!["fabric-api"@, "fabric"@, "fabricapi"@],
        LoaderType::Forge => seq!["forge"@, "minecraftforge"@],
        LoaderType::NeoForge => seq!["neoforge"@, "neoforged"@],
        LoaderType::Quilt => seq!["qsl"@, "quilted-fabric-api"@, "qfapi"@],
    }
}

/// The warning when a loader's companion library is missing.
pub open spec fn missing_companion_warning(l: LoaderType) -> Seq<char> {
    match l {
        LoaderType::Fabric => "Fabric API is missing! Most Fabric mods require it."@,
        LoaderType::Forge => "Forge is present but no core Forge API mod detected. Some mods may not work."@,
        LoaderType::NeoForge => "NeoForge is present but no core NeoForge API mod detected. Some mods may not work."@,
        LoaderType::Quilt => "Quilt Standard Libraries is missing! Most Quilt mods require it."@,
    }
}

/// The hint shown after the warning, for loaders whose companion can be added.
pub open spec fn missing_companion_hint(l: LoaderType) -> Seq<EventView> {
    match l {
        LoaderType::Fabric => seq![EventView::Status(StatusKind::Dim, "  Run: yammm add fabric-api"@)],
        LoaderType::Quilt => seq![EventView::Status(StatusKind::Dim, "  Run: yammm add qsl"@)],
        _ => Seq::empty(),
    }
}

/// Some installed mod id is one of the loader's companion ids.
pub open spec fn has_companion(ids: Seq<Seq<char>>, l: LoaderType) -> bool {
    exists|i: int| 0 <= i < ids.len() && companion_ids(l).contains(#[trigger] ids[i])
}

fn is_companion(id: &str, l: LoaderType) -> (b: bool)
    ensures
        b == companion_ids(l).contains(id@),
{
    let r = match l {
        LoaderType::Fabric => crate::text::str_eq(id, "fabric-api") || crate::text::str_eq(id, "fabric")
            || crate::text::str_eq(id, "fabricapi"),
        LoaderType::Forge => crate::text::str_eq(id, "forge") || crate::text::str_eq(id, "minecraftforge"),
        LoaderType::NeoForge => crate::text::str_eq(id, "neoforge") || crate::text::str_eq(id, "neoforged"),
        LoaderType::Quilt => crate::text::str_eq(id, "qsl") || crate::text::str_eq(id, "quilted-fabric-api")
            || crate::text::str_eq(id, "qfapi"),
    };
    proof {
        let c = companion_ids(l);
        if r {
            if id@ == c[0] {
                assert(c.contains(id@));
            } else if id@ == c[1] {
                assert(c.contains(id@));
            } else {
                assert(id@ == c[2]);
                assert(c.contains(id@));
            }
        } else {
            assert forall|j: int| 0 <= j < c.len() implies c[j] != id@ by {}
        }
    }
    r
}

/// What the companion check emits: nothing when there are no mods or the
/// companion is installed, else the warning and, where there is one, the hint.
pub open spec fn modloader_dep_events(ids: Seq<Seq<char>>, l: LoaderType) -> Seq<EventView> {
    if ids.len() == 0 || has_companion(ids, l) {
        Seq::empty()
    } else {
        seq![EventView::Diagnostic(DiagnosticKind::Warning, missing_companion_warning(l))] + missing_companion_hint(l)
    }
}

/// Checks that the active loader's companion library (Fabric API, QSL, ...)
/// is among the installed mods, and returns the warnings to emit when it is
/// not.
pub fn check_modloader_deps(mod_ids: &[String], modpack: &ModpackManifest) -> (events: Vec<OutputEvent>)
    ensures
        events@.map_values(|e: OutputEvent| e@) == modloader_dep_events(
            views_of_strings(mod_ids@),
            match modpack.loader.loader {
                Some(l) => l,
                None => LoaderType::Fabric,
            },
        ),
{
    let l = modpack.loader.loader_or_default();
    let ghost ids = views_of_strings(mod_ids@);
    let mut found = false;
    let mut i: usize = 0;
    while i < mod_ids.len()
        invariant
            i <= mod_ids.len(),
            ids == views_of_strings(mod_ids@),
            found == exists|a: int| 0 <= a < i && companion_ids(l).contains(#[trigger] ids[a]),
        decreases mod_ids.len() - i,
    {
        assert(ids[i as int] == mod_ids@[i as int]@);
        if is_companion(mod_ids[i].as_str(), l) {
            found = true;
        }
        i += 1;
    }
    let mut events: Vec<OutputEvent> = Vec::new();
    if mod_ids.len() == 0 || found {
        assert(events@.map_values(|e: OutputEvent| e@) =~= Seq::<EventView>::empty());
        return events;
    }
    let warning = match l {
        LoaderType::Fabric => "Fabric API is missing! Most Fabric mods require it.",
        LoaderType::Forge => "Forge is present but no core Forge API mod detected. Some mods may not work.",
        LoaderType::NeoForge => "NeoForge is present but no core NeoForge API mod detected. Some mods may not work.",
        LoaderType::Quilt => "Quilt Standard Libraries is missing! Most Quilt mods require it.",
    };
    events.push(OutputEvent::Diagnostic(DiagnosticKind::Warning, String::from_str(warning)));
    match l {
        LoaderType::Fabric => events.push(OutputEvent::Status(StatusKind::Dim, String::from_str("  Run: yammm add fabric-api"))),
        LoaderType::Quilt => events.push(OutputEvent::Status(StatusKind::Dim, String::from_str("  Run: yammm add qsl"))),
        _ => {},
    }
    assert(events@.map_values(|e: OutputEvent| e@) =~= modloader_dep_events(ids, l));
    events
}

/// The main classes that a Fabric-like loader's profile names for each
/// side (a Fabric profile names one, for both).
pub struct SidedMainClass {
    pub client: String,
    pub server: String,
}

/// The main class a Fabric-like launch starts: Fabric's server runs its
/// Knot server entry point; otherwise the profile's class for the side.
pub open spec fn fabric_like_main_class_spec(loader: LoaderType, side: LaunchSide, profile: (Seq<char>, Seq<char>)) -> Seq<char> {
    if loader == LoaderType::Fabric && side == LaunchSide::Server {
        "net.fabricmc.loader.impl.launch.knot.KnotServer"@
    } else if side == LaunchSide::Server {
        profile.1
    } else {
        profile.0
    }
}

/// The main class to start for a Fabric or Quilt launch.
pub fn fabric_like_main_class(loader: LoaderType, side: LaunchSide, profile: &SidedMainClass) -> (s: String)
    requires
        loader == LoaderType::Fabric || loader == LoaderType::Quilt,
    ensures
        s@ == fabric_like_main_class_spec(loader, side, (profile.client@, profile.server@)),
{
    match (loader, side) {
        (LoaderType::Fabric, LaunchSide::Server) => String::from_str("net.fabricmc.loader.impl.launch.knot.KnotServer"),
        (_, LaunchSide::Server) => profile.server.clone(),
        (_, LaunchSide::Client) => profile.client.clone(),
    }
}

/// Where a Fabric-like loader's libraries live in the loader cache:
/// `<cache>/<loader>/<minecraft version>/<loader version>`.
pub fn loader_lib_dir(loader_cache: &str, loader: LoaderType, mc_version: &str, loader_version: &str) -> (p: String)
    ensures
        p@ == crate::paths::path_join(
            crate::paths::path_join(crate::paths::path_join(loader_cache@, crate::types::loader_name(loader)), mc_version@),
            loader_version@,
        ),
{
    let a = crate::paths::join_paths(loader_cache, loader.as_str());
    let b = crate::paths::join_paths(a.as_str(), mc_version);
    crate::paths::join_paths(b.as_str(), loader_version)
}

} // verus!
