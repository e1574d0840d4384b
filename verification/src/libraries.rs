//! Which of Minecraft's libraries apply to the host, and which of their files
//! a launch fetches: the classpath jar and the native classifier jar.
use vstd::prelude::*;
use crate::text::{chars_of, ends_with, has_suffix, str_eq};

verus! {

/// The host a launch runs on, in the terms of the library rules.
pub struct HostPlatform {
    /// The operating system in Mojang's spelling (`linux`, `windows`, `osx`).
    pub os_name: String,
    /// Whether the build targets 32-bit x86.
    pub is_x86: bool,
    /// Whether the build targets 64-bit ARM.
    pub is_arm64: bool,
}

/// The operating-system condition of a rule.
pub struct OsRule {
    pub name: Option<String>,
    pub arch: Option<String>,
}

/// One rule of a library: `allow` or `disallow`, under an OS condition and
/// feature flags. Each feature holds what its JSON value reads as a boolean
/// (`None` for a value that is not a boolean).
pub struct Rule {
    pub action: String,
    pub os: Option<OsRule>,
    pub features: Option<Vec<(String, Option<bool>)>>,
}

/// A downloadable file of a library.
pub struct Artifact {
    pub path: String,
    pub url: String,
    pub sha1: Option<String>,
}

/// The files a library offers: its jar and its native classifier jars by key.
pub struct LibraryDownloads {
    pub artifact: Option<Artifact>,
    pub classifiers: Option<Vec<(String, Artifact)>>,
}

/// A library of a Minecraft version.
pub struct Library {
    pub name: String,
    pub downloads: Option<LibraryDownloads>,
    pub rules: Option<Vec<Rule>>,
}

/// The OS condition holds on `host`: no condition, or a matching name and no
/// 32-bit x86 requirement that the host does not meet.
pub open spec fn os_rule_matches(os: Option<OsRule>, host: HostPlatform) -> bool {
    match os {
        None => true,
        Some(o) => {
            &&& (match o.name {
                Some(n) => n@ == host.os_name@,
                None => true,
            })
            &&& (match o.arch {
                Some(a) => !(a@ == "x86"@ && !host.is_x86),
                None => true,
            })
        },
    }
}

/// No feature flag of the rule is set to `true`.
pub open spec fn features_match(features: Option<Vec<(String, Option<bool>)>>) -> bool {
    match features {
        None => true,
        Some(v) => forall|i: int| 0 <= i < v@.len() ==> (#[trigger] v@[i]).1 != Some(true),
    }
}

/// The rule's conditions hold on `host`.
pub open spec fn rule_applies(r: Rule, host: HostPlatform) -> bool {
    os_rule_matches(r.os, host) && features_match(r.features)
}

/// Whether the library is allowed after the rules, read in order from a
/// disallowed start: an applying `allow` allows, an applying `disallow`
/// disallows, anything else leaves the state as it was.
pub open spec fn allowed_after(rules: Seq<Rule>, host: HostPlatform) -> bool
    decreases rules.len(),
{
    if rules.len() == 0 {
        false
    } else {
        let r = rules.last();
        if r.action@ == "allow"@ && rule_applies(r, host) {
            true
        } else if r.action@ == "disallow"@ && rule_applies(r, host) {
            false
        } else {
            allowed_after(rules.drop_last(), host)
        }
    }
}

/// A library applies to `host`: it has no rules, or its rules allow it.
pub open spec fn library_included(lib: Library, host: HostPlatform) -> bool {
    match lib.rules {
        None => true,
        Some(rs) => allowed_after(rs@, host),
    }
}

/// The architecture name in classifier keys.
pub open spec fn arch_name(host: HostPlatform) -> Seq<char> {
    if host.is_arm64 {
        "arm64"@
    } else {
        "x86_64"@
    }
}

/// The native classifier keys to try, the architecture-specific one first.
pub open spec fn native_candidates_spec(host: HostPlatform) -> Seq<Seq<char>> {
    seq!["natives-"@ + host.os_name@ + "-"@ + arch_name(host), "natives-"@ + host.os_name@]
}

/// Whether the OS condition of a rule holds on `host`.
pub fn rule_matches_os(os_rule: &Option<OsRule>, host: &HostPlatform) -> (b: bool)
    ensures
        b == os_rule_matches(*os_rule, *host),
{
    match os_rule {
        None => true,
        Some(os) => {
            if let Some(name) = &os.name {
                if !str_eq(name.as_str(), host.os_name.as_str()) {
                    return false;
                }
            }
            if let Some(arch) = &os.arch {
                if str_eq(arch.as_str(), "x86") && !host.is_x86 {
                    return false;
                }
            }
            true
        },
    }
}

/// Whether no feature flag of a rule is set to `true`.
pub fn rule_matches_features(features: &Option<Vec<(String, Option<bool>)>>) -> (b: bool)
    ensures
        b == features_match(*features),
{
    match features {
        None => true,
        Some(v) => {
            let mut i: usize = 0;
            while i < v.len()
                invariant
                    i <= v.len(),
                    *features == Some(*v),
                    forall|j: int| 0 <= j < i ==> (#[trigger] v@[j]).1 != Some(true),
                decreases v.len() - i,
            {
                match v[i].1 {
                    Some(flag) => {
                        if flag {
                            assert(v@[i as int].1 == Some(true));
                            return false;
                        }
                    },
                    None => {},
                }
                i += 1;
            }
            true
        },
    }
}

/// Whether a rule's conditions hold on `host`.
fn rule_applies_exec(r: &Rule, host: &HostPlatform) -> (b: bool)
    ensures
        b == rule_applies(*r, *host),
{
    rule_matches_os(&r.os, host) && rule_matches_features(&r.features)
}

/// Whether a library applies to `host`; libraries without rules always do.
pub fn should_include_library(lib: &Library, host: &HostPlatform) -> (b: bool)
    ensures
        b == library_included(*lib, *host),
{
    match &lib.rules {
        None => true,
        Some(rules) => {
            let mut allowed = false;
            let mut i: usize = 0;
            while i < rules.len()
                invariant
                    i <= rules.len(),
                    allowed == allowed_after(rules@.take(i as int), *host),
                decreases rules.len() - i,
            {
                let r = &rules[i];
                let applies = rule_applies_exec(r, host);
                if str_eq(r.action.as_str(), "allow") && applies {
                    allowed = true;
                } else if str_eq(r.action.as_str(), "disallow") && applies {
                    allowed = false;
                }
                assert(rules@.take(i as int + 1).drop_last() == rules@.take(i as int));
                i += 1;
            }
            assert(rules@.take(rules.len() as int) == rules@);
            allowed
        },
    }
}

/// The native classifier keys to try on `host`, the architecture-specific
/// one (`natives-linux-arm64`) before the generic one (`natives-linux`).
pub fn native_classifier_candidates(host: &HostPlatform) -> (v: Vec<String>)
    ensures
        v@.len() == 2,
        v@[0]@ == native_candidates_spec(*host)[0],
        v@[1]@ == native_candidates_spec(*host)[1],
{
    let arch = if host.is_arm64 {
        "arm64"
    } else {
        "x86_64"
    };
    let mut specific = String::from_str("natives-");
    specific.append(host.os_name.as_str());
    specific.append("-");
    specific.append(arch);
    let mut generic = String::from_str("natives-");
    generic.append(host.os_name.as_str());
    let mut v: Vec<String> = Vec::new();
    v.push(specific);
    v.push(generic);
    v
}

/// The classifier artifact stored under `key`, if any.
fn find_classifier(classifiers: &Vec<(String, Artifact)>, key: &String) -> (r: Option<usize>)
    ensures
        match r {
            Some(i) => i < classifiers@.len() && classifiers@[i as int].0@ == key@ && forall|j: int|
                0 <= j < i ==> (#[trigger] classifiers@[j]).0@ != key@,
            None => forall|j: int| 0 <= j < classifiers@.len() ==> (#[trigger] classifiers@[j]).0@ != key@,
        },
{
    let mut i: usize = 0;
    while i < classifiers.len()
        invariant
            i <= classifiers.len(),
            forall|j: int| 0 <= j < i ==> (#[trigger] classifiers@[j]).0@ != key@,
        decreases classifiers.len() - i,
    {
        if str_eq(classifiers[i].0.as_str(), key.as_str()) {
            return Some(i);
        }
        i += 1;
    }
    None
}

/// The position of the first classifier stored under `key` (or the length).
pub open spec fn classifier_index(cs: Seq<(String, Artifact)>, key: Seq<char>) -> int
    decreases cs.len(),
{
    if cs.len() == 0 {
        0
    } else {
        let i = classifier_index(cs.drop_last(), key);
        if i < cs.len() - 1 {
            i
        } else if cs.last().0@ == key {
            cs.len() - 1
        } else {
            cs.len() as int
        }
    }
}

proof fn lemma_classifier_index(cs: Seq<(String, Artifact)>, key: Seq<char>, k: int)
    requires
        0 <= k <= cs.len(),
        k < cs.len() ==> cs[k].0@ == key,
        forall|j: int| 0 <= j < k ==> (#[trigger] cs[j]).0@ != key,
    ensures
        classifier_index(cs, key) == k,
    decreases cs.len(),
{
    if cs.len() > 0 {
        let g = cs.drop_last();
        if k < cs.len() - 1 {
            assert(g[k] == cs[k]);
            assert forall|j: int| 0 <= j < k implies (#[trigger] g[j]).0@ != key by {
                assert(g[j] == cs[j]);
            }
            lemma_classifier_index(g, key, k);
        } else {
            assert forall|j: int| 0 <= j < g.len() implies (#[trigger] g[j]).0@ != key by {
                assert(g[j] == cs[j]);
            }
            lemma_classifier_index(g, key, g.len() as int);
        }
    }
}

/// The native jar of a library on `host`: the classifier under the first
/// candidate key that the library has.
pub open spec fn native_choice(cs: Seq<(String, Artifact)>, host: HostPlatform) -> Option<Artifact> {
    let keys = native_candidates_spec(host);
    let a = classifier_index(cs, keys[0]);
    let b = classifier_index(cs, keys[1]);
    if a < cs.len() {
        Some(cs[a].1)
    } else if b < cs.len() {
        Some(cs[b].1)
    } else {
        None
    }
}

/// What a launch fetches of one library: its jar for the classpath, and its
/// native jar, each when the library is included and offers one.
pub open spec fn library_files(lib: Library, host: HostPlatform) -> (Option<Artifact>, Option<Artifact>) {
    if !library_included(lib, host) {
        (None, None)
    } else {
        match lib.downloads {
            None => (None, None),
            Some(d) => (
                d.artifact,
                match d.classifiers {
                    None => None,
                    Some(cs) => native_choice(cs@, host),
                },
            ),
        }
    }
}

fn clone_artifact(a: &Artifact) -> (r: Artifact)
    ensures
        r@ == a@,
{
    Artifact {
        path: a.path.clone(),
        url: a.url.clone(),
        sha1: match &a.sha1 {
            Some(s) => Some(s.clone()),
            None => None,
        },
    }
}

impl View for Artifact {
    type V = (Seq<char>, Seq<char>, Option<Seq<char>>);

    open spec fn view(&self) -> Self::V {
        (
            self.path@,
            self.url@,
            match self.sha1 {
                Some(s) => Some(s@),
                None => None,
            },
        )
    }
}

/// The view of an optional artifact.
pub open spec fn opt_artifact_view(a: Option<Artifact>) -> Option<(Seq<char>, Seq<char>, Option<Seq<char>>)> {
    match a {
        Some(x) => Some(x@),
        None => None,
    }
}

/// For each library, in order, the jar for the classpath and the native jar
/// to unpack that a launch on `host` fetches.
pub fn plan_library_files(libs: &[Library], host: &HostPlatform) -> (plan: Vec<(Option<Artifact>, Option<Artifact>)>)
    ensures
        plan@.len() == libs@.len(),
        forall|i: int|
            0 <= i < libs@.len() ==> {
                let f = library_files(#[trigger] libs@[i], *host);
                opt_artifact_view(plan@[i].0) == opt_artifact_view(f.0) && opt_artifact_view(plan@[i].1)
                    == opt_artifact_view(f.1)
            },
{
    let keys = native_classifier_candidates(host);
    let mut plan: Vec<(Option<Artifact>, Option<Artifact>)> = Vec::new();
    let mut i: usize = 0;
    while i < libs.len()
        invariant
            i <= libs.len(),
            plan@.len() == i,
            keys@.len() == 2,
            keys@[0]@ == native_candidates_spec(*host)[0],
            keys@[1]@ == native_candidates_spec(*host)[1],
            forall|k: int|
                0 <= k < i ==> {
                    let f = library_files(#[trigger] libs@[k], *host);
                    opt_artifact_view(plan@[k].0) == opt_artifact_view(f.0) && opt_artifact_view(
                        plan@[k].1,
                    ) == opt_artifact_view(f.1)
                },
        decreases libs.len() - i,
    {
        let lib = &libs[i];
        let mut jar: Option<Artifact> = None;
        let mut native: Option<Artifact> = None;
        if should_include_library(lib, host) {
            if let Some(d) = &lib.downloads {
                if let Some(a) = &d.artifact {
                    jar = Some(clone_artifact(a));
                }
                if let Some(cs) = &d.classifiers {
                    let first = find_classifier(cs, &keys[0]);
                    proof {
                        lemma_classifier_index(
                            cs@,
                            keys@[0]@,
                            match first {
                                Some(j) => j as int,
                                None => cs@.len() as int,
                            },
                        );
                    }
                    match first {
                        Some(j) => {
                            native = Some(clone_artifact(&cs[j].1));
                        },
                        None => {
                            let second = find_classifier(cs, &keys[1]);
                            proof {
                                lemma_classifier_index(
                                    cs@,
                                    keys@[1]@,
                                    match second {
                                        Some(j) => j as int,
                                        None => cs@.len() as int,
                                    },
                                );
                            }
                            if let Some(j) = second {
                                native = Some(clone_artifact(&cs[j].1));
                            }
                        },
                    }
                }
            }
        }
        plan.push((jar, native));
        i += 1;
    }
    plan
}

/// A file of a native jar that gets unpacked: a shared library.
pub open spec fn is_native_file_spec(name: Seq<char>) -> bool {
    has_suffix(name, ".so"@) || has_suffix(name, ".dll"@) || has_suffix(name, ".dylib"@) || has_suffix(
        name,
        ".jnilib"@,
    )
}

/// Whether an entry of a native jar is a shared library to unpack.
pub fn is_native_library_file(name: &str) -> (b: bool)
    ensures
        b == is_native_file_spec(name@),
{
    let n = chars_of(name);
    let so = chars_of(".so");
    let dll = chars_of(".dll");
    let dylib = chars_of(".dylib");
    let jnilib = chars_of(".jnilib");
    ends_with(&n, &so) || ends_with(&n, &dll) || ends_with(&n, &dylib) || ends_with(&n, &jnilib)
}

/// A file or directory found under the loader's library directory: its
/// path relative to that directory, its real path, whether it is a
/// directory, and whether the same relative path already exists under the
/// game's library directory.
pub struct LibraryEntry {
    pub relative: String,
    pub source: String,
    pub is_dir: bool,
    pub dest_exists: bool,
}

/// A step of merging the loader's libraries into the game's.
pub enum MergeStep {
    /// Create a missing directory.
    CreateDir { dest: String },
    /// Link a file that the game's directory lacks to the loader's copy.
    Link { source: String, dest: String },
}

/// A merge step by content: whether it links, its source (empty for a
/// directory) and its destination.
pub open spec fn merge_step_view(s: MergeStep) -> (bool, Seq<char>, Seq<char>) {
    match s {
        MergeStep::CreateDir { dest } => (false, Seq::empty(), dest@),
        MergeStep::Link { source, dest } => (true, source@, dest@),
    }
}

/// The steps for a listing, in its order: each entry whose destination is
/// missing is created (a directory) or linked (a file); present ones are
/// left alone.
pub open spec fn merge_plan(mc: Seq<char>, ls: Seq<LibraryEntry>) -> Seq<(bool, Seq<char>, Seq<char>)>
    decreases ls.len(),
{
    if ls.len() == 0 {
        Seq::empty()
    } else {
        let prev = merge_plan(mc, ls.drop_last());
        let e = ls.last();
        let dest = crate::paths::path_join(mc, e.relative@);
        if e.dest_exists {
            prev
        } else if e.is_dir {
            prev.push((false, Seq::empty(), dest))
        } else {
            prev.push((true, e.source@, dest))
        }
    }
}

/// How to merge the loader's library directory into the game's: nothing
/// when the loader has none; otherwise, entry by entry, missing directories
/// are created and missing files linked, and what exists is kept.
pub fn merge_libraries(loader_exists: bool, mc_lib_dir: &str, listing: &[LibraryEntry]) -> (steps: Vec<MergeStep>)
    ensures
        !loader_exists ==> steps@.len() == 0,
        loader_exists ==> steps@.map_values(|s: MergeStep| merge_step_view(s)) == merge_plan(mc_lib_dir@, listing@),
{
    let mut steps: Vec<MergeStep> = Vec::new();
    if !loader_exists {
        return steps;
    }
    let mut i: usize = 0;
    while i < listing.len()
        invariant
            i <= listing@.len(),
            steps@.map_values(|s: MergeStep| merge_step_view(s)) == merge_plan(mc_lib_dir@, listing@.take(i as int)),
        decreases listing@.len() - i,
    {
        let e = &listing[i];
        assert(listing@.take(i as int + 1).drop_last() == listing@.take(i as int));
        assert(listing@.take(i as int + 1).last() == listing@[i as int]);
        let ghost before = steps@;
        if !e.dest_exists {
            let dest = crate::paths::join_paths(mc_lib_dir, e.relative.as_str());
            if e.is_dir {
                steps.push(MergeStep::CreateDir { dest });
            } else {
                steps.push(MergeStep::Link { source: e.source.clone(), dest });
            }
            assert(steps@.map_values(|s: MergeStep| merge_step_view(s)) =~= before.map_values(
                |s: MergeStep| merge_step_view(s),
            ).push(merge_step_view(steps@.last())));
        }
        i += 1;
    }
    assert(listing@.take(listing@.len() as int) == listing@);
    steps
}

proof fn lemma_classifier_index_props(cs: Seq<(String, Artifact)>, key: Seq<char>)
    ensures
        0 <= classifier_index(cs, key) <= cs.len(),
        classifier_index(cs, key) < cs.len() ==> cs[classifier_index(cs, key)].0@ == key,
        forall|j: int| 0 <= j < classifier_index(cs, key) ==> (#[trigger] cs[j]).0@ != key,
    decreases cs.len(),
{
    if cs.len() > 0 {
        let g = cs.drop_last();
        lemma_classifier_index_props(g, key);
        assert forall|j: int| 0 <= j < g.len() implies g[j] == cs[j] by {}
    }
}

/// The native jar fetched for an included library is its classifier under
/// the architecture-specific key `natives-<os>-<arch>` when it has one;
/// otherwise the one under the generic key `natives-<os>`; otherwise none.
/// Under a key, the first entry counts. The library's own jar is always its
/// artifact.
pub proof fn lemma_native_jar_choice(lib: Library, host: HostPlatform, i: int)
    requires
        library_included(lib, host),
        lib.downloads matches Some(d) && d.classifiers is Some,
    ensures
        ({
            let d = lib.downloads->0;
            let cs = d.classifiers->0@;
            let specific = "natives-"@ + host.os_name@ + "-"@ + (if host.is_arm64 {
                "arm64"@
            } else {
                "x86_64"@
            });
            let generic = "natives-"@ + host.os_name@;
            &&& library_files(lib, host).0 == d.artifact
            &&& (0 <= i < cs.len() && cs[i].0@ == specific && (forall|j: int| 0 <= j < i ==> (#[trigger] cs[j]).0@ != specific))
                ==> library_files(lib, host).1 == Some(cs[i].1)
            &&& ((forall|j: int| 0 <= j < cs.len() ==> (#[trigger] cs[j]).0@ != specific) && 0 <= i < cs.len()
                && cs[i].0@ == generic && (forall|j: int| 0 <= j < i ==> (#[trigger] cs[j]).0@ != generic))
                ==> library_files(lib, host).1 == Some(cs[i].1)
            &&& (forall|j: int| 0 <= j < cs.len() ==> (#[trigger] cs[j]).0@ != specific && cs[j].0@ != generic)
                ==> library_files(lib, host).1 is None
        }),
{
    let cs = lib.downloads->0.classifiers->0@;
    let keys = native_candidates_spec(host);
    lemma_classifier_index_props(cs, keys[0]);
    lemma_classifier_index_props(cs, keys[1]);
    let a = classifier_index(cs, keys[0]);
    let b = classifier_index(cs, keys[1]);
    if 0 <= i < cs.len() && a < cs.len() {
        if i < a {
        } else if a < i {
            assert(cs[a].0@ == keys[0]);
        }
    }
    if 0 <= i < cs.len() && b < cs.len() {
        if i < b {
        } else if b < i {
            assert(cs[b].0@ == keys[1]);
        }
    }
    if a < cs.len() {
        assert(cs[a].0@ == keys[0]);
    }
    if b < cs.len() {
        assert(cs[b].0@ == keys[1]);
    }
}

} // verus!
