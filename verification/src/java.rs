//! Java version rules: which Java a Minecraft version needs, parsing
//! `java -version` output, and the Log4Shell mitigations per version.
use vstd::prelude::*;
use crate::text::{
    chars_of, first_index_from, has_prefix, lemma_first_index_exact, lemma_split_on_nonempty,
    lines_chars, lines_spec, parse_i32, parse_i32_spec, parse_u32, parse_u32_spec, replace_char,
    replace_char_spec, split_chars, split_on, starts_with, str_eq, sub_chars, trim_chars, trim_spec, views,
};
use crate::types::LoaderType;

verus! {

/// The pieces of `segs` that parse as `u32`, in order (`filter_map(parse().ok())`).
pub open spec fn parsed_u32s(segs: Seq<Seq<char>>) -> Seq<u32>
    decreases segs.len(),
{
    if segs.len() == 0 {
        Seq::empty()
    } else {
        let prev = parsed_u32s(segs.drop_last());
        match parse_u32_spec(segs.last()) {
            Some(v) => prev.push(v),
            None => prev,
        }
    }
}

/// The numeric `.`-separated components of a version string.
pub open spec fn version_numbers(v: Seq<char>) -> Seq<u32> {
    parsed_u32s(split_on(v, '.'))
}

/// The `i`-th number, or 0 when there are fewer.
pub open spec fn nth_or_zero(ns: Seq<u32>, i: int) -> u32 {
    if 0 <= i < ns.len() {
        ns[i]
    } else {
        0
    }
}

/// The Java major version a Minecraft version (as major, minor, patch) was built for.
pub open spec fn required_java_for(major: u32, minor: u32, patch: u32) -> i32 {
    if major == 1 {
        if minor > 20 || (minor == 20 && patch >= 5) {
            21
        } else if minor >= 18 {
            17
        } else if minor == 17 {
            16
        } else {
            8
        }
    } else if major >= 26 {
        25
    } else if major >= 21 {
        21
    } else {
        8
    }
}

/// The Java major version for a Minecraft version string.
pub open spec fn required_java_version_spec(mc: Seq<char>) -> i32 {
    let ns = version_numbers(mc);
    required_java_for(nth_or_zero(ns, 0), nth_or_zero(ns, 1), nth_or_zero(ns, 2))
}

/// The smallest Java a loader itself runs on.
pub open spec fn loader_min_java(l: LoaderType) -> i32 {
    match l {
        LoaderType::Fabric | LoaderType::Quilt => 21,
        LoaderType::Forge | LoaderType::NeoForge => 17,
    }
}

/// The Java for a Minecraft version and loader: the larger of the two needs.
pub open spec fn required_java_version_for_loader_spec(mc: Seq<char>, l: LoaderType) -> i32 {
    let base = required_java_version_spec(mc);
    if base >= loader_min_java(l) {
        base
    } else {
        loader_min_java(l)
    }
}

/// Minecraft versions that bundle a log4j vulnerable to JNDI lookups.
pub open spec fn needs_log4j_mitigation_for(major: u32, minor: u32, patch: u32) -> bool {
    if major == 1 {
        minor < 18 || (minor == 18 && patch <= 1)
    } else if 21 <= major < 26 {
        false
    } else {
        major < 26
    }
}

/// Minecraft versions shipping log4j 2.8.1, whose embedded config needs replacing.
pub open spec fn needs_log4j_override_for(major: u32, minor: u32, patch: u32) -> bool {
    if major == 1 {
        minor < 18 || (minor == 18 && patch <= 1)
    } else {
        major < 21
    }
}

pub open spec fn needs_log4j_config_override_spec(mc: Seq<char>) -> bool {
    let ns = version_numbers(mc);
    needs_log4j_override_for(nth_or_zero(ns, 0), nth_or_zero(ns, 1), nth_or_zero(ns, 2))
}

pub open spec fn needs_log4j_mitigation_spec(mc: Seq<char>) -> bool {
    let ns = version_numbers(mc);
    needs_log4j_mitigation_for(nth_or_zero(ns, 0), nth_or_zero(ns, 1), nth_or_zero(ns, 2))
}

/// The JVM flag that disables log4j message lookups.
pub open spec fn log4j_no_lookups_flag() -> Seq<char> {
    "-Dlog4j2.formatMsgNoLookups=true"@
}

/// The first three numeric components of a version string (missing ones are 0).
pub fn version_triple(mc_version: &str) -> (t: (u32, u32, u32))
    ensures
        t == (
            nth_or_zero(version_numbers(mc_version@), 0),
            nth_or_zero(version_numbers(mc_version@), 1),
            nth_or_zero(version_numbers(mc_version@), 2),
        ),
{
    let c = chars_of(mc_version);
    let segs = split_chars(&c, '.');
    let ghost sv = views(segs@);
    let mut nums: Vec<u32> = Vec::new();
    let mut i: usize = 0;
    while i < segs.len()
        invariant
            i <= segs.len(),
            sv == views(segs@),
            nums@ == parsed_u32s(sv.take(i as int)),
        decreases segs.len() - i,
    {
        assert(sv.take(i as int + 1).drop_last() == sv.take(i as int));
        assert(sv[i as int] == segs@[i as int]@);
        match parse_u32(&segs[i]) {
            Some(v) => nums.push(v),
            None => {},
        }
        i += 1;
    }
    assert(sv.take(segs.len() as int) == sv);
    let major = if nums.len() > 0 { nums[0] } else { 0 };
    let minor = if nums.len() > 1 { nums[1] } else { 0 };
    let patch = if nums.len() > 2 { nums[2] } else { 0 };
    (major, minor, patch)
}

/// The Java major version a Minecraft version was designed for: ≤1.16.5 → 8,
/// 1.17 → 16, 1.18–1.20.4 → 17, 1.20.5–1.x and 21–25 → 21, 26+ → 25.
pub fn required_java_version(mc_version: &str) -> (j: i32)
    ensures
        j == required_java_version_spec(mc_version@),
{
    let (major, minor, patch) = version_triple(mc_version);
    if major == 1 {
        if minor > 20 || (minor == 20 && patch >= 5) {
            return 21;
        }
        if minor >= 18 {
            return 17;
        }
        if minor == 17 {
            return 16;
        }
        return 8;
    }
    if major >= 26 {
        return 25;
    }
    if major >= 21 {
        return 21;
    }
    8
}

/// The Java major version for a Minecraft version and loader: the higher of
/// the version's own need and the loader's minimum (Fabric/Quilt 21,
/// Forge/NeoForge 17).
pub fn required_java_version_for_loader(mc_version: &str, loader: &LoaderType) -> (j: i32)
    ensures
        j == required_java_version_for_loader_spec(mc_version@, *loader),
{
    let base = required_java_version(mc_version);
    let loader_min: i32 = match loader {
        LoaderType::Fabric | LoaderType::Quilt => 21,
        LoaderType::Forge | LoaderType::NeoForge => 17,
    };
    if base >= loader_min {
        base
    } else {
        loader_min
    }
}

/// JVM arguments mitigating Log4Shell for versions with a vulnerable log4j.
pub fn log4j_mitigation_args(mc_version: &str) -> (v: Vec<String>)
    ensures
        needs_log4j_mitigation_spec(mc_version@) ==> v@.len() == 1 && v@[0]@
            == log4j_no_lookups_flag(),
        !needs_log4j_mitigation_spec(mc_version@) ==> v@.len() == 0,
{
    let (major, minor, patch) = version_triple(mc_version);
    let needs = if major == 1 {
        minor < 18 || (minor == 18 && patch <= 1)
    } else if 21 <= major && major < 26 {
        false
    } else {
        major < 26
    };
    let mut v: Vec<String> = Vec::new();
    if needs {
        v.push(String::from_str("-Dlog4j2.formatMsgNoLookups=true"));
    }
    v
}

/// Whether the version ships log4j 2.8.1 and its config must be overridden.
pub fn needs_log4j_config_override(mc_version: &str) -> (b: bool)
    ensures
        b == needs_log4j_config_override_spec(mc_version@),
{
    let (major, minor, patch) = version_triple(mc_version);
    if major == 1 {
        minor < 18 || (minor == 18 && patch <= 1)
    } else {
        major < 21
    }
}

} // verus!

verus! {

/// `_` and `-` read as `.` (the separators of a Java version string).
pub open spec fn java_version_pieces(s: Seq<char>) -> Seq<Seq<char>> {
    split_on(replace_char_spec(replace_char_spec(s, '_', '.'), '-', '.'), '.')
}

/// The major version in a Java version string: `17.0.5` → 17, `1.8.0_352` → 8;
/// 8 when it cannot be read.
pub open spec fn java_major_spec(s: Seq<char>) -> i32 {
    let parts = java_version_pieces(s);
    match parse_i32_spec(parts[0]) {
        None => 8,
        Some(major) => if major == 1 {
            if parts.len() >= 2 {
                match parse_i32_spec(parts[1]) {
                    Some(v) => v,
                    None => 8,
                }
            } else {
                8
            }
        } else {
            major
        },
    }
}

/// `s` without all trailing `"`.
pub open spec fn trim_end_quotes(s: Seq<char>) -> Seq<char>
    decreases s.len(),
{
    if s.len() > 0 && s.last() == '"' {
        trim_end_quotes(s.drop_last())
    } else {
        s
    }
}

/// The version text after `java version "` or `openjdk version "` on a trimmed line.
pub open spec fn java_line_version(l: Seq<char>) -> Option<Seq<char>> {
    let t = trim_spec(l);
    if has_prefix(t, "java version \""@) {
        Some(t.skip("java version \""@.len() as int))
    } else if has_prefix(t, "openjdk version \""@) {
        Some(t.skip("openjdk version \""@.len() as int))
    } else {
        None
    }
}

/// The Java major version reported by `java -version` output: read from the
/// first line that announces a version.
pub open spec fn parse_java_version_spec(stderr: Seq<char>) -> Option<i32> {
    let ls = lines_spec(stderr);
    let i = first_index_from(ls.len() as int, 0, |j: int| java_line_version(ls[j]) is Some);
    if i < ls.len() {
        Some(java_major_spec(trim_end_quotes(java_line_version(ls[i])->0)))
    } else {
        None
    }
}

/// The major version in a Java version string (see [`java_major_spec`]).
pub fn parse_java_version_string(s: &str) -> (v: i32)
    ensures
        v == java_major_spec(s@),
{
    let c = chars_of(s);
    let a = replace_char(&c, '_', '.');
    let b = replace_char(&a, '-', '.');
    let parts = split_chars(&b, '.');
    proof {
        lemma_split_on_nonempty(b@, '.');
    }
    assert(views(parts@)[0] == parts@[0]@);
    match parse_i32(&parts[0]) {
        None => 8,
        Some(major) => {
            if major == 1 {
                if parts.len() >= 2 {
                    assert(views(parts@)[1] == parts@[1]@);
                    match parse_i32(&parts[1]) {
                        Some(v) => v,
                        None => 8,
                    }
                } else {
                    8
                }
            } else {
                major
            }
        },
    }
}

fn trim_end_quotes_exec(s: &[char]) -> (r: Vec<char>)
    ensures
        r@ == trim_end_quotes(s@),
{
    let mut n: usize = s.len();
    assert(s@.take(s.len() as int) == s@);
    while n > 0 && s[n - 1] == '"'
        invariant
            n <= s.len(),
            trim_end_quotes(s@) == trim_end_quotes(s@.take(n as int)),
        decreases n,
    {
        assert(s@.take(n as int).drop_last() == s@.take(n as int - 1));
        assert(s@.take(n as int).last() == '"');
        n -= 1;
    }
    assert(s@.subrange(0, n as int) == s@.take(n as int));
    sub_chars(s, 0, n)
}

fn java_line_version_exec(l: &[char]) -> (r: Option<Vec<char>>)
    ensures
        match r {
            None => java_line_version(l@) is None,
            Some(v) => java_line_version(l@) == Some(v@),
        },
{
    let t = trim_chars(l);
    let java = chars_of("java version \"");
    let openjdk = chars_of("openjdk version \"");
    if starts_with(&t, &java) {
        Some(sub_chars(&t, java.len(), t.len()))
    } else if starts_with(&t, &openjdk) {
        Some(sub_chars(&t, openjdk.len(), t.len()))
    } else {
        None
    }
}

/// The Java major version in `java -version` output, if a version line is present.
pub fn parse_java_version(stderr: &str) -> (r: Option<i32>)
    ensures
        r == parse_java_version_spec(stderr@),
{
    let s = chars_of(stderr);
    let ls = lines_chars(&s);
    let ghost lv = views(ls@);
    let ghost p = |j: int| java_line_version(lv[j]) is Some;
    let mut i: usize = 0;
    while i < ls.len()
        invariant
            i <= ls.len(),
            lv == views(ls@),
            lv == lines_spec(stderr@),
            p == (|j: int| java_line_version(lv[j]) is Some),
            forall|j: int| 0 <= j < i ==> !#[trigger] p(j),
        decreases ls.len() - i,
    {
        assert(lv[i as int] == ls@[i as int]@);
        match java_line_version_exec(&ls[i]) {
            Some(v) => {
                proof {
                    lemma_first_index_exact(lv.len() as int, 0, i as int, p);
                }
                let trimmed = trim_end_quotes_exec(&v);
                let text = crate::text::string_of(&trimmed);
                return Some(parse_java_version_string(text.as_str()));
            },
            None => {},
        }
        i += 1;
    }
    proof {
        lemma_first_index_exact(lv.len() as int, 0, lv.len() as int, p);
    }
    None
}


/// `(a1, a2, a3)` comes no later than `(b1, b2, b3)` in version order.
pub open spec fn version_le(a: (u32, u32, u32), b: (u32, u32, u32)) -> bool {
    a.0 < b.0 || (a.0 == b.0 && (a.1 < b.1 || (a.1 == b.1 && a.2 <= b.2)))
}

/// Between released version schemes (`1.x` and year-based `21` onwards),
/// a later Minecraft version never needs an older Java.
pub proof fn lemma_java_requirement_monotone(a: (u32, u32, u32), b: (u32, u32, u32))
    requires
        version_le(a, b),
        a.0 == 1 || a.0 >= 21,
        b.0 == 1 || b.0 >= 21,
    ensures
        required_java_for(a.0, a.1, a.2) <= required_java_for(b.0, b.1, b.2),
{
}

/// A loader never lowers the Java that the Minecraft version needs, and the
/// result meets the loader's own minimum.
pub proof fn lemma_loader_java_at_least(mc: Seq<char>, l: LoaderType)
    ensures
        required_java_version_for_loader_spec(mc, l) >= required_java_version_spec(mc),
        required_java_version_for_loader_spec(mc, l) >= loader_min_java(l),
{
}


/// How running `java -version` went.
pub enum JavaRun {
    /// The binary could not be started.
    NotStarted,
    /// It ran; whether it exited successfully, and what it wrote to stderr.
    Finished { success: bool, stderr: String },
}

/// The Java major version reported by a run of `java -version`, or the
/// invalid-arguments error for a binary that could not be run, that failed,
/// or whose output names no version.
pub fn detect_java_version(java_path: &str, run: &JavaRun) -> (r: Result<i32, crate::errors::YammmError>)
    ensures
        match run {
            JavaRun::NotStarted => r matches Err(crate::errors::YammmError::InvalidArgs(m)) && m@
                == "No Java installation found at "@ + java_path@,
            JavaRun::Finished { success, stderr } => if !*success {
                r matches Err(crate::errors::YammmError::InvalidArgs(m)) && m@ == "Java at "@ + java_path@
                    + " returned an error"@
            } else {
                match parse_java_version_spec(stderr@) {
                    Some(v) => r == Ok::<i32, crate::errors::YammmError>(v),
                    None => r matches Err(crate::errors::YammmError::InvalidArgs(m)) && m@
                        == "Could not parse Java version from output"@,
                }
            },
        },
{
    match run {
        JavaRun::NotStarted => {
            let mut m = String::from_str("No Java installation found at ");
            m.append(java_path);
            Err(crate::errors::YammmError::InvalidArgs(m))
        },
        JavaRun::Finished { success, stderr } => {
            if !*success {
                let mut m = String::from_str("Java at ");
                m.append(java_path);
                m.append(" returned an error");
                return Err(crate::errors::YammmError::InvalidArgs(m));
            }
            match parse_java_version(stderr.as_str()) {
                Some(v) => Ok(v),
                None => Err(crate::errors::YammmError::invalid_args("Could not parse Java version from output")),
            }
        },
    }
}

/// The command prefix that starts a Java binary: the binary itself, or, for
/// an x86-64 binary on an ARM Mac, the binary under `arch -x86_64` so that
/// Rosetta 2 translates it.
pub fn java_launch_prefix(java_path: &str, needs_rosetta: bool) -> (v: Vec<String>)
    ensures
        needs_rosetta ==> v@.len() == 3 && v@[0]@ == "arch"@ && v@[1]@ == "-x86_64"@ && v@[2]@ == java_path@,
        !needs_rosetta ==> v@.len() == 1 && v@[0]@ == java_path@,
{
    let mut v: Vec<String> = Vec::new();
    if needs_rosetta {
        v.push(String::from_str("arch"));
        v.push(String::from_str("-x86_64"));
    }
    v.push(String::from_str(java_path));
    v
}

/// A log4j configuration that old Minecraft versions can parse.
pub const LOG4J_COMPAT_XML: &'static str = "<?xml version=\"1.0\" encoding=\"UTF-8\"?>\n<Configuration status=\"WARN\">\n  <Appenders>\n    <Console name=\"SysOut\" target=\"SYSTEM_OUT\">\n      <PatternLayout pattern=\"%d{HH:mm:ss} [%t] %-5level %logger{36} - %msg%n\"/>\n    </Console>\n    <RollingRandomAccessFile name=\"File\" fileName=\"logs/latest.log\" filePattern=\"logs/%d{yyyy-MM-dd}-%i.log.gz\">\n      <PatternLayout pattern=\"%d{HH:mm:ss} [%t] %-5level %logger{36} - %msg%n\"/>\n      <Policies>\n        <TimeBasedTriggeringPolicy/>\n        <OnStartupTriggeringPolicy/>\n      </Policies>\n    </RollingRandomAccessFile>\n  </Appenders>\n  <Loggers>\n    <Root level=\"info\">\n      <AppenderRef ref=\"SysOut\"/>\n      <AppenderRef ref=\"File\"/>\n    </Root>\n  </Loggers>\n</Configuration>\n";

/// The JVM flags that point log4j at a configuration file.
pub fn log4j_config_args(config_path: &str) -> (v: Vec<String>)
    ensures
        v@.len() == 2,
        v@[0]@ == "-Dlog4j.configurationFile="@ + config_path@,
        v@[1]@ == "-Dlog4j2.configurationFile="@ + config_path@,
{
    let mut a = String::from_str("-Dlog4j.configurationFile=");
    a.append(config_path);
    let mut b = String::from_str("-Dlog4j2.configurationFile=");
    b.append(config_path);
    let mut v: Vec<String> = Vec::new();
    v.push(a);
    v.push(b);
    v
}
/// An entry of a jar: its name and whether it is a directory.
pub struct JarEntry {
    pub name: String,
    pub is_dir: bool,
}

/// What rewriting a jar does with one of its entries.
pub enum JarEntryAction {
    /// Write the compatible log4j configuration in its place.
    ReplaceWithCompatConfig { name: String },
    /// Keep the directory.
    AddDirectory { name: String },
    /// Copy the entry's bytes unchanged.
    Copy { name: String },
}

/// The action for a jar entry by content: 0 replace, 1 directory, 2 copy;
/// and the entry's name.
pub open spec fn jar_action_view(a: JarEntryAction) -> (int, Seq<char>) {
    match a {
        JarEntryAction::ReplaceWithCompatConfig { name } => (0, name@),
        JarEntryAction::AddDirectory { name } => (1, name@),
        JarEntryAction::Copy { name } => (2, name@),
    }
}

/// The action for an entry: the embedded `log4j2.xml` is replaced,
/// directories are kept, everything else is copied.
pub open spec fn jar_action_for(e: JarEntry) -> (int, Seq<char>) {
    if e.name@ == "log4j2.xml"@ {
        (0, e.name@)
    } else if e.is_dir {
        (1, e.name@)
    } else {
        (2, e.name@)
    }
}

/// How a game jar is rewritten so that its log4j configuration is the
/// compatible one: nothing when it embeds no `log4j2.xml`; otherwise every
/// entry, in order, with its action.
pub fn log4j_patch_plan(entries: &[JarEntry]) -> (r: Option<Vec<JarEntryAction>>)
    ensures
        r is None <==> !(exists|i: int| 0 <= i < entries@.len() && (#[trigger] entries@[i]).name@ == "log4j2.xml"@),
        r matches Some(v) ==> v@.len() == entries@.len() && forall|i: int|
            0 <= i < entries@.len() ==> jar_action_view(#[trigger] v@[i]) == jar_action_for(entries@[i]),
{
    let mut v: Vec<JarEntryAction> = Vec::new();
    let mut found = false;
    let mut i: usize = 0;
    while i < entries.len()
        invariant
            i <= entries@.len(),
            v@.len() == i,
            found <==> exists|j: int| 0 <= j < i && (#[trigger] entries@[j]).name@ == "log4j2.xml"@,
            forall|j: int| 0 <= j < i ==> jar_action_view(#[trigger] v@[j]) == jar_action_for(entries@[j]),
        decreases entries@.len() - i,
    {
        let e = &entries[i];
        proof {
            reveal_strlit("log4j2.xml");
        }
        if str_eq(e.name.as_str(), "log4j2.xml") {
            found = true;
            v.push(JarEntryAction::ReplaceWithCompatConfig { name: e.name.clone() });
        } else if e.is_dir {
            v.push(JarEntryAction::AddDirectory { name: e.name.clone() });
        } else {
            v.push(JarEntryAction::Copy { name: e.name.clone() });
        }
        i += 1;
    }
    if found {
        Some(v)
    } else {
        None
    }
}

/// The Java a launch needs with a loader is the Minecraft version's need
/// raised to the loader's floor: at least 21 for Fabric and Quilt, at least
/// 17 for Forge and NeoForge, and never more than the larger of the two.
pub proof fn lemma_loader_java_floor(mc: Seq<char>, l: LoaderType)
    ensures
        (l == LoaderType::Forge || l == LoaderType::NeoForge) ==> required_java_version_for_loader_spec(mc, l) == (
        if required_java_version_spec(mc) >= 17 {
            required_java_version_spec(mc)
        } else {
            17
        }),
        (l == LoaderType::Fabric || l == LoaderType::Quilt) ==> required_java_version_for_loader_spec(mc, l) == (
        if required_java_version_spec(mc) >= 21 {
            required_java_version_spec(mc)
        } else {
            21
        }),
        required_java_version_for_loader_spec(mc, l) >= 17,
{
}

} // verus!
