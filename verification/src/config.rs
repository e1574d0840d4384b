//! Modpack manifest and global configuration, with their validation and
//! the `config get`/`config set` rules.
use vstd::prelude::*;
use crate::errors::YammmError;
use crate::paths::{join_paths, path_join};
use crate::text::{chars_eq, chars_of, decimal, ends_with, has_suffix, string_eq, sub_chars, string_of};
use crate::types::{loader_named, LoaderType, VersionFilters};

verus! {

/// Mod loader configuration (e.g. Fabric 0.16.5).
#[derive(Debug)]
pub struct LoaderConfig {
    pub loader: Option<LoaderType>,
    pub version: String,
}

impl LoaderConfig {
    /// The configured loader, Fabric when none is set.
    pub fn loader_or_default(&self) -> (l: LoaderType)
        ensures
            l == match self.loader {
                Some(x) => x,
                None => LoaderType::Fabric,
            },
    {
        match self.loader {
            Some(x) => x,
            None => LoaderType::Fabric,
        }
    }
}

/// Modpack configuration (`modpack.toml`).
#[derive(Debug)]
pub struct ModpackManifest {
    pub name: String,
    pub description: String,
    pub version: String,
    pub minecraft_version: String,
    pub loader: LoaderConfig,
    pub mod_path: Option<String>,
    pub resource_pack_path: Option<String>,
    pub shader_pack_path: Option<String>,
}

/// The directory for a kind of content: the custom path joined to the base,
/// or the default name joined to it.
pub open spec fn resolve_dir_spec(custom: Option<String>, base: Seq<char>, default: Seq<char>) -> Seq<char> {
    match custom {
        Some(p) => path_join(base, p@),
        None => path_join(base, default),
    }
}

/// No identifying field is set (a freshly created manifest).
pub open spec fn is_fully_empty_spec(m: &ModpackManifest) -> bool {
    &&& m.name@.len() == 0
    &&& m.description@.len() == 0
    &&& m.version@.len() == 0
    &&& m.minecraft_version@.len() == 0
    &&& m.loader.loader is None
    &&& m.loader.version@.len() == 0
    &&& m.mod_path is None
    &&& m.resource_pack_path is None
    &&& m.shader_pack_path is None
}

/// The message when identifying fields are set but the Minecraft version is not.
pub open spec fn missing_mc_version_message() -> Seq<char> {
    "modpack.toml: minecraft_version is required when other fields are set"@
}

/// The message when a loader version is set without a loader type.
pub open spec fn loader_version_without_type_message() -> Seq<char> {
    "modpack.toml: loader.version is set but loader type is missing — add a `loader.loader` field (fabric, forge, quilt, or neoforge)"@
}

/// The part of an MRPACK dependency key that names a loader (`fabric-loader` → `fabric`).
pub open spec fn loader_key_name(key: Seq<char>) -> Seq<char> {
    if has_suffix(key, "-loader"@) {
        key.take(key.len() - 7)
    } else {
        key
    }
}

/// The value of the first entry with the given key.
pub open spec fn lookup_first(deps: Seq<(Seq<char>, Seq<char>)>, key: Seq<char>) -> Option<Seq<char>>
    decreases deps.len(),
{
    if deps.len() == 0 {
        None
    } else if deps[0].0 == key {
        Some(deps[0].1)
    } else {
        lookup_first(deps.drop_first(), key)
    }
}

/// Loader and loader version after applying MRPACK dependency entries in
/// order, and whether any entry filled something: each entry whose key names
/// a loader (`<loader>-loader` or the bare name) sets the loader only when
/// none is set, and the loader version only when it is empty. A set value is
/// never replaced.
pub open spec fn apply_loader_entries(
    deps: Seq<(Seq<char>, Seq<char>)>,
    loader: Option<LoaderType>,
    version: Seq<char>,
) -> (Option<LoaderType>, Seq<char>, bool)
    decreases deps.len(),
{
    if deps.len() == 0 {
        (loader, version, false)
    } else {
        let prev = apply_loader_entries(deps.drop_last(), loader, version);
        let key = deps.last().0;
        let value = deps.last().1;
        if key == "minecraft"@ {
            prev
        } else {
            match loader_named(loader_key_name(key)) {
                Some(lt) => (
                    if prev.0 is None {
                        Some(lt)
                    } else {
                        prev.0
                    },
                    if prev.1.len() == 0 {
                        value
                    } else {
                        prev.1
                    },
                    prev.2 || prev.0 is None || prev.1.len() == 0,
                ),
                None => prev,
            }
        }
    }
}

/// A set loader is kept and a non-empty loader version is kept, whatever
/// the entries.
pub proof fn lemma_loader_entries_keep_set_values(
    deps: Seq<(Seq<char>, Seq<char>)>,
    loader: Option<LoaderType>,
    version: Seq<char>,
)
    ensures
        loader is Some ==> apply_loader_entries(deps, loader, version).0 == loader,
        version.len() > 0 ==> apply_loader_entries(deps, loader, version).1 == version,
    decreases deps.len(),
{
    if deps.len() > 0 {
        lemma_loader_entries_keep_set_values(deps.drop_last(), loader, version);
    }
}

/// The view of a list of string pairs.
pub open spec fn pair_views(deps: Seq<(String, String)>) -> Seq<(Seq<char>, Seq<char>)> {
    deps.map_values(|p: (String, String)| (p.0@, p.1@))
}

/// The index of the first entry whose key is `key`.
fn find_first_key(deps: &[(String, String)], key: &[char]) -> (r: Option<usize>)
    ensures
        match r {
            None => lookup_first(pair_views(deps@), key@) is None,
            Some(j) => j < deps.len() && lookup_first(pair_views(deps@), key@) == Some(
                deps@[j as int].1@,
            ),
        },
{
    let ghost d = pair_views(deps@);
    let mut i: usize = 0;
    assert(d.skip(0) == d);
    while i < deps.len()
        invariant
            i <= deps.len(),
            d == pair_views(deps@),
            lookup_first(d, key@) == lookup_first(d.skip(i as int), key@),
        decreases deps.len() - i,
    {
        let k = chars_of(deps[i].0.as_str());
        assert(d.skip(i as int)[0] == d[i as int]);
        assert(d.skip(i as int).drop_first() == d.skip(i as int + 1));
        if chars_eq(&k, key) {
            return Some(i);
        }
        i += 1;
    }
    assert(d.skip(deps.len() as int).len() == 0);
    None
}

fn empty_string() -> (s: String)
    ensures
        s@.len() == 0,
{
    String::new()
}

impl ModpackManifest {
    /// An empty manifest.
    pub fn new() -> (m: Self)
        ensures
            is_fully_empty_spec(&m),
    {
        ModpackManifest {
            name: empty_string(),
            description: empty_string(),
            version: empty_string(),
            minecraft_version: empty_string(),
            loader: LoaderConfig { loader: None, version: empty_string() },
            mod_path: None,
            resource_pack_path: None,
            shader_pack_path: None,
        }
    }

    fn resolve_dir(&self, custom: &Option<String>, base_path: &str, default: &str) -> (r: String)
        ensures
            r@ == resolve_dir_spec(*custom, base_path@, default@),
    {
        match custom {
            Some(p) => join_paths(base_path, p.as_str()),
            None => join_paths(base_path, default),
        }
    }

    /// The mods directory under `base_path` (custom `mod_path` or `mods`).
    pub fn mods_dir(&self, base_path: &str) -> (r: String)
        ensures
            r@ == resolve_dir_spec(self.mod_path, base_path@, "mods"@),
    {
        self.resolve_dir(&self.mod_path, base_path, "mods")
    }

    /// The resource packs directory under `base_path`.
    pub fn resourcepacks_dir(&self, base_path: &str) -> (r: String)
        ensures
            r@ == resolve_dir_spec(self.resource_pack_path, base_path@, "resourcepacks"@),
    {
        self.resolve_dir(&self.resource_pack_path, base_path, "resourcepacks")
    }

    /// The shader packs directory under `base_path`.
    pub fn shaderpacks_dir(&self, base_path: &str) -> (r: String)
        ensures
            r@ == resolve_dir_spec(self.shader_pack_path, base_path@, "shaderpacks"@),
    {
        self.resolve_dir(&self.shader_pack_path, base_path, "shaderpacks")
    }

    /// Whether a Minecraft version is set.
    pub fn is_initialized(&self) -> (b: bool)
        ensures
            b == (self.minecraft_version@.len() > 0),
    {
        !self.minecraft_version.as_str().is_empty()
    }

    fn is_fully_empty(&self) -> (b: bool)
        ensures
            b == is_fully_empty_spec(self),
    {
        self.name.as_str().is_empty() && self.description.as_str().is_empty() && self.version.as_str().is_empty()
            && self.minecraft_version.as_str().is_empty() && self.loader.loader.is_none()
            && self.loader.version.as_str().is_empty() && self.mod_path.is_none()
            && self.resource_pack_path.is_none() && self.shader_pack_path.is_none()
    }

    /// Rejects hand-broken manifests: identifying fields set without a
    /// Minecraft version, or a loader version without a loader type. A fully
    /// empty manifest passes.
    pub fn validate(&self) -> (r: Result<(), YammmError>)
        ensures
            r is Ok <==> (is_fully_empty_spec(self) || (self.minecraft_version@.len() > 0 && !(
            self.loader.version@.len() > 0 && self.loader.loader is None))),
            r matches Err(e) ==> (e matches YammmError::ConfigError(m) && (if self.minecraft_version@.len()
                == 0 { m@ == missing_mc_version_message() } else { m@
                == loader_version_without_type_message() })),
    {
        if self.is_fully_empty() {
            return Ok(());
        }
        if self.minecraft_version.as_str().is_empty() {
            return Err(
                YammmError::config_error(
                    "modpack.toml: minecraft_version is required when other fields are set",
                ),
            );
        }
        if !self.loader.version.as_str().is_empty() && self.loader.loader.is_none() {
            return Err(
                YammmError::config_error(
                    "modpack.toml: loader.version is set but loader type is missing — add a `loader.loader` field (fabric, forge, quilt, or neoforge)",
                ),
            );
        }
        Ok(())
    }

    /// Version filters: the Minecraft version when set, and the loader.
    pub fn version_filters(&self) -> (f: VersionFilters)
        ensures
            f.loader == self.loader.loader,
            match f.minecraft_version {
                None => self.minecraft_version@.len() == 0,
                Some(v) => self.minecraft_version@.len() > 0 && v@ == self.minecraft_version@,
            },
    {
        let minecraft_version = if self.minecraft_version.as_str().is_empty() {
            None
        } else {
            Some(self.minecraft_version.clone())
        };
        VersionFilters { minecraft_version, loader: self.loader.loader }
    }

    /// Fills empty fields from an MRPACK `dependencies` map given as its
    /// entries, never overwriting a set value: the Minecraft version from the
    /// first `minecraft` entry, the loader and its version from the loader
    /// entries in order (see [`apply_loader_entries`]). Returns whether
    /// anything was filled.
    pub fn apply_index_dependencies(&mut self, deps: &[(String, String)]) -> (updated: bool)
        ensures
            ({
                let d = pair_views(deps@);
                let mc = lookup_first(d, "minecraft"@);
                let mc_applied = old(self).minecraft_version@.len() == 0 && mc is Some;
                let l = apply_loader_entries(d, old(self).loader.loader, old(self).loader.version@);
                &&& final(self).minecraft_version@ == (if mc_applied {
                    mc->0
                } else {
                    old(self).minecraft_version@
                })
                &&& final(self).loader.loader == l.0
                &&& final(self).loader.version@ == l.1
                &&& updated == (mc_applied || l.2)
                &&& final(self).name == old(self).name
                &&& final(self).description == old(self).description
                &&& final(self).version == old(self).version
                &&& final(self).mod_path == old(self).mod_path
                &&& final(self).resource_pack_path == old(self).resource_pack_path
                &&& final(self).shader_pack_path == old(self).shader_pack_path
            }),
    {
        let ghost d = pair_views(deps@);
        let minecraft = chars_of("minecraft");
        let loader_suffix = chars_of("-loader");
        proof {
            reveal_strlit("-loader");
        }
        let mut updated = false;
        match find_first_key(deps, &minecraft) {
            Some(j) => {
                if self.minecraft_version.as_str().is_empty() {
                    self.minecraft_version = deps[j].1.clone();
                    updated = true;
                }
            },
            None => {},
        }
        let ghost start_loader = self.loader.loader;
        let ghost start_version = self.loader.version@;
        let ghost mc_now = self.minecraft_version@;
        let mut loader_updated = false;
        let mut i: usize = 0;
        while i < deps.len()
            invariant
                i <= deps.len(),
                d == pair_views(deps@),
                minecraft@ == "minecraft"@,
                loader_suffix@ == "-loader"@,
                loader_suffix@.len() == 7,
                self.minecraft_version@ == mc_now,
                self.name == old(self).name,
                self.description == old(self).description,
                self.version == old(self).version,
                self.mod_path == old(self).mod_path,
                self.resource_pack_path == old(self).resource_pack_path,
                self.shader_pack_path == old(self).shader_pack_path,
                (self.loader.loader, self.loader.version@, loader_updated) == apply_loader_entries(
                    d.take(i as int),
                    start_loader,
                    start_version,
                ),
            decreases deps.len() - i,
        {
            assert(d.take(i as int + 1).drop_last() == d.take(i as int));
            assert(d.take(i as int + 1).last() == d[i as int]);
            assert(d[i as int] == (deps@[i as int].0@, deps@[i as int].1@));
            let k = chars_of(deps[i].0.as_str());
            if !chars_eq(&k, &minecraft) {
                let name = if ends_with(&k, &loader_suffix) {
                    sub_chars(&k, 0, k.len() - 7)
                } else {
                    sub_chars(&k, 0, k.len())
                };
                assert(name@ == loader_key_name(k@));
                match crate::types::parse_loader_chars(&name) {
                    Some(lt) => {
                        if self.loader.loader.is_none() {
                            self.loader.loader = Some(lt);
                            loader_updated = true;
                        }
                        if self.loader.version.as_str().is_empty() {
                            self.loader.version = deps[i].1.clone();
                            loader_updated = true;
                        }
                    },
                    None => {},
                }
            }
            i += 1;
        }
        assert(d.take(deps.len() as int) == d);
        updated || loader_updated
    }
}

} // verus!

verus! {

/// API keys for external services.
#[derive(Debug)]
pub struct ApiKeys {
    pub curseforge: Option<String>,
}

/// How command results are printed.
#[derive(Clone, Copy, Debug, PartialEq, Eq, Structural)]
pub enum OutputFormat {
    Table,
    Compact,
    Json,
}

/// The lowercase name of an output format.
pub open spec fn output_format_name(f: OutputFormat) -> Seq<char> {
    match f {
        OutputFormat::Table => "table"@,
        OutputFormat::Compact => "compact"@,
        OutputFormat::Json => "json"@,
    }
}

/// The output format with exactly this (lowercase) name.
pub open spec fn output_format_named(s: Seq<char>) -> Option<OutputFormat> {
    if s == "table"@ {
        Some(OutputFormat::Table)
    } else if s == "compact"@ {
        Some(OutputFormat::Compact)
    } else if s == "json"@ {
        Some(OutputFormat::Json)
    } else {
        None
    }
}

/// Each output format's name parses back to that format, and the three
/// names differ.
pub proof fn lemma_output_format_roundtrip(f: OutputFormat, g: OutputFormat)
    ensures
        output_format_named(crate::text::lowercased(output_format_name(f))) == Some(f),
        f != g ==> output_format_name(f) != output_format_name(g),
{
    reveal_strlit("table");
    reveal_strlit("compact");
    reveal_strlit("json");
    let n = output_format_name(f);
    assert(crate::text::is_ascii_text(n));
    crate::text::lemma_lowercase_keeps_small_ascii(n);
    if f != g {
        let m = output_format_name(g);
        assert(n.len() != m.len() || n[0] != m[0]);
    }
}

/// An unrecognised output format name (lowercased).
#[derive(Debug)]
pub struct OutputFormatParseError {
    pub input: String,
}

impl OutputFormatParseError {
    /// `Unknown output format: '<input>'. Valid: table, compact, json`.
    pub fn to_string(&self) -> (s: String)
        ensures
            s@ == "Unknown output format: '"@ + self.input@ + "'. Valid: table, compact, json"@,
    {
        let mut s = String::from_str("Unknown output format: '");
        s.append(self.input.as_str());
        s.append("'. Valid: table, compact, json");
        s
    }
}

impl OutputFormat {
    pub fn as_str(&self) -> (s: &'static str)
        ensures
            s@ == output_format_name(*self),
    {
        match self {
            OutputFormat::Table => "table",
            OutputFormat::Compact => "compact",
            OutputFormat::Json => "json",
        }
    }

    /// The format's name as text (what `Display` prints).
    pub fn to_string(&self) -> (s: String)
        ensures
            s@ == output_format_name(*self),
    {
        String::from_str(self.as_str())
    }

    /// Parses an already lowercased name.
    pub fn from_lowercase(lower: &str) -> (r: Result<OutputFormat, OutputFormatParseError>)
        ensures
            match r {
                Ok(f) => output_format_named(lower@) == Some(f),
                Err(e) => output_format_named(lower@) is None && e.input@ == lower@,
            },
    {
        let c = chars_of(lower);
        let table = chars_of("table");
        let compact = chars_of("compact");
        let json = chars_of("json");
        if chars_eq(&c, &table) {
            Ok(OutputFormat::Table)
        } else if chars_eq(&c, &compact) {
            Ok(OutputFormat::Compact)
        } else if chars_eq(&c, &json) {
            Ok(OutputFormat::Json)
        } else {
            Err(OutputFormatParseError { input: String::from_str(lower) })
        }
    }

    /// Parses a name case-insensitively (by its `str::to_lowercase` form).
    pub fn parse(s: &str) -> (r: Result<OutputFormat, OutputFormatParseError>)
        ensures
            match r {
                Ok(f) => output_format_named(crate::text::lowercased(s@)) == Some(f),
                Err(e) => output_format_named(crate::text::lowercased(s@)) is None && e.input@
                    == crate::text::lowercased(s@),
            },
    {
        let lower = crate::text::to_lowercase(s);
        OutputFormat::from_lowercase(lower.as_str())
    }
}

/// Output formatting preferences.
#[derive(Debug)]
pub struct OutputConfig {
    pub format: OutputFormat,
    pub color: bool,
}

/// Global user configuration.
#[derive(Debug)]
pub struct GlobalConfig {
    pub api_keys: ApiKeys,
    pub output: OutputConfig,
    pub cache_dir: Option<String>,
    pub cache_max_size_mb: Option<u64>,
    pub max_concurrent_downloads: Option<usize>,
    pub default_modpack_dir: Option<String>,
}

/// The defaults: no keys or paths, table output with colour.
pub open spec fn is_default_global(c: &GlobalConfig) -> bool {
    &&& c.api_keys.curseforge is None
    &&& c.output.format == OutputFormat::Table
    &&& c.output.color
    &&& c.cache_dir is None
    &&& c.cache_max_size_mb is None
    &&& c.max_concurrent_downloads is None
    &&& c.default_modpack_dir is None
}

impl GlobalConfig {
    /// The default configuration.
    pub fn new() -> (c: Self)
        ensures
            is_default_global(&c),
    {
        GlobalConfig {
            api_keys: ApiKeys { curseforge: None },
            output: OutputConfig { format: OutputFormat::Table, color: true },
            cache_dir: None,
            cache_max_size_mb: None,
            max_concurrent_downloads: None,
            default_modpack_dir: None,
        }
    }

    /// Parallel downloads (8 unless configured).
    pub fn max_concurrent_downloads(&self) -> (n: usize)
        ensures
            n == match self.max_concurrent_downloads {
                Some(v) => v,
                None => 8,
            },
    {
        match self.max_concurrent_downloads {
            Some(v) => v,
            None => 8,
        }
    }

    /// Cache size limit in MB (5000 unless configured).
    pub fn cache_max_size_mb(&self) -> (n: u64)
        ensures
            n == match self.cache_max_size_mb {
                Some(v) => v,
                None => 5000,
            },
    {
        match self.cache_max_size_mb {
            Some(v) => v,
            None => 5000,
        }
    }
}

/// A key of the global configuration that `config get`/`config set` address.
#[derive(Clone, Copy, Debug, PartialEq, Eq, Structural)]
pub enum ConfigKey {
    DefaultModpackDir,
    CacheDir,
    CacheMaxSizeMb,
    MaxConcurrentDownloads,
    ApiKeysCurseforge,
    OutputFormat,
    OutputColor,
}

/// The text shown for an optional string setting (empty when unset).
pub open spec fn opt_text(o: Option<String>) -> Seq<char> {
    match o {
        Some(s) => s@,
        None => Seq::empty(),
    }
}

/// The value `config get` prints for a key.
pub open spec fn config_value_spec(c: &GlobalConfig, key: ConfigKey) -> Seq<char> {
    match key {
        ConfigKey::DefaultModpackDir => opt_text(c.default_modpack_dir),
        ConfigKey::CacheDir => opt_text(c.cache_dir),
        ConfigKey::CacheMaxSizeMb => match c.cache_max_size_mb {
            Some(v) => decimal(v as nat),
            None => Seq::empty(),
        },
        ConfigKey::MaxConcurrentDownloads => match c.max_concurrent_downloads {
            Some(v) => decimal(v as nat),
            None => Seq::empty(),
        },
        ConfigKey::ApiKeysCurseforge => opt_text(c.api_keys.curseforge),
        ConfigKey::OutputFormat => output_format_name(c.output.format),
        ConfigKey::OutputColor => if c.output.color {
            "true"@
        } else {
            "false"@
        },
    }
}

fn opt_string(o: &Option<String>) -> (s: String)
    ensures
        s@ == opt_text(*o),
{
    match o {
        Some(s) => s.clone(),
        None => String::new(),
    }
}

/// The value of a configuration key as `config get` prints it.
pub fn get_config_value(config: &GlobalConfig, key: &ConfigKey) -> (s: String)
    ensures
        s@ == config_value_spec(config, *key),
{
    match key {
        ConfigKey::DefaultModpackDir => opt_string(&config.default_modpack_dir),
        ConfigKey::CacheDir => opt_string(&config.cache_dir),
        ConfigKey::CacheMaxSizeMb => match config.cache_max_size_mb {
            Some(v) => crate::text::u64_to_decimal(v),
            None => String::new(),
        },
        ConfigKey::MaxConcurrentDownloads => match config.max_concurrent_downloads {
            Some(v) => crate::text::u64_to_decimal(v as u64),
            None => String::new(),
        },
        ConfigKey::ApiKeysCurseforge => opt_string(&config.api_keys.curseforge),
        ConfigKey::OutputFormat => String::from_str(config.output.format.as_str()),
        ConfigKey::OutputColor => if config.output.color {
            String::from_str("true")
        } else {
            String::from_str("false")
        },
    }
}

/// What `bool::from_str` returns.
pub open spec fn parse_bool_spec(s: Seq<char>) -> Option<bool> {
    if s == "true"@ {
        Some(true)
    } else if s == "false"@ {
        Some(false)
    } else {
        None
    }
}

/// `bool::from_str` on a string.
pub fn parse_bool(s: &str) -> (r: Option<bool>)
    ensures
        r == parse_bool_spec(s@),
{
    let c = chars_of(s);
    let t = chars_of("true");
    let f = chars_of("false");
    if chars_eq(&c, &t) {
        Some(true)
    } else if chars_eq(&c, &f) {
        Some(false)
    } else {
        None
    }
}

/// The settings other than `key` are the same in `a` and `b`.
pub open spec fn same_except(a: &GlobalConfig, b: &GlobalConfig, key: ConfigKey) -> bool {
    &&& key != ConfigKey::DefaultModpackDir ==> a.default_modpack_dir == b.default_modpack_dir
    &&& key != ConfigKey::CacheDir ==> a.cache_dir == b.cache_dir
    &&& key != ConfigKey::CacheMaxSizeMb ==> a.cache_max_size_mb == b.cache_max_size_mb
    &&& key != ConfigKey::MaxConcurrentDownloads ==> a.max_concurrent_downloads
        == b.max_concurrent_downloads
    &&& key != ConfigKey::ApiKeysCurseforge ==> a.api_keys.curseforge == b.api_keys.curseforge
    &&& key != ConfigKey::OutputFormat ==> a.output.format == b.output.format
    &&& key != ConfigKey::OutputColor ==> a.output.color == b.output.color
}

/// Setting one key leaves what every other key reads unchanged: two
/// configurations that differ at most in `key` read the same at `other`.
pub proof fn lemma_set_keeps_other_keys(a: &GlobalConfig, b: &GlobalConfig, key: ConfigKey, other: ConfigKey)
    requires
        same_except(a, b, key),
        other != key,
    ensures
        config_value_spec(a, other) == config_value_spec(b, other),
{
}

/// Whether `value` is accepted for `key` by `config set`.
pub open spec fn config_value_accepted(key: ConfigKey, value: Seq<char>) -> bool {
    match key {
        ConfigKey::CacheMaxSizeMb => crate::text::parse_u64_spec(value) is Some,
        ConfigKey::MaxConcurrentDownloads => crate::text::parse_u64_spec(value) is Some
            && crate::text::parse_u64_spec(value)->0 <= usize::MAX,
        ConfigKey::OutputFormat => output_format_named(crate::text::lowercased(value)) is Some,
        ConfigKey::OutputColor => parse_bool_spec(value) is Some,
        _ => true,
    }
}

/// Sets one configuration key from its text form. Numbers, the output format
/// (case-insensitive) and the colour flag must parse; a failure leaves the
/// configuration unchanged and is a configuration error.
pub fn set_config_value(config: &mut GlobalConfig, key: &ConfigKey, value: &str) -> (r: Result<
    (),
    YammmError,
>)
    ensures
        r is Ok <==> config_value_accepted(*key, value@),
        r is Err ==> r->Err_0 is ConfigError && *final(config) == *old(config),
        same_except(old(config), final(config), *key),
        r is Ok ==> config_value_spec(final(config), *key) == (match *key {
            ConfigKey::OutputFormat => output_format_name(
                output_format_named(crate::text::lowercased(value@))->0,
            ),
            ConfigKey::CacheMaxSizeMb | ConfigKey::MaxConcurrentDownloads => decimal(
                crate::text::parse_u64_spec(value@)->0 as nat,
            ),
            _ => value@,
        }),
{
    match key {
        ConfigKey::DefaultModpackDir => {
            config.default_modpack_dir = Some(String::from_str(value));
        },
        ConfigKey::CacheDir => {
            config.cache_dir = Some(String::from_str(value));
        },
        ConfigKey::CacheMaxSizeMb => {
            let c = chars_of(value);
            match crate::text::parse_u64(&c) {
                Some(v) => {
                    config.cache_max_size_mb = Some(v);
                },
                None => {
                    let mut m = String::from_str("Invalid number for cache_max_size_mb: ");
                    m.append(value);
                    return Err(YammmError::ConfigError(m));
                },
            }
        },
        ConfigKey::MaxConcurrentDownloads => {
            let c = chars_of(value);
            match crate::text::parse_u64(&c) {
                Some(v) => {
                    if v > usize::MAX as u64 {
                        let mut m = String::from_str(
                            "Invalid number for max_concurrent_downloads: ",
                        );
                        m.append(value);
                        return Err(YammmError::ConfigError(m));
                    }
                    config.max_concurrent_downloads = Some(v as usize);
                },
                None => {
                    let mut m = String::from_str("Invalid number for max_concurrent_downloads: ");
                    m.append(value);
                    return Err(YammmError::ConfigError(m));
                },
            }
        },
        ConfigKey::ApiKeysCurseforge => {
            config.api_keys.curseforge = if value.is_empty() {
                None
            } else {
                Some(String::from_str(value))
            };
        },
        ConfigKey::OutputFormat => {
            match OutputFormat::parse(value) {
                Ok(f) => {
                    config.output.format = f;
                },
                Err(e) => {
                    return Err(YammmError::ConfigError(e.to_string()));
                },
            }
        },
        ConfigKey::OutputColor => {
            match parse_bool(value) {
                Some(b) => {
                    config.output.color = b;
                },
                None => {
                    let mut m = String::from_str("Invalid boolean for output.color: ");
                    m.append(value);
                    return Err(YammmError::ConfigError(m));
                },
            }
        },
    }
    Ok(())
}

} // verus!
