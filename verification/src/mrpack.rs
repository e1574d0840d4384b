//! The Modrinth pack index (`modrinth.index.json`) that `export` writes:
//! its entries for tracked files, their hashes and side requirements.
use vstd::prelude::*;
use crate::config::ModpackManifest;
use crate::errors::YammmError;
use crate::text::push_char;
use crate::types::{loader_name, HashType, ModEnv, ProjectType, TrackedMod};

verus! {

/// Where a file is needed, in Modrinth's words (`required`, `optional`,
/// `unsupported`) for the client and the server.
pub struct MrpackEnv {
    pub client: String,
    pub server: String,
}

/// The hashes of an index entry.
pub struct MrpackHashes {
    pub sha1: Option<String>,
    pub sha256: Option<String>,
    pub sha512: Option<String>,
}

/// One file of the pack.
pub struct MrpackFile {
    pub path: String,
    pub hashes: MrpackHashes,
    pub env: Option<MrpackEnv>,
    pub downloads: Vec<String>,
    pub file_size: Option<u64>,
    pub loaders: Option<Vec<String>>,
}

/// The pack index. `dependencies` maps component names (`minecraft`,
/// `fabric-loader`, ...) to versions, each name once.
pub struct MrpackIndex {
    pub format_version: i32,
    pub game: String,
    pub version_id: String,
    pub name: String,
    pub summary: Option<String>,
    pub files: Vec<MrpackFile>,
    pub dependencies: Vec<(String, String)>,
}

/// The text of an optional string.
pub open spec fn opt_view(o: Option<String>) -> Option<Seq<char>> {
    match o {
        Some(s) => Some(s@),
        None => None,
    }
}

/// The Modrinth side requirements of a mod's side.
pub open spec fn env_spec(e: ModEnv) -> (Seq<char>, Seq<char>) {
    match e {
        ModEnv::Both => ("required"@, "required"@),
        ModEnv::Client => ("required"@, "unsupported"@),
        ModEnv::Server => ("unsupported"@, "required"@),
    }
}

/// The side of a mod read back from Modrinth's requirements; anything that
/// is not one of the recognised pairs counts as both sides.
pub open spec fn mod_env_spec(client: Seq<char>, server: Seq<char>) -> ModEnv {
    if client == "required"@ && server == "required"@ {
        ModEnv::Both
    } else if client == "required"@ && (server == "unsupported"@ || server == "optional"@) {
        ModEnv::Client
    } else if (client == "unsupported"@ || client == "optional"@) && server == "required"@ {
        ModEnv::Server
    } else {
        ModEnv::Both
    }
}

/// The side requirements of a mod's side.
pub fn mod_env_to_mrpack(env: &ModEnv) -> (e: MrpackEnv)
    ensures
        (e.client@, e.server@) == env_spec(*env),
{
    match env {
        ModEnv::Both => MrpackEnv {
            client: String::from_str("required"),
            server: String::from_str("required"),
        },
        ModEnv::Client => MrpackEnv {
            client: String::from_str("required"),
            server: String::from_str("unsupported"),
        },
        ModEnv::Server => MrpackEnv {
            client: String::from_str("unsupported"),
            server: String::from_str("required"),
        },
    }
}

/// The mod side that a pack entry's requirements describe.
pub fn mrpack_env_to_mod_env(env: &MrpackEnv) -> (e: ModEnv)
    ensures
        e == mod_env_spec(env.client@, env.server@),
{
    let c = env.client.as_str();
    let s = env.server.as_str();
    let c_req = crate::text::str_eq(c, "required");
    let c_uns = crate::text::str_eq(c, "unsupported");
    let c_opt = crate::text::str_eq(c, "optional");
    let s_req = crate::text::str_eq(s, "required");
    let s_uns = crate::text::str_eq(s, "unsupported");
    let s_opt = crate::text::str_eq(s, "optional");
    if c_req && s_req {
        ModEnv::Both
    } else if c_req && (s_uns || s_opt) {
        ModEnv::Client
    } else if (c_uns || c_opt) && s_req {
        ModEnv::Server
    } else {
        ModEnv::Both
    }
}

/// Writing a mod's side into a pack and reading it back gives the same side.
pub proof fn lemma_env_roundtrip(e: ModEnv)
    ensures
        mod_env_spec(env_spec(e).0, env_spec(e).1) == e,
{
    reveal_strlit("required");
    reveal_strlit("unsupported");
    reveal_strlit("optional");
    assert("unsupported"@.len() != "required"@.len());
    assert("required"@[0] != "optional"@[0]);
    assert("required"@ != "optional"@);
    assert("unsupported"@ != "required"@);
}

/// The directory of a project type inside the pack.
pub open spec fn dir_prefix_spec(t: ProjectType) -> Seq<char> {
    match t {
        ProjectType::Mod => "mods"@,
        ProjectType::ResourcePack => "resourcepacks"@,
        ProjectType::Shader => "shaderpacks"@,
    }
}

/// The directory of a project type inside the pack.
pub fn mrpack_dir_prefix(project_type: ProjectType) -> (s: &'static str)
    ensures
        s@ == dir_prefix_spec(project_type),
{
    match project_type {
        ProjectType::Mod => "mods",
        ProjectType::ResourcePack => "resourcepacks",
        ProjectType::Shader => "shaderpacks",
    }
}

/// The file extension of a project type's files when they have no recorded
/// file name.
pub open spec fn export_ext_spec(t: ProjectType) -> Seq<char> {
    match t {
        ProjectType::Mod => ".jar"@,
        _ => ".zip"@,
    }
}

/// The file extension of a project type's files.
pub fn export_extension(project_type: ProjectType) -> (s: &'static str)
    ensures
        s@ == export_ext_spec(project_type),
{
    match project_type {
        ProjectType::Mod => ".jar",
        _ => ".zip",
    }
}

/// The hashes of an entry: the recorded hash under its algorithm, and a
/// SHA-1 in every case where one is known, the recorded one or, for other
/// algorithms, the SHA-1 of the cached file (`computed_sha1`) when there is
/// a recorded hash at all.
pub open spec fn hashes_spec(hash: Option<String>, t: HashType, computed_sha1: Option<String>) -> (
    Option<Seq<char>>,
    Option<Seq<char>>,
    Option<Seq<char>>,
) {
    let sha1 = if hash is None {
        None
    } else {
        opt_view(computed_sha1)
    };
    match t {
        HashType::Sha1 => (opt_view(hash), None, None),
        HashType::Sha256 => (sha1, opt_view(hash), None),
        HashType::Sha512 => (sha1, None, opt_view(hash)),
        HashType::Md5 => (sha1, None, None),
    }
}

fn clone_opt(o: &Option<String>) -> (r: Option<String>)
    ensures
        opt_view(r) == opt_view(*o),
{
    match o {
        Some(s) => Some(s.clone()),
        None => None,
    }
}

/// The hashes of a tracked file's entry; `computed_sha1` is the SHA-1 of its
/// cached file, when that could be computed.
pub fn build_mrpack_hashes(m: &TrackedMod, computed_sha1: Option<String>) -> (h: MrpackHashes)
    ensures
        (opt_view(h.sha1), opt_view(h.sha256), opt_view(h.sha512)) == hashes_spec(
            m.hash,
            m.hash_type,
            computed_sha1,
        ),
{
    let sha1 = if m.hash.is_none() {
        None
    } else {
        computed_sha1
    };
    match m.hash_type {
        HashType::Sha1 => MrpackHashes { sha1: clone_opt(&m.hash), sha256: None, sha512: None },
        HashType::Sha256 => MrpackHashes { sha1, sha256: clone_opt(&m.hash), sha512: None },
        HashType::Sha512 => MrpackHashes { sha1, sha256: None, sha512: clone_opt(&m.hash) },
        HashType::Md5 => MrpackHashes { sha1, sha256: None, sha512: None },
    }
}

/// A lowercase ASCII letter or digit of a slug.
pub open spec fn slug_char(c: char) -> bool {
    ('a' <= c && c <= 'z') || ('0' <= c && c <= '9')
}

/// The slug character for `c`: ASCII letters lowercased, digits kept.
pub open spec fn slug_lower(c: char) -> char {
    if 'A' <= c && c <= 'Z' {
        ((c as u32) + 32) as char
    } else {
        c
    }
}

/// The slug text built so far: letters and digits (lowercased), and one `-`
/// for each run of other characters that follows something kept.
pub open spec fn slug_acc(s: Seq<char>) -> Seq<char>
    decreases s.len(),
{
    if s.len() == 0 {
        Seq::empty()
    } else {
        let a = slug_acc(s.drop_last());
        let c = slug_lower(s.last());
        if slug_char(c) {
            a.push(c)
        } else if a.len() > 0 && a.last() != '-' {
            a.push('-')
        } else {
            a
        }
    }
}

/// The slug of a name: its ASCII letters and digits, lowercased, with one
/// `-` between runs and none at either end.
pub open spec fn slugify_spec(s: Seq<char>) -> Seq<char> {
    let a = slug_acc(s);
    if a.len() > 0 && a.last() == '-' {
        a.drop_last()
    } else {
        a
    }
}

/// The slug of a name (`Sodium Extra!` → `sodium-extra`).
pub fn slugify(name: &str) -> (r: String)
    ensures
        r@ == slugify_spec(name@),
{
    let c = crate::text::chars_of(name);
    let mut acc: Vec<char> = Vec::new();
    let mut i: usize = 0;
    while i < c.len()
        invariant
            i <= c.len(),
            acc@ == slug_acc(c@.take(i as int)),
        decreases c.len() - i,
    {
        let ch = c[i];
        let low = if 'A' <= ch && ch <= 'Z' {
            ((ch as u32) + 32) as u8 as char
        } else {
            ch
        };
        assert(low == slug_lower(ch)) by {
            if 'A' <= ch && ch <= 'Z' {
                assert((((ch as u32) + 32) as u8) as char == ((ch as u32) + 32) as char);
            }
        }
        assert(c@.take(i as int + 1).drop_last() == c@.take(i as int));
        if ('a' <= low && low <= 'z') || ('0' <= low && low <= '9') {
            acc.push(low);
        } else if acc.len() > 0 && acc[acc.len() - 1] != '-' {
            acc.push('-');
        }
        i += 1;
    }
    assert(c@.take(c.len() as int) == c@);
    if acc.len() > 0 && acc[acc.len() - 1] == '-' {
        acc.pop();
    }
    crate::text::string_of(&acc)
}

/// The path of a tracked file inside the pack: its recorded file name, or
/// its slug and the type's extension, under the type's directory.
pub open spec fn entry_path_spec(m: TrackedMod, prefix: Seq<char>, ext: Seq<char>) -> Seq<char> {
    match m.filename {
        Some(f) => prefix + "/"@ + f@,
        None => prefix + "/"@ + slugify_spec(m.name@) + ext,
    }
}

/// An index entry describes the tracked file `m`: its path, hashes, sides,
/// download URL when it has one, file size when it has a hash (the cached
/// file's size `size`), and the Fabric loader when it runs through Connector.
pub open spec fn entry_matches(
    f: MrpackFile,
    m: TrackedMod,
    prefix: Seq<char>,
    ext: Seq<char>,
    size: u64,
    computed_sha1: Option<String>,
) -> bool {
    &&& f.path@ == entry_path_spec(m, prefix, ext)
    &&& (opt_view(f.hashes.sha1), opt_view(f.hashes.sha256), opt_view(f.hashes.sha512))
        == hashes_spec(m.hash, m.hash_type, computed_sha1)
    &&& f.env matches Some(e) && (e.client@, e.server@) == env_spec(m.env)
    &&& (if m.download_url@.len() == 0 {
        f.downloads@.len() == 0
    } else {
        f.downloads@.len() == 1 && f.downloads@[0]@ == m.download_url@
    })
    &&& f.file_size == (if m.hash is Some {
        Some(size)
    } else {
        None
    })
    &&& (if m.connector_compat {
        f.loaders matches Some(l) && l@.len() == 1 && l@[0]@ == "fabric"@
    } else {
        f.loaders is None
    })
}

/// The index entries of a list of tracked files, in order. `jar_sizes[i]` is
/// the size of item `i`'s cached file (0 when it is not cached) and
/// `computed_sha1s[i]` the SHA-1 of that file when it could be computed.
pub fn collect_mrpack_files(
    items: &[TrackedMod],
    dir_prefix: &str,
    ext: &str,
    jar_sizes: &[u64],
    computed_sha1s: &[Option<String>],
) -> (files: Vec<MrpackFile>)
    requires
        jar_sizes@.len() == items@.len(),
        computed_sha1s@.len() == items@.len(),
    ensures
        files@.len() == items@.len(),
        forall|i: int|
            0 <= i < items@.len() ==> entry_matches(
                #[trigger] files@[i],
                items@[i],
                dir_prefix@,
                ext@,
                jar_sizes@[i],
                computed_sha1s@[i],
            ),
{
    let mut files: Vec<MrpackFile> = Vec::new();
    let mut i: usize = 0;
    while i < items.len()
        invariant
            i <= items.len(),
            jar_sizes@.len() == items@.len(),
            computed_sha1s@.len() == items@.len(),
            files@.len() == i,
            forall|k: int|
                0 <= k < i ==> entry_matches(
                    #[trigger] files@[k],
                    items@[k],
                    dir_prefix@,
                    ext@,
                    jar_sizes@[k],
                    computed_sha1s@[k],
                ),
        decreases items.len() - i,
    {
        let m = &items[i];
        let mut path = String::from_str(dir_prefix);
        path.append("/");
        match &m.filename {
            Some(f) => path.append(f.as_str()),
            None => {
                let slug = slugify(m.name.as_str());
                path.append(slug.as_str());
                path.append(ext);
            },
        }
        let mut downloads: Vec<String> = Vec::new();
        if !m.download_url.as_str().is_empty() {
            downloads.push(m.download_url.clone());
        }
        let file_size = if m.hash.is_some() {
            Some(jar_sizes[i])
        } else {
            None
        };
        let loaders = if m.connector_compat {
            let mut l: Vec<String> = Vec::new();
            l.push(String::from_str("fabric"));
            Some(l)
        } else {
            None
        };
        let computed = clone_opt(&computed_sha1s[i]);
        let hashes = build_mrpack_hashes(m, computed);
        let entry = MrpackFile {
            path,
            hashes,
            env: Some(mod_env_to_mrpack(&m.env)),
            downloads,
            file_size,
            loaders,
        };
        assert(entry_matches(entry, items@[i as int], dir_prefix@, ext@, jar_sizes@[i as int], computed_sha1s@[i as int]));
        files.push(entry);
        i += 1;
    }
    files
}

/// The dependency key of a loader (`fabric-loader`, `neoforge-loader`, ...).
pub open spec fn loader_key_spec(m: ModpackManifest) -> Seq<char> {
    loader_name(
        match m.loader.loader {
            Some(l) => l,
            None => crate::types::LoaderType::Fabric,
        },
    ) + "-loader"@
}

/// The message when the Minecraft version is missing.
pub open spec fn missing_minecraft_message() -> Seq<char> {
    "Minecraft version is not set. Run `yammm config` or set it in modpack.toml before exporting."@
}

/// The message when the loader version is missing.
pub open spec fn missing_loader_message() -> Seq<char> {
    "Loader version is not set. Run `yammm config` or set it in modpack.toml before exporting."@
}

impl MrpackIndex {
    /// The index for a modpack and its file entries: format 1 for the game
    /// `minecraft`, the Minecraft and loader versions as dependencies, the
    /// modpack version (`1.0.0` when unset), its name, and its description
    /// as the summary when there is one. A modpack without a Minecraft
    /// version, or (having one) without a loader version, is a configuration
    /// error.
    pub fn from_modpack(modpack: &ModpackManifest, files: Vec<MrpackFile>) -> (r: Result<MrpackIndex, YammmError>)
        ensures
            modpack.minecraft_version@.len() == 0 ==> (r matches Err(YammmError::ConfigError(msg)) && msg@
                == missing_minecraft_message()),
            modpack.minecraft_version@.len() > 0 && modpack.loader.version@.len() == 0 ==> (r matches Err(
                YammmError::ConfigError(msg),
            ) && msg@ == missing_loader_message()),
            modpack.minecraft_version@.len() > 0 && modpack.loader.version@.len() > 0 ==> (r matches Ok(
                idx,
            ) && {
                &&& idx.format_version == 1
                &&& idx.game@ == "minecraft"@
                &&& idx.version_id@ == (if modpack.version@.len() == 0 {
                    "1.0.0"@
                } else {
                    modpack.version@
                })
                &&& idx.name@ == modpack.name@
                &&& opt_view(idx.summary) == (if modpack.description@.len() == 0 {
                    None
                } else {
                    Some(modpack.description@)
                })
                &&& idx.files == files
                &&& idx.dependencies@.len() == 2
                &&& idx.dependencies@[0].0@ == "minecraft"@
                &&& idx.dependencies@[0].1@ == modpack.minecraft_version@
                &&& idx.dependencies@[1].0@ == loader_key_spec(*modpack)
                &&& idx.dependencies@[1].1@ == modpack.loader.version@
            }),
    {
        if modpack.minecraft_version.as_str().is_empty() {
            return Err(
                YammmError::config_error(
                    "Minecraft version is not set. Run `yammm config` or set it in modpack.toml before exporting.",
                ),
            );
        }
        if modpack.loader.version.as_str().is_empty() {
            return Err(
                YammmError::config_error(
                    "Loader version is not set. Run `yammm config` or set it in modpack.toml before exporting.",
                ),
            );
        }
        let loader = modpack.loader.loader_or_default();
        let mut key = String::from_str(loader.as_str());
        key.append("-loader");
        let mut dependencies: Vec<(String, String)> = Vec::new();
        dependencies.push((String::from_str("minecraft"), modpack.minecraft_version.clone()));
        dependencies.push((key, modpack.loader.version.clone()));
        let version_id = if modpack.version.as_str().is_empty() {
            String::from_str("1.0.0")
        } else {
            modpack.version.clone()
        };
        let summary = if modpack.description.as_str().is_empty() {
            None
        } else {
            Some(modpack.description.clone())
        };
        Ok(
            MrpackIndex {
                format_version: 1,
                game: String::from_str("minecraft"),
                version_id,
                name: modpack.name.clone(),
                summary,
                files,
                dependencies,
            },
        )
    }
}

/// An exported entry marks as `required` exactly the sides the mod runs on
/// and as `unsupported` a side it does not run on: a server mod is never
/// offered to clients, nor a client mod to servers.
pub proof fn lemma_env_marks_sides(e: ModEnv)
    ensures
        env_spec(e).0 == (if e == ModEnv::Server {
            "unsupported"@
        } else {
            "required"@
        }),
        env_spec(e).1 == (if e == ModEnv::Client {
            "unsupported"@
        } else {
            "required"@
        }),
{
}

} // verus!
