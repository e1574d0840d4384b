//! Domain types shared by the library: loaders, mod sources and tracked mods.
use vstd::prelude::*;
use crate::text::{chars_eq, chars_of, string_eq};

verus! {

/// A Minecraft mod loader.
#[derive(Clone, Copy, Debug, PartialEq, Eq, Structural)]
pub enum LoaderType {
    Fabric,
    Forge,
    NeoForge,
    Quilt,
}

/// The lowercase name of a loader, as written in manifests and MRPACK keys.
pub open spec fn loader_name(l: LoaderType) -> Seq<char> {
    match l {
        LoaderType::Fabric => seq!['f', 'a', 'b', 'r', 'i', 'c'],
        LoaderType::Forge => seq!['f', 'o', 'r', 'g', 'e'],
        LoaderType::NeoForge => seq!['n', 'e', 'o', 'f', 'o', 'r', 'g', 'e'],
        LoaderType::Quilt => seq!['q', 'u', 'i', 'l', 't'],
    }
}

/// The loader whose name is exactly `s`, if any.
pub open spec fn loader_named(s: Seq<char>) -> Option<LoaderType> {
    if s == loader_name(LoaderType::Fabric) {
        Some(LoaderType::Fabric)
    } else if s == loader_name(LoaderType::Forge) {
        Some(LoaderType::Forge)
    } else if s == loader_name(LoaderType::NeoForge) {
        Some(LoaderType::NeoForge)
    } else if s == loader_name(LoaderType::Quilt) {
        Some(LoaderType::Quilt)
    } else {
        None
    }
}

impl LoaderType {
    /// The loader's lowercase name.
    pub fn as_str(&self) -> (s: &'static str)
        ensures
            s@ == loader_name(*self),
    {
        match self {
            LoaderType::Fabric => {
                proof {
                    reveal_strlit("fabric");
                }
                "fabric"
            },
            LoaderType::Forge => {
                proof {
                    reveal_strlit("forge");
                }
                "forge"
            },
            LoaderType::NeoForge => {
                proof {
                    reveal_strlit("neoforge");
                }
                "neoforge"
            },
            LoaderType::Quilt => {
                proof {
                    reveal_strlit("quilt");
                }
                "quilt"
            },
        }
    }

    /// Fabric and Quilt share one launch model.
    pub fn is_fabric_like(&self) -> (b: bool)
        ensures
            b == (*self == LoaderType::Fabric || *self == LoaderType::Quilt),
    {
        match self {
            LoaderType::Fabric | LoaderType::Quilt => true,
            _ => false,
        }
    }

    /// Parses a loader name (`fabric`, `forge`, `neoforge`, `quilt`).
    pub fn parse(s: &str) -> (r: Option<LoaderType>)
        ensures
            r == loader_named(s@),
    {
        let c = chars_of(s);
        parse_loader_chars(&c)
    }
}

/// Parses a loader name given as characters.
pub fn parse_loader_chars(c: &[char]) -> (r: Option<LoaderType>)
    ensures
        r == loader_named(c@),
{
    let fabric = ['f', 'a', 'b', 'r', 'i', 'c'];
    let forge = ['f', 'o', 'r', 'g', 'e'];
    let neoforge = ['n', 'e', 'o', 'f', 'o', 'r', 'g', 'e'];
    let quilt = ['q', 'u', 'i', 'l', 't'];
    assert(fabric@ == loader_name(LoaderType::Fabric));
    assert(forge@ == loader_name(LoaderType::Forge));
    assert(neoforge@ == loader_name(LoaderType::NeoForge));
    assert(quilt@ == loader_name(LoaderType::Quilt));
    if chars_eq(c, &fabric) {
        Some(LoaderType::Fabric)
    } else if chars_eq(c, &forge) {
        Some(LoaderType::Forge)
    } else if chars_eq(c, &neoforge) {
        Some(LoaderType::NeoForge)
    } else if chars_eq(c, &quilt) {
        Some(LoaderType::Quilt)
    } else {
        None
    }
}

} // verus!

verus! {

/// Where a mod comes from.
#[derive(Debug)]
pub enum ModSource {
    Modrinth { id: String },
    CurseForge { id: String },
    Url { url: String },
}

/// The mathematical content of a [`ModSource`].
pub enum SourceView {
    Modrinth(Seq<char>),
    CurseForge(Seq<char>),
    Url(Seq<char>),
}

impl View for ModSource {
    type V = SourceView;

    open spec fn view(&self) -> SourceView {
        match self {
            ModSource::Modrinth { id } => SourceView::Modrinth(id@),
            ModSource::CurseForge { id } => SourceView::CurseForge(id@),
            ModSource::Url { url } => SourceView::Url(url@),
        }
    }
}

impl Clone for ModSource {
    fn clone(&self) -> (s: Self)
        ensures
            s@ == self@,
    {
        match self {
            ModSource::Modrinth { id } => ModSource::Modrinth { id: id.clone() },
            ModSource::CurseForge { id } => ModSource::CurseForge { id: id.clone() },
            ModSource::Url { url } => ModSource::Url { url: url.clone() },
        }
    }
}

impl ModSource {
    /// A Modrinth source with the given project id or slug.
    pub fn modrinth(id: &str) -> (s: ModSource)
        ensures
            s@ == SourceView::Modrinth(id@),
    {
        ModSource::Modrinth { id: String::from_str(id) }
    }

    /// A CurseForge source with the given project id or slug.
    pub fn curseforge(id: &str) -> (s: ModSource)
        ensures
            s@ == SourceView::CurseForge(id@),
    {
        ModSource::CurseForge { id: String::from_str(id) }
    }

    /// A direct-download source.
    pub fn url(url: &str) -> (s: ModSource)
        ensures
            s@ == SourceView::Url(url@),
    {
        ModSource::Url { url: String::from_str(url) }
    }

    /// Whether an identifier names a download directly: an `http://`,
    /// `https://` or `file://` URL.
    pub fn is_url_like(identifier: &str) -> (b: bool)
        ensures
            b == url_like(identifier@),
    {
        let c = chars_of(identifier);
        let http = chars_of("http://");
        let https = chars_of("https://");
        let file = chars_of("file://");
        crate::text::starts_with(c.as_slice(), http.as_slice()) || crate::text::starts_with(c.as_slice(), https.as_slice())
            || crate::text::starts_with(c.as_slice(), file.as_slice())
    }

    /// Whether the source is looked up through a provider's API (Modrinth or
    /// CurseForge); a URL source is downloaded directly.
    pub fn requires_api(&self) -> (b: bool)
        ensures
            b == !(self@ is Url),
    {
        match self {
            ModSource::Url { .. } => false,
            _ => true,
        }
    }

    /// Equality of two sources by kind and identifier.
    pub fn same_as(&self, other: &ModSource) -> (b: bool)
        ensures
            b == (self@ == other@),
    {
        match self {
            ModSource::Modrinth { id: a } => match other {
                ModSource::Modrinth { id: b } => string_eq(a, b),
                _ => false,
            },
            ModSource::CurseForge { id: a } => match other {
                ModSource::CurseForge { id: b } => string_eq(a, b),
                _ => false,
            },
            ModSource::Url { url: a } => match other {
                ModSource::Url { url: b } => string_eq(a, b),
                _ => false,
            },
        }
    }
}

/// Whether an identifier is an `http://`, `https://` or `file://` URL.
pub open spec fn url_like(s: Seq<char>) -> bool {
    crate::text::has_prefix(s, "http://"@) || crate::text::has_prefix(s, "https://"@) || crate::text::has_prefix(
        s,
        "file://"@,
    )
}

/// On which side a mod runs.
#[derive(Clone, Copy, Debug, PartialEq, Eq, Structural)]
pub enum ModEnv {
    Both,
    Client,
    Server,
}

impl ModEnv {
    /// The side's name.
    pub fn as_str(self) -> (s: &'static str)
        ensures
            s@ == env_name(self),
    {
        match self {
            ModEnv::Both => "both",
            ModEnv::Client => "client",
            ModEnv::Server => "server",
        }
    }
}

/// The name of a side.
pub open spec fn env_name(e: ModEnv) -> Seq<char> {
    match e {
        ModEnv::Both => "both"@,
        ModEnv::Client => "client"@,
        ModEnv::Server => "server"@,
    }
}

/// How a dependency relates to the depending mod.
#[derive(Clone, Copy, Debug, PartialEq, Eq, Structural)]
pub enum DependencyKind {
    Required,
    Optional,
    Incompatible,
    Embedded,
}

impl DependencyKind {
    /// The kind's name.
    pub fn as_str(self) -> (s: &'static str)
        ensures
            s@ == dependency_kind_name(self),
    {
        match self {
            DependencyKind::Required => "required",
            DependencyKind::Optional => "optional",
            DependencyKind::Incompatible => "incompatible",
            DependencyKind::Embedded => "embedded",
        }
    }
}

/// The name of a dependency kind.
pub open spec fn dependency_kind_name(k: DependencyKind) -> Seq<char> {
    match k {
        DependencyKind::Required => "required"@,
        DependencyKind::Optional => "optional"@,
        DependencyKind::Incompatible => "incompatible"@,
        DependencyKind::Embedded => "embedded"@,
    }
}

/// The hash algorithm a tracked file's hash was taken with.
#[derive(Clone, Copy, Debug, PartialEq, Eq, Structural)]
pub enum HashType {
    Sha1,
    Sha256,
    Sha512,
    Md5,
}

/// The kind of content a tracked project is.
#[derive(Clone, Copy, Debug, PartialEq, Eq, Structural)]
pub enum ProjectType {
    Mod,
    ResourcePack,
    Shader,
}

impl ProjectType {
    /// The kind's name.
    pub fn as_str(self) -> (s: &'static str)
        ensures
            s@ == project_name(self),
    {
        match self {
            ProjectType::Mod => "mod",
            ProjectType::ResourcePack => "resourcepack",
            ProjectType::Shader => "shader",
        }
    }
}

/// The name of a kind of content.
pub open spec fn project_name(t: ProjectType) -> Seq<char> {
    match t {
        ProjectType::Mod => "mod"@,
        ProjectType::ResourcePack => "resourcepack"@,
        ProjectType::Shader => "shader"@,
    }
}

/// A dependency edge recorded on a tracked mod.
#[derive(Clone, Debug)]
pub struct Dependency {
    pub mod_id: String,
    pub source: ModSource,
    pub kind: DependencyKind,
}

/// A mod, resource pack or shader pack recorded in the modpack.
#[derive(Clone, Debug)]
pub struct TrackedMod {
    pub id: String,
    pub name: String,
    pub description: String,
    pub version: String,
    pub source: ModSource,
    pub dependencies: Vec<Dependency>,
    pub url: String,
    pub download_url: String,
    pub hash: Option<String>,
    pub hash_type: HashType,
    pub project_type: ProjectType,
    pub env: ModEnv,
    pub categories: Vec<String>,
    pub filename: Option<String>,
    pub unresolved: bool,
    pub connector_compat: bool,
}

/// A version of a mod offered by its source.
#[derive(Clone, Debug)]
pub struct ModVersion {
    pub version: String,
    pub download_url: String,
    pub hash: Option<String>,
    pub hash_type: HashType,
}

/// Filters applied when choosing a mod version.
#[derive(Clone, Debug)]
pub struct VersionFilters {
    pub minecraft_version: Option<String>,
    pub loader: Option<LoaderType>,
}

} // verus!
