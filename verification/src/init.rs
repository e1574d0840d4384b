//! `init`: when to ask, the defaults for what was not given, and the files a
//! new workspace starts with.
use vstd::prelude::*;
use crate::config::{LoaderConfig, ModpackManifest};
use crate::errors::YammmError;
use crate::types::{loader_name, loader_named, LoaderType};

verus! {

/// The Minecraft version of a new modpack when none is given.
pub const DEFAULT_MINECRAFT_VERSION: &'static str = "1.21.5";

/// The name of a new modpack when none is given.
pub const DEFAULT_MODPACK_NAME: &'static str = "my-modpack";

/// The version of a new modpack when none is given.
pub const DEFAULT_MODPACK_VERSION: &'static str = "1.0.0";

/// The `.gitignore` a new workspace starts with.
pub const GITIGNORE_CONTENT: &'static str = "mods/*.zip\n\n.idea/\n.vscode/\n*.swp\n*.swo\n\n.DS_Store\nThumbs.db\n\n.yammm/\n\ntarget/\ndist/\n\nlogs/\n*.log\n";

/// The options of `init`.
pub struct InitCommand {
    pub name: Option<String>,
    pub minecraft_version: Option<String>,
    pub loader: Option<String>,
    pub loader_version: Option<String>,
    pub description: Option<String>,
    pub output_dir: String,
    pub interactive: bool,
}

/// What `init` writes into the manifest.
pub struct InitInfo {
    pub name: String,
    pub version: Option<String>,
    pub minecraft_version: String,
    pub loader: LoaderType,
    pub loader_version: Option<String>,
    pub description: Option<String>,
}

/// The string of an optional string, or the empty one.
pub open spec fn or_empty(o: Option<String>) -> Seq<char> {
    match o {
        Some(s) => s@,
        None => Seq::empty(),
    }
}

fn clone_opt(o: &Option<String>) -> (r: Option<String>)
    ensures
        r == *o,
{
    match o {
        Some(s) => Some(s.clone()),
        None => None,
    }
}

impl InitCommand {
    /// Interactive mode: `--interactive` is set, or none of name, Minecraft
    /// version and loader was given.
    pub fn should_interact(&self) -> (b: bool)
        ensures
            b == (self.interactive || (self.name is None && self.minecraft_version is None
                && self.loader is None)),
    {
        self.interactive || (self.name.is_none() && self.minecraft_version.is_none()
            && self.loader.is_none())
    }

    /// The loader given on the command line: `Ok(None)` when none was
    /// given, an invalid-arguments error when the name is not a loader's.
    pub fn given_loader(&self) -> (r: Result<Option<LoaderType>, YammmError>)
        ensures
            match self.loader {
                None => r == Ok::<Option<LoaderType>, YammmError>(None),
                Some(l) => match loader_named(l@) {
                    Some(x) => r == Ok::<Option<LoaderType>, YammmError>(Some(x)),
                    None => r matches Err(YammmError::InvalidArgs(_)),
                },
            },
    {
        match &self.loader {
            None => Ok(None),
            Some(l) => match LoaderType::parse(l.as_str()) {
                Some(x) => Ok(Some(x)),
                None => {
                    let mut msg = String::from_str("unknown mod loader: ");
                    msg.append(l.as_str());
                    Err(YammmError::invalid_args(msg.as_str()))
                },
            },
        }
    }

    /// What a non-interactive `init` uses: each option as given, the
    /// defaults for name, Minecraft version and loader (Fabric) otherwise,
    /// and no modpack version (the default one is filled in later).
    pub fn non_interactive_info(&self) -> (r: Result<InitInfo, YammmError>)
        ensures
            match self.loader {
                Some(l) => loader_named(l@) is None <==> r is Err,
                None => r is Ok,
            },
            r is Err ==> r matches Err(YammmError::InvalidArgs(_)),
            r matches Ok(info) ==> {
                &&& info.name@ == (match self.name {
                    Some(n) => n@,
                    None => DEFAULT_MODPACK_NAME@,
                })
                &&& info.minecraft_version@ == (match self.minecraft_version {
                    Some(v) => v@,
                    None => DEFAULT_MINECRAFT_VERSION@,
                })
                &&& info.loader == (match self.loader {
                    Some(l) => loader_named(l@)->0,
                    None => LoaderType::Fabric,
                })
                &&& info.loader_version == self.loader_version
                &&& info.description == self.description
                &&& info.version is None
            },
    {
        let loader = match self.given_loader() {
            Ok(Some(l)) => l,
            Ok(None) => LoaderType::Fabric,
            Err(e) => {
                return Err(e);
            },
        };
        let name = match &self.name {
            Some(n) => n.clone(),
            None => String::from_str(DEFAULT_MODPACK_NAME),
        };
        let minecraft_version = match &self.minecraft_version {
            Some(v) => v.clone(),
            None => String::from_str(DEFAULT_MINECRAFT_VERSION),
        };
        Ok(
            InitInfo {
                name,
                version: None,
                minecraft_version,
                loader,
                loader_version: clone_opt(&self.loader_version),
                description: clone_opt(&self.description),
            },
        )
    }
}

/// The manifest of a new workspace: the collected answers, the default
/// modpack version when none was given, an empty description and loader
/// version when none was given, and no custom content paths.
pub fn init_manifest(info: InitInfo) -> (m: ModpackManifest)
    ensures
        m.name@ == info.name@,
        m.description@ == or_empty(info.description),
        m.version@ == (match info.version {
            Some(v) => v@,
            None => DEFAULT_MODPACK_VERSION@,
        }),
        m.minecraft_version@ == info.minecraft_version@,
        m.loader.loader == Some(info.loader),
        m.loader.version@ == or_empty(info.loader_version),
        m.mod_path is None,
        m.resource_pack_path is None,
        m.shader_pack_path is None,
{
    ModpackManifest {
        name: info.name,
        description: match info.description {
            Some(d) => d,
            None => String::new(),
        },
        version: match info.version {
            Some(v) => v,
            None => String::from_str(DEFAULT_MODPACK_VERSION),
        },
        minecraft_version: info.minecraft_version,
        loader: LoaderConfig {
            loader: Some(info.loader),
            version: match info.loader_version {
                Some(v) => v,
                None => String::new(),
            },
        },
        mod_path: None,
        resource_pack_path: None,
        shader_pack_path: None,
    }
}

/// The text of a new workspace's `README.md`.
pub open spec fn readme_spec(m: ModpackManifest) -> Seq<char> {
    "# "@ + m.name@ + "\n\n"@ + (if m.description@.len() == 0 {
        Seq::empty()
    } else {
        m.description@ + "\n\n"@
    }) + "- **Minecraft Version:** "@ + m.minecraft_version@ + "\n"@ + "- **Mod Loader:** "@ + (
    match m.loader.loader {
        Some(l) => loader_name(l),
        None => Seq::empty(),
    }) + "\n\n"@ + "```bash\nyammm add modrinth:jei\n```\n"@ + "```bash\nyammm launch\n```\n"@
        + "```bash\nyammm export\n```"@
}

/// The `README.md` of a new workspace: title, description when there is one,
/// Minecraft version, loader and the first commands to run.
pub fn readme_content(m: &ModpackManifest) -> (s: String)
    ensures
        s@ == readme_spec(*m),
{
    let mut s = String::from_str("# ");
    s.append(m.name.as_str());
    s.append("\n\n");
    if !m.description.as_str().is_empty() {
        s.append(m.description.as_str());
        s.append("\n\n");
    }
    s.append("- **Minecraft Version:** ");
    s.append(m.minecraft_version.as_str());
    s.append("\n");
    s.append("- **Mod Loader:** ");
    match m.loader.loader {
        Some(l) => s.append(l.as_str()),
        None => {},
    }
    s.append("\n\n");
    s.append("```bash\nyammm add modrinth:jei\n```\n");
    s.append("```bash\nyammm launch\n```\n");
    s.append("```bash\nyammm export\n```");
    assert(s@ =~= readme_spec(*m));
    s
}

} // verus!
