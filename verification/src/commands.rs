//! The options of the command-line subcommands, and the choices made from
//! them before any work starts.
use vstd::prelude::*;
use crate::config::ConfigKey;
use crate::launch_args::{ClientArgs, ServerArgs};
use crate::mrpack::{slugify, slugify_spec};
use crate::types::{ModEnv, ModSource, ProjectType, SourceView};

verus! {

/// A mod source that can be chosen on the command line.
#[derive(Clone, Copy, Debug, PartialEq, Eq, Structural)]
pub enum CliSource {
    Modrinth,
    CurseForge,
}

impl CliSource {
    /// The source an identifier stands for: a URL or file URL as itself,
    /// anything else as a project of the chosen provider.
    pub fn to_mod_source(&self, identifier: &str) -> (s: ModSource)
        ensures
            s@ == if crate::types::url_like(identifier@) {
                SourceView::Url(identifier@)
            } else {
                match self {
                    CliSource::Modrinth => SourceView::Modrinth(identifier@),
                    CliSource::CurseForge => SourceView::CurseForge(identifier@),
                }
            },
    {
        if ModSource::is_url_like(identifier) {
            ModSource::url(identifier)
        } else {
            match self {
                CliSource::CurseForge => ModSource::curseforge(identifier),
                CliSource::Modrinth => ModSource::modrinth(identifier),
            }
        }
    }
}

/// `add`: add a mod to the modpack.
pub struct AddCommand {
    pub identifier: String,
    pub version: Option<String>,
    pub force: bool,
    pub source: CliSource,
    pub loader: Option<String>,
    pub env: Option<ModEnv>,
    pub project_type: Option<ProjectType>,
    pub categories: Vec<String>,
    pub yes: bool,
}

/// `auth`: Microsoft account login.
pub struct AuthCommand {
    pub command: AuthSubcommand,
}

/// The `auth` actions.
pub enum AuthSubcommand {
    Login,
    Logout,
    Status,
}

/// `cache`: the global download cache.
pub struct CacheCommand {
    pub command: CacheSubcommand,
}

/// The `cache` actions.
pub enum CacheSubcommand {
    Status,
    Clean,
    Obliterate,
    ClearHttpMeta { stale: bool, max_age: Option<String> },
}

/// `config`: the global configuration.
pub struct ConfigCommand {
    pub command: ConfigSubcommand,
}

/// The `config` actions.
pub enum ConfigSubcommand {
    Edit,
    Show,
    Get { key: ConfigKey },
    SetKey { key: ConfigKey, value: String },
    Reset,
}

/// The archive formats `export` writes.
#[derive(Clone, Copy, Debug, PartialEq, Eq, Structural)]
pub enum ExportFormat {
    Mrpack,
    Ympk,
}

/// `export`: write the modpack as an archive.
pub struct ExportCommand {
    pub format: ExportFormat,
    pub output: Option<String>,
    pub yes: bool,
}

/// The file extension of an export format.
pub open spec fn export_format_ext(f: ExportFormat) -> Seq<char> {
    match f {
        ExportFormat::Mrpack => "mrpack"@,
        ExportFormat::Ympk => "ympk"@,
    }
}

/// The default archive name: the modpack's slug, the time stamp and the
/// format's extension.
pub open spec fn default_output_spec(name: Seq<char>, timestamp: Seq<char>, f: ExportFormat) -> Seq<char> {
    slugify_spec(name) + "-"@ + timestamp + "."@ + export_format_ext(f)
}

impl ExportCommand {
    /// Where the archive goes: the given output path, or
    /// `<slug>-<timestamp>.<ext>` in the current directory. `timestamp` is
    /// the current time in seconds since the Unix epoch, or empty when the
    /// clock cannot tell.
    pub fn generate_output_path(&self, modpack_name: &str, timestamp: &str) -> (p: String)
        ensures
            p@ == match self.output {
                Some(o) => o@,
                None => default_output_spec(modpack_name@, timestamp@, self.format),
            },
    {
        match &self.output {
            Some(o) => o.clone(),
            None => {
                let mut p = slugify(modpack_name);
                p.append("-");
                p.append(timestamp);
                p.append(".");
                match self.format {
                    ExportFormat::Mrpack => p.append("mrpack"),
                    ExportFormat::Ympk => p.append("ympk"),
                }
                p
            },
        }
    }
}

/// `import`: create a workspace from an archive.
pub struct ImportCommand {
    pub file: String,
    pub output: Option<String>,
    pub yes: bool,
}

/// `info`: show the modpack.
pub struct InfoCommand {
    pub command: Option<InfoSubcommand>,
}

/// The `info` views.
pub enum InfoSubcommand {
    List { verbose: bool },
    Mod { mod_id: String },
    Tree,
}

/// `launch`: start the game.
pub struct LaunchCommand {
    pub command: Option<LaunchSubcommand>,
}

/// The sides `launch` starts.
pub enum LaunchSubcommand {
    Client(ClientArgs),
    Server(ServerArgs),
}

/// `manage`: the interactive modpack manager.
pub struct ManageCommand;

/// `organize`: sort orphan config files into mod directories.
pub struct OrganizeCommand {
    pub command: Option<OrganizeSubcommand>,
}

/// The sides `organize` sorts for.
pub enum OrganizeSubcommand {
    Client(ClientOrganize),
    Server(ServerOrganize),
}

/// `organize client`.
pub struct ClientOrganize;

/// `organize server`.
pub struct ServerOrganize;

/// `remove`: remove a mod.
pub struct RemoveCommand {
    pub identifier: String,
    pub yes: bool,
    pub force: bool,
}

/// How `search` prints its results.
#[derive(Clone, Copy, Debug, PartialEq, Eq, Structural)]
pub enum SearchFormat {
    Table,
    Compact,
}

/// `search`: look for mods.
pub struct SearchCommand {
    pub query: String,
    pub loader: Option<String>,
    pub source: CliSource,
    pub output: SearchFormat,
    pub limit: usize,
    pub offset: usize,
}

/// `self-update`: update the program.
pub struct SelfUpdateCommand {
    pub check: bool,
    pub yes: bool,
}

/// `update`: update the mods.
pub struct UpdateCommand {
    pub yes: bool,
    pub check_only: bool,
}

} // verus!
