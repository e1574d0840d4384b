//! Importing a Modrinth pack: what each index entry becomes in the modpack
//! (its content type, hash, file name, sides), the record made for an entry
//! that could not be looked up, and how the pack's metadata fills the
//! manifest.
use vstd::prelude::*;
use crate::config::{apply_loader_entries, lookup_first, pair_views, ModpackManifest};
use crate::import::{determine_source, determine_source_spec, extract_slug_from_path, extract_version_from_path, slug_from_path, version_from_path};
use crate::mrpack::{mrpack_env_to_mod_env, mod_env_spec, slugify, slugify_spec, MrpackEnv};
use crate::output::views_of_strings;
use crate::paths::{clean_path, cleaned_path, components, components_start_with, join_paths, path_components, path_join};
use crate::text::views;
use crate::text::{chars_of, has_prefix, lowercased, replace_char, replace_char_spec, split_on, str_eq, starts_with, to_lowercase};
use crate::types::{HashType, LoaderType, ModEnv, ModSource, ProjectType, SourceView, TrackedMod};

verus! {

/// The content type of an index entry, by the directory its path names.
pub open spec fn content_type_spec(path: Seq<char>) -> ProjectType {
    if has_prefix(path, "resourcepacks/"@) {
        ProjectType::ResourcePack
    } else if has_prefix(path, "shaderpacks/"@) {
        ProjectType::Shader
    } else {
        ProjectType::Mod
    }
}

/// The content type of an index entry: resource pack or shader pack by its
/// directory, a mod otherwise.
pub fn content_type_for_path(path: &str) -> (t: ProjectType)
    ensures
        t == content_type_spec(path@),
{
    let p = chars_of(path);
    let rp = chars_of("resourcepacks/");
    let sp = chars_of("shaderpacks/");
    if starts_with(&p, &rp) {
        ProjectType::ResourcePack
    } else if starts_with(&p, &sp) {
        ProjectType::Shader
    } else {
        ProjectType::Mod
    }
}

/// A hash that is given and not empty.
pub open spec fn given_hash(h: Option<String>) -> Option<Seq<char>> {
    match h {
        Some(s) => if s@.len() > 0 {
            Some(s@)
        } else {
            None
        },
        None => None,
    }
}

/// The hash an entry is recorded with: its SHA-512 when given, else its
/// SHA-1, with the matching algorithm (SHA-1 when there is neither).
pub open spec fn preferred_hash_spec(sha512: Option<String>, sha1: Option<String>) -> (Option<Seq<char>>, HashType) {
    match given_hash(sha512) {
        Some(h) => (Some(h), HashType::Sha512),
        None => match given_hash(sha1) {
            Some(h) => (Some(h), HashType::Sha1),
            None => (None, HashType::Sha1),
        },
    }
}

/// The text of an optional string.
pub open spec fn opt_text(o: Option<String>) -> Option<Seq<char>> {
    match o {
        Some(s) => Some(s@),
        None => None,
    }
}

/// Picks the hash an imported entry is recorded with (see
/// [`preferred_hash_spec`]); empty hashes count as missing.
pub fn preferred_hash(sha512: &Option<String>, sha1: &Option<String>) -> (r: (Option<String>, HashType))
    ensures
        (opt_text(r.0), r.1) == preferred_hash_spec(*sha512, *sha1),
{
    if let Some(h) = sha512 {
        if !h.as_str().is_empty() {
            return (Some(h.clone()), HashType::Sha512);
        }
    }
    if let Some(h) = sha1 {
        if !h.as_str().is_empty() {
            return (Some(h.clone()), HashType::Sha1);
        }
    }
    (None, HashType::Sha1)
}

/// The file name of an index entry: the text after its last `/`.
pub open spec fn entry_filename_spec(path: Seq<char>) -> Seq<char> {
    split_on(path, '/').last()
}

/// The file name of an index entry.
pub fn entry_filename(path: &str) -> (f: String)
    ensures
        f@ == entry_filename_spec(path@),
{
    let p = chars_of(path);
    let parts = crate::text::split_chars(&p, '/');
    proof {
        crate::text::lemma_split_on_nonempty(p@, '/');
    }
    let n = parts.len();
    assert(crate::text::views(parts@).last() == parts@[n - 1]@);
    crate::text::string_of(&parts[n - 1])
}

/// What the importer knows of one entry after looking it up.
pub struct ImportedMod {
    pub slug: String,
    pub name: String,
    pub description: String,
    pub version: String,
    pub source: ModSource,
    pub hash: Option<String>,
    pub hash_type: HashType,
    pub env: ModEnv,
    pub url: Option<String>,
    pub unresolved: bool,
    pub loaders: Vec<String>,
}

/// The record of an entry that could not be looked up: named after its
/// file, with the version read from the file name, the source read from its
/// download URL, its best hash, both sides, and marked unresolved.
pub fn unresolved_import(downloads: &[String], path: &str, sha512: &Option<String>, sha1: &Option<String>) -> (m: ImportedMod)
    ensures
        m.slug@ == slugify_spec(slug_from_path(path@)),
        m.name@ == slug_from_path(path@),
        m.description@.len() == 0,
        m.version@ == version_from_path(path@),
        m.source@ == determine_source_spec(downloads@.map_values(|d: String| d@), slugify_spec(slug_from_path(path@))),
        (opt_text(m.hash), m.hash_type) == preferred_hash_spec(*sha512, *sha1),
        m.env == ModEnv::Both,
        m.url is None,
        m.unresolved,
        m.loaders@.len() == 0,
{
    let name = extract_slug_from_path(path);
    let slug = slugify(name.as_str());
    let version = extract_version_from_path(path);
    let source = determine_source(downloads, slug.as_str());
    let (hash, hash_type) = preferred_hash(sha512, sha1);
    ImportedMod {
        slug,
        name,
        description: String::new(),
        version,
        source,
        hash,
        hash_type,
        env: ModEnv::Both,
        url: None,
        unresolved: true,
        loaders: Vec::new(),
    }
}

/// The version runs on Fabric and on neither Forge nor NeoForge.
pub open spec fn fabric_only_spec(loaders: Seq<Seq<char>>) -> bool {
    loaders.contains("fabric"@) && !loaders.contains("forge"@) && !loaders.contains("neoforge"@)
}

fn has_loader(loaders: &[String], name: &str) -> (b: bool)
    ensures
        b == views_of_strings(loaders@).contains(name@),
{
    let ghost v = views_of_strings(loaders@);
    let mut i: usize = 0;
    while i < loaders.len()
        invariant
            i <= loaders.len(),
            v == views_of_strings(loaders@),
            forall|j: int| 0 <= j < i ==> v[j] != name@,
        decreases loaders.len() - i,
    {
        assert(v[i as int] == loaders@[i as int]@);
        if str_eq(loaders[i].as_str(), name) {
            return true;
        }
        i += 1;
    }
    false
}

/// Whether a version runs on Fabric only (see [`fabric_only_spec`]).
pub fn is_fabric_only(loaders: &[String]) -> (b: bool)
    ensures
        b == fabric_only_spec(views_of_strings(loaders@)),
{
    has_loader(loaders, "fabric") && !has_loader(loaders, "forge") && !has_loader(loaders, "neoforge")
}

/// Fabric mods can be run through Connector: the modpack uses Forge or
/// NeoForge and Connector is installed.
pub fn should_try_connector(loader: Option<LoaderType>, connector_installed: bool) -> (b: bool)
    ensures
        b == ((loader == Some(LoaderType::Forge) || loader == Some(LoaderType::NeoForge)) && connector_installed),
{
    match loader {
        Some(LoaderType::Forge) | Some(LoaderType::NeoForge) => connector_installed,
        _ => false,
    }
}

/// The side an imported entry runs on: the pack's requirements when the
/// entry has them, else what the lookup found.
pub fn import_env(entry_env: &Option<MrpackEnv>, resolved: ModEnv) -> (e: ModEnv)
    ensures
        e == match entry_env {
            Some(x) => mod_env_spec(x.client@, x.server@),
            None => resolved,
        },
{
    match entry_env {
        Some(x) => mrpack_env_to_mod_env(x),
        None => resolved,
    }
}

/// The record saved for an imported entry: the looked-up data, the first
/// download URL, the content type, sides, file name and whether it runs
/// through Connector; no dependencies and no categories yet.
pub fn imported_tracked_mod(
    m: &ImportedMod,
    download_url: &str,
    content_type: ProjectType,
    env: ModEnv,
    filename: Option<String>,
    needs_connector: bool,
) -> (t: TrackedMod)
    ensures
        t.id@ == m.slug@,
        t.name@ == m.name@,
        t.description@ == m.description@,
        t.version@ == m.version@,
        t.source@ == m.source@,
        t.dependencies@.len() == 0,
        t.url@ == (match m.url {
            Some(u) => u@,
            None => Seq::empty(),
        }),
        t.download_url@ == download_url@,
        opt_text(t.hash) == opt_text(m.hash),
        t.hash_type == m.hash_type,
        t.project_type == content_type,
        t.env == env,
        t.categories@.len() == 0,
        opt_text(t.filename) == opt_text(filename),
        t.unresolved == m.unresolved,
        t.connector_compat == needs_connector,
{
    TrackedMod {
        id: m.slug.clone(),
        name: m.name.clone(),
        description: m.description.clone(),
        version: m.version.clone(),
        source: m.source.clone(),
        dependencies: Vec::new(),
        url: match &m.url {
            Some(u) => u.clone(),
            None => String::new(),
        },
        download_url: String::from_str(download_url),
        hash: match &m.hash {
            Some(h) => Some(h.clone()),
            None => None,
        },
        hash_type: m.hash_type,
        project_type: content_type,
        env,
        categories: Vec::new(),
        filename,
        unresolved: m.unresolved,
        connector_compat: needs_connector,
    }
}

/// Fills the manifest's empty name, version and description from the pack
/// and applies the pack's dependencies; says whether anything changed.
pub fn merge_index_metadata(
    manifest: &mut ModpackManifest,
    name: &str,
    version_id: &str,
    summary: &Option<String>,
    deps: &[(String, String)],
) -> (updated: bool)
    ensures
        final(manifest).name@ == (if name@.len() > 0 && old(manifest).name@.len() == 0 {
            name@
        } else {
            old(manifest).name@
        }),
        final(manifest).version@ == (if version_id@.len() > 0 && old(manifest).version@.len() == 0 {
            version_id@
        } else {
            old(manifest).version@
        }),
        final(manifest).description@ == (match summary {
            Some(s) => if old(manifest).description@.len() == 0 {
                s@
            } else {
                old(manifest).description@
            },
            None => old(manifest).description@,
        }),
        ({
            let d = pair_views(deps@);
            let mc = lookup_first(d, "minecraft"@);
            let mc_applied = old(manifest).minecraft_version@.len() == 0 && mc is Some;
            let l = apply_loader_entries(d, old(manifest).loader.loader, old(manifest).loader.version@);
            &&& final(manifest).minecraft_version@ == (if mc_applied {
                mc->0
            } else {
                old(manifest).minecraft_version@
            })
            &&& final(manifest).loader.loader == l.0
            &&& final(manifest).loader.version@ == l.1
            &&& updated == ((name@.len() > 0 && old(manifest).name@.len() == 0) || (version_id@.len() > 0
                && old(manifest).version@.len() == 0) || (summary is Some && old(manifest).description@.len()
                == 0) || mc_applied || l.2)
        }),
        final(manifest).mod_path == old(manifest).mod_path,
        final(manifest).resource_pack_path == old(manifest).resource_pack_path,
        final(manifest).shader_pack_path == old(manifest).shader_pack_path,
{
    let mut updated = false;
    if !name.is_empty() && manifest.name.as_str().is_empty() {
        manifest.name = String::from_str(name);
        updated = true;
    }
    if !version_id.is_empty() && manifest.version.as_str().is_empty() {
        manifest.version = String::from_str(version_id);
        updated = true;
    }
    if let Some(s) = summary {
        if manifest.description.as_str().is_empty() {
            manifest.description = s.clone();
            updated = true;
        }
    }
    let applied = manifest.apply_index_dependencies(deps);
    updated || applied
}


/// A search hit is the entry's mod: same slug, the same slug up to case, or
/// a title that reads as the slug (case and `-` for space aside).
pub open spec fn hit_matches_spec(hit_slug: Seq<char>, hit_title: Seq<char>, slug: Seq<char>) -> bool {
    hit_slug == slug || lowercased(hit_slug) == lowercased(slug) || replace_char_spec(lowercased(hit_title), '-', ' ')
        == replace_char_spec(lowercased(slug), '-', ' ')
}

/// Whether a search hit is the mod an entry's file name points to.
pub fn search_hit_matches(hit_slug: &str, hit_title: &str, slug: &str) -> (b: bool)
    ensures
        b == hit_matches_spec(hit_slug@, hit_title@, slug@),
{
    if str_eq(hit_slug, slug) {
        return true;
    }
    let hl = to_lowercase(hit_slug);
    let sl = to_lowercase(slug);
    if str_eq(hl.as_str(), sl.as_str()) {
        return true;
    }
    let tl = to_lowercase(hit_title);
    let t = replace_char(&chars_of(tl.as_str()), '-', ' ');
    let n = replace_char(&chars_of(sl.as_str()), '-', ' ');
    crate::text::chars_eq(&t, &n)
}

/// A category that names a mod loader.
pub open spec fn is_loader_category(c: Seq<char>) -> bool {
    c == "fabric"@ || c == "forge"@ || c == "neoforge"@ || c == "quilt"@
}

/// The categories that name a mod loader, in order.
pub open spec fn loader_categories_spec(cs: Seq<Seq<char>>) -> Seq<Seq<char>>
    decreases cs.len(),
{
    if cs.len() == 0 {
        Seq::empty()
    } else {
        let prev = loader_categories_spec(cs.drop_last());
        if is_loader_category(cs.last()) {
            prev.push(cs.last())
        } else {
            prev
        }
    }
}

/// The loaders among a search hit's categories, in order.
pub fn loader_categories(categories: &[String]) -> (out: Vec<String>)
    ensures
        views_of_strings(out@) == loader_categories_spec(views_of_strings(categories@)),
{
    let ghost cs = views_of_strings(categories@);
    let mut out: Vec<String> = Vec::new();
    let mut i: usize = 0;
    while i < categories.len()
        invariant
            i <= categories.len(),
            cs == views_of_strings(categories@),
            views_of_strings(out@) == loader_categories_spec(cs.take(i as int)),
        decreases categories.len() - i,
    {
        let c = categories[i].as_str();
        let keep = str_eq(c, "fabric") || str_eq(c, "forge") || str_eq(c, "neoforge") || str_eq(c, "quilt");
        assert(cs.take(i as int + 1).drop_last() =~= cs.take(i as int));
        assert(cs.take(i as int + 1).last() == c@);
        assert(keep == is_loader_category(c@));
        assert(loader_categories_spec(cs.take(i as int + 1)) == (if is_loader_category(c@) {
            loader_categories_spec(cs.take(i as int)).push(c@)
        } else {
            loader_categories_spec(cs.take(i as int))
        }));
        if keep {
            let ghost o = out@;
            out.push(categories[i].clone());
            assert(views_of_strings(out@) =~= views_of_strings(o).push(c@));
        }
        i += 1;
    }
    assert(cs.take(categories.len() as int) =~= cs);
    out
}


/// Where an override entry of a Modrinth pack is written: entries under
/// `<dir>/` (backslashes read as `/`) with something after it, taken by the
/// archive's sanitised name (`enclosed`) without its first component, joined
/// to `root` and cleaned; entries outside `root` (compared component-wise),
/// directory markers and entries without a sanitised name are skipped.
pub open spec fn override_target_spec(
    name: Seq<char>,
    dir: Seq<char>,
    root: Seq<char>,
    enclosed: Option<Seq<char>>,
) -> Option<Seq<char>> {
    let norm = replace_char_spec(name, '\\', '/');
    if !has_prefix(norm, dir + "/"@) || norm.len() == dir.len() + 1 {
        None
    } else {
        match enclosed {
            None => None,
            Some(e) => {
                let comps = path_components(e);
                let stripped = if comps.len() == 0 {
                    Seq::<char>::empty()
                } else {
                    crate::text::join_with(comps.skip(1), "/"@)
                };
                let out = cleaned_path(path_join(root, stripped));
                if !components_start_with(path_components(out), path_components(root)) {
                    None
                } else if name.len() > 0 && name.last() == '/' {
                    None
                } else {
                    Some(out)
                }
            },
        }
    }
}

/// The destination of an override entry (see [`override_target_spec`]).
pub fn override_target(name: &str, dir: &str, root: &str, enclosed: Option<&str>) -> (r: Option<String>)
    ensures
        opt_text(r) == override_target_spec(
            name@,
            dir@,
            root@,
            match enclosed {
                Some(e) => Some(e@),
                None => None,
            },
        ),
{
    let n = chars_of(name);
    let norm = replace_char(&n, '\\', '/');
    let mut prefix = chars_of(dir);
    let ghost d = prefix@;
    prefix.push('/');
    proof {
        reveal_strlit("/");
    }
    assert(prefix@ =~= d + "/"@);
    if !starts_with(&norm, &prefix) || norm.len() == prefix.len() {
        return None;
    }
    let e = match enclosed {
        None => {
            return None;
        },
        Some(e) => e,
    };
    let comps = components(&chars_of(e));
    let slash = ['/'];
    assert(slash@ =~= "/"@);
    let stripped = if comps.len() == 0 {
        Vec::new()
    } else {
        assert(views(comps@).skip(1) =~= views(comps@).subrange(1, comps.len() as int));
        crate::text::join_chars_range(&comps, 1, comps.len(), &slash)
    };
    proof {
        if comps.len() == 0 {
            assert(stripped@ == Seq::<char>::empty());
        }
    }
    let joined = join_paths(root, crate::text::string_of(&stripped).as_str());
    let out = clean_path(&chars_of(joined.as_str()));
    let out_comps = components(&out);
    let root_comps = components(&chars_of(root));
    if !crate::paths::components_prefix(&out_comps, &root_comps) {
        return None;
    }
    if n.len() > 0 && n[n.len() - 1] == '/' {
        return None;
    }
    Some(crate::text::string_of(&out))
}

/// Where an import goes: the given directory, else the open modpack's
/// root, else a directory named after the archive's file stem.
pub fn import_output_dir(output: &Option<String>, open_root: &Option<String>, file_stem: &str) -> (d: String)
    ensures
        d@ == match output {
            Some(o) => o@,
            None => match open_root {
                Some(r) => r@,
                None => file_stem@,
            },
        },
{
    match output {
        Some(o) => o.clone(),
        None => match open_root {
            Some(r) => r.clone(),
            None => String::from_str(file_stem),
        },
    }
}

/// An archive entry that holds a recorded mod of a YMPK pack: `entry.ron`
/// under the project type's directory (backslashes read as `/`).
pub open spec fn ympk_entry_spec(name: Seq<char>, dir: Seq<char>) -> bool {
    let norm = replace_char_spec(name, '\\', '/');
    has_prefix(norm, dir + "/"@) && crate::text::has_suffix(norm, "/entry.ron"@)
}

/// Whether an archive entry is a recorded mod under `dir`.
pub fn is_ympk_entry(name: &str, dir: &str) -> (b: bool)
    ensures
        b == ympk_entry_spec(name@, dir@),
{
    let norm = replace_char(&chars_of(name), '\\', '/');
    let mut prefix = chars_of(dir);
    let ghost d = prefix@;
    prefix.push('/');
    proof {
        reveal_strlit("/");
    }
    assert(prefix@ =~= d + "/"@);
    let suffix = chars_of("/entry.ron");
    starts_with(&norm, &prefix) && crate::text::ends_with(&norm, &suffix)
}

/// Fills an existing manifest's empty name, version and description from
/// an imported one.
pub fn merge_ympk_manifest(existing: &mut ModpackManifest, imported: &ModpackManifest)
    ensures
        final(existing).name@ == (if old(existing).name@.len() == 0 && imported.name@.len() > 0 {
            imported.name@
        } else {
            old(existing).name@
        }),
        final(existing).version@ == (if old(existing).version@.len() == 0 && imported.version@.len() > 0 {
            imported.version@
        } else {
            old(existing).version@
        }),
        final(existing).description@ == (if old(existing).description@.len() == 0
            && imported.description@.len() > 0 {
            imported.description@
        } else {
            old(existing).description@
        }),
        final(existing).minecraft_version == old(existing).minecraft_version,
        final(existing).loader.loader == old(existing).loader.loader,
        final(existing).loader.version == old(existing).loader.version,
{
    if existing.name.as_str().is_empty() && !imported.name.as_str().is_empty() {
        existing.name = imported.name.clone();
    }
    if existing.version.as_str().is_empty() && !imported.version.as_str().is_empty() {
        existing.version = imported.version.clone();
    }
    if existing.description.as_str().is_empty() && !imported.description.as_str().is_empty() {
        existing.description = imported.description.clone();
    }
}

/// The closing line of a Modrinth pack import.
pub fn mrpack_import_summary(added: usize, skipped: usize, unresolved: usize) -> (s: String)
    ensures
        s@ == "Import complete: "@ + crate::text::decimal(added as nat) + " added, "@ + crate::text::decimal(
            skipped as nat,
        ) + " skipped, "@ + crate::text::decimal(unresolved as nat) + " unresolved"@,
{
    let mut s = String::from_str("Import complete: ");
    s.append(crate::text::u64_to_decimal(added as u64).as_str());
    s.append(" added, ");
    s.append(crate::text::u64_to_decimal(skipped as u64).as_str());
    s.append(" skipped, ");
    s.append(crate::text::u64_to_decimal(unresolved as u64).as_str());
    s.append(" unresolved");
    s
}
/// A file exported under its type's directory is imported back as that
/// type: the content type read from an index path is the type the path was
/// written for.
pub proof fn lemma_exported_type_roundtrip(m: TrackedMod, t: ProjectType)
    ensures
        content_type_spec(
            crate::mrpack::entry_path_spec(m, crate::mrpack::dir_prefix_spec(t), crate::mrpack::export_ext_spec(t)),
        ) == t,
{
    reveal_strlit("mods");
    reveal_strlit("resourcepacks");
    reveal_strlit("shaderpacks");
    reveal_strlit("/");
    reveal_strlit("resourcepacks/");
    reveal_strlit("shaderpacks/");
    let prefix = crate::mrpack::dir_prefix_spec(t);
    let p = crate::mrpack::entry_path_spec(m, prefix, crate::mrpack::export_ext_spec(t));
    let head = prefix + "/"@;
    assert(p.take(head.len() as int) =~= head);
    assert(p.len() >= head.len());
    match t {
        ProjectType::Mod => {
            assert(p[0] == head[0]);
            if has_prefix(p, "resourcepacks/"@) {
                assert(p.take(14)[0] == p[0]);
            }
            if has_prefix(p, "shaderpacks/"@) {
                assert(p.take(12)[0] == p[0]);
            }
        },
        ProjectType::ResourcePack => {
            assert(head =~= "resourcepacks/"@);
        },
        ProjectType::Shader => {
            assert(head =~= "shaderpacks/"@);
            assert(p[0] == head[0]);
            if has_prefix(p, "resourcepacks/"@) {
                assert(p.take(14)[0] == p[0]);
            }
        },
    }
}

/// A file recorded with a SHA-1 or SHA-512 hash is imported back with that
/// hash and algorithm from the hashes its export wrote.
pub proof fn lemma_exported_hash_roundtrip(m: TrackedMod, computed_sha1: Option<String>, h: crate::mrpack::MrpackHashes)
    requires
        m.hash matches Some(x) && x@.len() > 0,
        m.hash_type == HashType::Sha1 || m.hash_type == HashType::Sha512,
        (crate::mrpack::opt_view(h.sha1), crate::mrpack::opt_view(h.sha256), crate::mrpack::opt_view(h.sha512))
            == crate::mrpack::hashes_spec(m.hash, m.hash_type, computed_sha1),
    ensures
        preferred_hash_spec(h.sha512, h.sha1) == (opt_text(m.hash), m.hash_type),
{
}

proof fn lemma_split_last_after_sep(a: Seq<char>, b: Seq<char>, sep: char)
    requires
        !b.contains(sep),
    ensures
        split_on(a.push(sep) + b, sep).last() == b,
    decreases b.len(),
{
    let s = a.push(sep) + b;
    if b.len() == 0 {
        assert(s =~= a.push(sep));
    } else {
        assert(s.drop_last() =~= a.push(sep) + b.drop_last());
        assert(s.last() == b.last());
        assert(!b.drop_last().contains(sep)) by {
            if b.drop_last().contains(sep) {
                let i = choose|i: int| 0 <= i < b.drop_last().len() && b.drop_last()[i] == sep;
                assert(b[i] == sep);
            }
        }
        lemma_split_last_after_sep(a, b.drop_last(), sep);
        crate::text::lemma_split_on_nonempty(s.drop_last(), sep);
        assert(b.drop_last().push(b.last()) =~= b);
    }
}

/// The name an exported file is written under: its recorded file name, or
/// its slug and the type's extension.
pub open spec fn exported_file_name(m: TrackedMod, ext: Seq<char>) -> Seq<char> {
    match m.filename {
        Some(f) => f@,
        None => slugify_spec(m.name@) + ext,
    }
}

/// Importing an exported index entry gives back the file name it was
/// exported under, when that name holds no `/`.
pub proof fn lemma_exported_filename_roundtrip(m: TrackedMod, prefix: Seq<char>, ext: Seq<char>)
    requires
        !exported_file_name(m, ext).contains('/'),
    ensures
        entry_filename_spec(crate::mrpack::entry_path_spec(m, prefix, ext)) == exported_file_name(m, ext),
{
    reveal_strlit("/");
    let name = exported_file_name(m, ext);
    assert(crate::mrpack::entry_path_spec(m, prefix, ext) =~= prefix.push('/') + name);
    lemma_split_last_after_sep(prefix, name, '/');
}

/// The counts of an import so far: entries added, entries skipped because
/// they were already stored, and added entries that stayed unresolved.
#[derive(Clone, Copy, Debug, PartialEq, Eq, Structural)]
pub struct ImportTally {
    pub added: usize,
    pub skipped: usize,
    pub unresolved: usize,
}

/// What the import does with one entry.
#[derive(Clone, Copy, Debug, PartialEq, Eq, Structural)]
pub enum ImportAction {
    /// The entry is already stored: it is reported and left alone.
    Skip,
    /// The entry is saved; `unresolved` says it is reported as unresolved,
    /// `resolve_deps` that its dependencies are resolved afterwards.
    Save { unresolved: bool, resolve_deps: bool },
}

/// One entry of an import: an entry already stored is skipped; any other
/// is saved and counted as added, as unresolved too when it could not be
/// looked up, and, when it was found through a provider's API, queued for
/// dependency resolution.
pub fn import_entry_step(tally: ImportTally, already_stored: bool, unresolved: bool, source: &ModSource) -> (r: (
    ImportAction,
    ImportTally,
))
    requires
        tally.added < usize::MAX,
        tally.skipped < usize::MAX,
        tally.unresolved < usize::MAX,
    ensures
        already_stored ==> r.0 == ImportAction::Skip && r.1 == (ImportTally { skipped: (tally.skipped + 1) as usize, ..tally }),
        !already_stored ==> r.0 == (ImportAction::Save { unresolved, resolve_deps: !unresolved && !(source@ is Url) })
            && r.1 == (ImportTally {
                added: (tally.added + 1) as usize,
                skipped: tally.skipped,
                unresolved: if unresolved {
                    (tally.unresolved + 1) as usize
                } else {
                    tally.unresolved
                },
            }),
{
    if already_stored {
        let t = ImportTally { skipped: tally.skipped + 1, ..tally };
        return (ImportAction::Skip, t);
    }
    let resolve_deps = !unresolved && source.requires_api();
    let unresolved_count = if unresolved {
        tally.unresolved + 1
    } else {
        tally.unresolved
    };
    (
        ImportAction::Save { unresolved, resolve_deps },
        ImportTally { added: tally.added + 1, skipped: tally.skipped, unresolved: unresolved_count },
    )
}

/// A version counts as Fabric-only exactly when its loaders include
/// `fabric` and neither `forge` nor `neoforge`: a version that also runs on
/// Forge or NeoForge never does, whatever else it lists.
pub proof fn lemma_fabric_only_exactly(loaders: Seq<Seq<char>>)
    ensures
        loaders.contains("neoforge"@) ==> !fabric_only_spec(loaders),
        loaders.contains("forge"@) ==> !fabric_only_spec(loaders),
        !loaders.contains("fabric"@) ==> !fabric_only_spec(loaders),
        loaders.contains("fabric"@) && !loaders.contains("forge"@) && !loaders.contains("neoforge"@)
            ==> fabric_only_spec(loaders),
        !fabric_only_spec(loaders.push("neoforge"@)),
        !fabric_only_spec(loaders.push("forge"@)),
{
    assert(loaders.push("neoforge"@)[loaders.len() as int] == "neoforge"@);
    assert(loaders.push("forge"@)[loaders.len() as int] == "forge"@);
}

} // verus!
