//! The virtual tree of a launch directory: the mods' jars under `mods/`,
//! the config directories merged under `config/`, the side's resources at
//! the top, and on the client the resource and shader packs.
use vstd::prelude::*;
use crate::mrpack::{slugify, slugify_spec};
use crate::paths::{join_paths, path_components, path_join};
use crate::text::{chars_of, string_of};
use crate::vfs::{add_dir_spec, add_file_spec, apply_listing, SourceEntry, VfsTree};

verus! {

/// A mod of the pack: its name, and the path of its jar in the cache when
/// the cache holds it.
pub struct ModJar {
    pub name: String,
    pub jar: Option<String>,
}

/// A real directory that may be mirrored into the tree: whether it exists,
/// and what it holds (directories before their contents).
pub struct DirSource {
    pub exists: bool,
    pub listing: Vec<SourceEntry>,
}

/// The virtual path of a mod's jar: `mods/<slug>.jar`.
pub open spec fn mod_jar_path(name: Seq<char>) -> Seq<char> {
    path_join("mods"@, slugify_spec(name) + ".jar"@)
}

/// The tree after mirroring `src` at `v` when it exists.
pub open spec fn mirror(m: Map<Seq<Seq<char>>, Option<Seq<char>>>, v: Seq<char>, src: DirSource) -> Map<
    Seq<Seq<char>>,
    Option<Seq<char>>,
> {
    if src.exists {
        apply_listing(add_dir_spec(m, path_components(v)), v, src.listing@)
    } else {
        m
    }
}

/// The tree after linking, in order, the jar of each mod that has one.
pub open spec fn link_jars(m: Map<Seq<Seq<char>>, Option<Seq<char>>>, mods: Seq<ModJar>) -> Map<
    Seq<Seq<char>>,
    Option<Seq<char>>,
>
    decreases mods.len(),
{
    if mods.len() == 0 {
        m
    } else {
        let prev = link_jars(m, mods.drop_last());
        match mods.last().jar {
            Some(j) => add_file_spec(prev, path_components(mod_jar_path(mods.last().name@)), j@),
            None => prev,
        }
    }
}

/// The tree after mirroring, in order, each config directory at `dest`.
pub open spec fn merge_configs(m: Map<Seq<Seq<char>>, Option<Seq<char>>>, dest: Seq<char>, srcs: Seq<DirSource>) -> Map<
    Seq<Seq<char>>,
    Option<Seq<char>>,
>
    decreases srcs.len(),
{
    if srcs.len() == 0 {
        m
    } else {
        mirror(merge_configs(m, dest, srcs.drop_last()), dest, srcs.last())
    }
}

/// The tree of a launch directory for either side: `mods/` with the jars,
/// `config/` with the config directories merged in order, then the side's
/// resources mirrored at the top.
pub open spec fn mod_tree(mods: Seq<ModJar>, configs: Seq<DirSource>, resources: DirSource) -> Map<
    Seq<Seq<char>>,
    Option<Seq<char>>,
> {
    let m0 = add_dir_spec(Map::empty(), path_components("mods"@));
    let m1 = link_jars(m0, mods);
    let m2 = add_dir_spec(m1, path_components("config"@));
    let m3 = merge_configs(m2, "config"@, configs);
    mirror(m3, "."@, resources)
}

/// The jars of the mods that have one, in order.
pub open spec fn jars_of(mods: Seq<ModJar>) -> Seq<Seq<char>>
    decreases mods.len(),
{
    if mods.len() == 0 {
        Seq::empty()
    } else {
        let prev = jars_of(mods.drop_last());
        match mods.last().jar {
            Some(j) => prev.push(j@),
            None => prev,
        }
    }
}

fn mirror_dir(tree: &mut VfsTree, v: &str, src: &DirSource)
    ensures
        final(tree)@ == mirror(old(tree)@, v@, *src),
{
    tree.add_dir_from_source(v, src.exists, src.listing.as_slice());
}

fn jar_path_of(name: &str) -> (p: String)
    ensures
        p@ == mod_jar_path(name@),
{
    let slug = slugify(name);
    let mut c = chars_of(slug.as_str());
    let ghost s = c@;
    c.push('.');
    c.push('j');
    c.push('a');
    c.push('r');
    proof {
        reveal_strlit(".jar");
        reveal_strlit("mods");
    }
    assert(c@ =~= s + ".jar"@);
    let file = string_of(c.as_slice());
    join_paths("mods", file.as_str())
}

/// Mirrors each config directory that exists at `config_dest`, in order:
/// the shared and side-specific config of each mod, then the pack's own.
pub fn populate_config_vfs(tree: &mut VfsTree, config_dest: &str, sources: &[DirSource])
    ensures
        final(tree)@ == merge_configs(old(tree)@, config_dest@, sources@),
{
    let mut i: usize = 0;
    while i < sources.len()
        invariant
            i <= sources@.len(),
            tree@ == merge_configs(old(tree)@, config_dest@, sources@.take(i as int)),
        decreases sources@.len() - i,
    {
        assert(sources@.take(i as int + 1).drop_last() == sources@.take(i as int));
        mirror_dir(tree, config_dest, &sources[i]);
        i += 1;
    }
    assert(sources@.take(sources@.len() as int) == sources@);
}

/// The tree of a launch directory: each mod's cached jar linked as
/// `mods/<slug>.jar`, the config directories merged under `config/`, and
/// the side's resources mirrored at the top.
pub fn build_mod_vfs(mods: &[ModJar], configs: &[DirSource], resources: &DirSource) -> (tree: VfsTree)
    ensures
        tree@ == mod_tree(mods@, configs@, *resources),
{
    let mut tree = VfsTree::new();
    tree.add_dir("mods");
    let ghost m0 = tree@;
    let mut i: usize = 0;
    while i < mods.len()
        invariant
            i <= mods@.len(),
            tree@ == link_jars(m0, mods@.take(i as int)),
        decreases mods@.len() - i,
    {
        assert(mods@.take(i as int + 1).drop_last() == mods@.take(i as int));
        assert(mods@.take(i as int + 1).last() == mods@[i as int]);
        match &mods[i].jar {
            Some(jar) => {
                let p = jar_path_of(mods[i].name.as_str());
                tree.add_file(p.as_str(), jar.as_str());
            },
            None => {},
        }
        i += 1;
    }
    assert(mods@.take(mods@.len() as int) == mods@);
    tree.add_dir("config");
    populate_config_vfs(&mut tree, "config", configs);
    mirror_dir(&mut tree, ".", resources);
    tree
}

/// The client's tree: the launch tree, then the resource packs and the
/// shader packs mirrored at `resourcepacks/` and `shaderpacks/`.
pub fn build_client_vfs(
    mods: &[ModJar],
    configs: &[DirSource],
    resources: &DirSource,
    resourcepacks: &DirSource,
    shaderpacks: &DirSource,
) -> (tree: VfsTree)
    ensures
        tree@ == mirror(mirror(mod_tree(mods@, configs@, *resources), "resourcepacks"@, *resourcepacks), "shaderpacks"@, *shaderpacks),
{
    let mut tree = build_mod_vfs(mods, configs, resources);
    mirror_dir(&mut tree, "resourcepacks", resourcepacks);
    mirror_dir(&mut tree, "shaderpacks", shaderpacks);
    tree
}

/// The server's tree: the launch tree alone.
pub fn build_server_vfs(mods: &[ModJar], configs: &[DirSource], resources: &DirSource) -> (tree: VfsTree)
    ensures
        tree@ == mod_tree(mods@, configs@, *resources),
{
    build_mod_vfs(mods, configs, resources)
}

/// The cached jars of the mods, in the mods' order; mods whose jar is not
/// cached are left out.
pub fn collect_mod_jars(mods: &[ModJar]) -> (jars: Vec<String>)
    ensures
        jars@.map_values(|s: String| s@) == jars_of(mods@),
{
    let mut jars: Vec<String> = Vec::new();
    let mut i: usize = 0;
    while i < mods.len()
        invariant
            i <= mods@.len(),
            jars@.map_values(|s: String| s@) == jars_of(mods@.take(i as int)),
        decreases mods@.len() - i,
    {
        assert(mods@.take(i as int + 1).drop_last() == mods@.take(i as int));
        assert(mods@.take(i as int + 1).last() == mods@[i as int]);
        let ghost before = jars@;
        match &mods[i].jar {
            Some(jar) => {
                jars.push(jar.clone());
                assert(jars@.map_values(|s: String| s@) =~= before.map_values(|s: String| s@).push(jar@));
            },
            None => {},
        }
        i += 1;
    }
    assert(mods@.take(mods@.len() as int) == mods@);
    jars
}

} // verus!
