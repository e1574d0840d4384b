//! `info`: what the overview, the item lists, a mod's details and the
//! dependency tree say. Tables and colors are left to the terminal side;
//! this module decides the rows and their text.
use vstd::prelude::*;
use crate::config::ModpackManifest;
use crate::errors::YammmError;
use crate::output::{join_strings, source_label, source_label_spec, views_of_strings};
use crate::text::{chars_of, decimal, join_with, str_eq, string_of, u64_to_decimal};
use crate::types::{dependency_kind_name, env_name, loader_name, DependencyKind, TrackedMod};

verus! {

/// The loader column: the loader's name (empty when none) and its version.
pub open spec fn loader_text(m: ModpackManifest) -> Seq<char> {
    (match m.loader.loader {
        Some(l) => loader_name(l),
        None => Seq::empty(),
    }) + " "@ + m.loader.version@
}

fn loader_text_exec(m: &ModpackManifest) -> (s: String)
    ensures
        s@ == loader_text(*m),
{
    let mut s = match m.loader.loader {
        Some(l) => String::from_str(l.as_str()),
        None => String::new(),
    };
    s.append(" ");
    s.append(m.loader.version.as_str());
    s
}

/// The property rows of the overview.
pub open spec fn overview_rows_spec(m: ModpackManifest, mods: nat, packs: nat, shaders: nat) -> Seq<(Seq<char>, Seq<char>)> {
    seq![
        ("Minecraft"@, m.minecraft_version@),
        ("Loader"@, loader_text(m)),
        ("Mods"@, decimal(mods)),
        ("Resource Packs"@, decimal(packs)),
        ("Shader Packs"@, decimal(shaders)),
    ]
}

/// The pairs as texts.
pub open spec fn rows_view(v: Seq<(String, String)>) -> Seq<(Seq<char>, Seq<char>)> {
    v.map_values(|p: (String, String)| (p.0@, p.1@))
}

fn push_pair(v: &mut Vec<(String, String)>, a: String, b: String)
    ensures
        rows_view(final(v)@) == rows_view(old(v)@).push((a@, b@)),
{
    v.push((a, b));
    assert(rows_view(v@) =~= rows_view(old(v)@).push((a@, b@)));
}

/// The property rows of the overview: Minecraft version, loader, and the
/// number of each kind of content.
pub fn overview_rows(m: &ModpackManifest, mods: usize, packs: usize, shaders: usize) -> (v: Vec<(String, String)>)
    ensures
        rows_view(v@) == overview_rows_spec(*m, mods as nat, packs as nat, shaders as nat),
{
    let mut v: Vec<(String, String)> = Vec::new();
    push_pair(&mut v, String::from_str("Minecraft"), m.minecraft_version.clone());
    push_pair(&mut v, String::from_str("Loader"), loader_text_exec(m));
    push_pair(&mut v, String::from_str("Mods"), u64_to_decimal(mods as u64));
    push_pair(&mut v, String::from_str("Resource Packs"), u64_to_decimal(packs as u64));
    push_pair(&mut v, String::from_str("Shader Packs"), u64_to_decimal(shaders as u64));
    assert(rows_view(v@) =~= overview_rows_spec(*m, mods as nat, packs as nat, shaders as nat));
    v
}

/// The categories column: the categories joined with commas, or nothing.
pub open spec fn cats_column(m: TrackedMod) -> Seq<char> {
    if m.categories@.len() == 0 {
        Seq::empty()
    } else {
        join_with(views_of_strings(m.categories@), ", "@)
    }
}

/// A mod's row in the overview's mod table: name, version, side, source
/// and categories.
pub fn mod_table_row(m: &TrackedMod) -> (r: Vec<String>)
    ensures
        views_of_strings(r@) == seq![m.name@, m.version@, env_name(m.env), source_label_spec(m.source@), cats_column(*m)],
{
    let cats = if m.categories.len() == 0 {
        String::new()
    } else {
        join_strings(&m.categories, ", ")
    };
    let mut r: Vec<String> = Vec::new();
    r.push(m.name.clone());
    r.push(m.version.clone());
    r.push(String::from_str(m.env.as_str()));
    r.push(String::from_str(source_label(&m.source)));
    r.push(cats);
    assert(views_of_strings(r@) =~= seq![m.name@, m.version@, env_name(m.env), source_label_spec(m.source@), cats_column(*m)]);
    r
}

/// The heading of the item lists: `<name> - MC <version> with <loader>`.
pub fn list_heading(m: &ModpackManifest) -> (s: String)
    ensures
        s@ == m.name@ + " - MC "@ + m.minecraft_version@ + " with "@ + loader_text(*m),
{
    let mut s = m.name.clone();
    s.append(" - MC ");
    s.append(m.minecraft_version.as_str());
    s.append(" with ");
    s.append(loader_text_exec(m).as_str());
    s
}

/// A heading with a count: `<heading> (<n>)`.
pub fn counted_heading(heading: &str, n: usize) -> (s: String)
    ensures
        s@ == heading@ + " ("@ + decimal(n as nat) + ")"@,
{
    let mut s = String::from_str(heading);
    s.append(" (");
    s.append(u64_to_decimal(n as u64).as_str());
    s.append(")");
    s
}

/// An item line of a short list: `<name> v<version>`.
pub fn item_line(m: &TrackedMod) -> (s: String)
    ensures
        s@ == m.name@ + " v"@ + m.version@,
{
    let mut s = m.name.clone();
    s.append(" v");
    s.append(m.version.as_str());
    s
}

/// The parts of an item line of a verbose list: name, `v<version>`, side,
/// `[<source>]`, and `[<categories>]` when there are any.
pub fn verbose_item_parts(m: &TrackedMod) -> (r: Vec<String>)
    ensures
        views_of_strings(r@) == seq![m.name@, "v"@ + m.version@, env_name(m.env), "["@ + source_label_spec(m.source@) + "]"@] + if m.categories@.len() == 0 {
            Seq::<Seq<char>>::empty()
        } else {
            seq!["["@ + join_with(views_of_strings(m.categories@), ", "@) + "]"@]
        },
{
    let mut r: Vec<String> = Vec::new();
    r.push(m.name.clone());
    let mut v = String::from_str("v");
    v.append(m.version.as_str());
    r.push(v);
    r.push(String::from_str(m.env.as_str()));
    let mut src = String::from_str("[");
    src.append(source_label(&m.source));
    src.append("]");
    r.push(src);
    if m.categories.len() > 0 {
        let mut c = String::from_str("[");
        c.append(join_strings(&m.categories, ", ").as_str());
        c.append("]");
        r.push(c);
    }
    assert(views_of_strings(r@) =~= seq![m.name@, "v"@ + m.version@, env_name(m.env), "["@ + source_label_spec(m.source@) + "]"@] + if m.categories@.len() == 0 {
        Seq::<Seq<char>>::empty()
    } else {
        seq!["["@ + join_with(views_of_strings(m.categories@), ", "@) + "]"@]
    });
    r
}

/// The hash as shown in a mod's details: at most 32 characters, with an
/// ellipsis when it was longer.
pub open spec fn hash_display(h: Seq<char>) -> Seq<char> {
    if h.len() > 32 {
        h.take(32) + "\u{2026}"@
    } else {
        h
    }
}

/// The property rows of a mod's details: id, name, version, side and
/// source, then the description, categories, download URL and hash when
/// present.
pub open spec fn mod_detail_spec(m: TrackedMod) -> Seq<(Seq<char>, Seq<char>)> {
    seq![
        ("ID"@, m.id@),
        ("Name"@, m.name@),
        ("Version"@, m.version@),
        ("Env"@, env_name(m.env)),
        ("Source"@, source_label_spec(m.source@)),
    ] + (if m.description@.len() > 0 {
        seq![("Description"@, m.description@)]
    } else {
        Seq::empty()
    }) + (if m.categories@.len() > 0 {
        seq![("Categories"@, join_with(views_of_strings(m.categories@), ", "@))]
    } else {
        Seq::empty()
    }) + (if m.download_url@.len() > 0 {
        seq![("Download URL"@, m.download_url@)]
    } else {
        Seq::empty()
    }) + match m.hash {
        Some(h) => seq![("Hash"@, hash_display(h@))],
        None => Seq::empty(),
    }
}

/// The property rows of a mod's details (see [`mod_detail_spec`]).
pub fn mod_detail_rows(m: &TrackedMod) -> (v: Vec<(String, String)>)
    ensures
        rows_view(v@) == mod_detail_spec(*m),
{
    let mut v: Vec<(String, String)> = Vec::new();
    push_pair(&mut v, String::from_str("ID"), m.id.clone());
    push_pair(&mut v, String::from_str("Name"), m.name.clone());
    push_pair(&mut v, String::from_str("Version"), m.version.clone());
    push_pair(&mut v, String::from_str("Env"), String::from_str(m.env.as_str()));
    push_pair(&mut v, String::from_str("Source"), String::from_str(source_label(&m.source)));
    let ghost a = rows_view(v@);
    if !m.description.as_str().is_empty() {
        push_pair(&mut v, String::from_str("Description"), m.description.clone());
    }
    let ghost b = rows_view(v@);
    if m.categories.len() > 0 {
        push_pair(&mut v, String::from_str("Categories"), join_strings(&m.categories, ", "));
    }
    let ghost c = rows_view(v@);
    if !m.download_url.as_str().is_empty() {
        push_pair(&mut v, String::from_str("Download URL"), m.download_url.clone());
    }
    let ghost d = rows_view(v@);
    match &m.hash {
        Some(h) => {
            let hc = chars_of(h.as_str());
            let shown = if hc.len() > 32 {
                let mut s = string_of(crate::text::sub_chars(hc.as_slice(), 0, 32).as_slice());
                s.append("\u{2026}");
                assert(hc@.subrange(0, 32) =~= hc@.take(32));
                s
            } else {
                h.clone()
            };
            push_pair(&mut v, String::from_str("Hash"), shown);
        },
        None => {},
    }
    assert(rows_view(v@) =~= mod_detail_spec(*m));
    v
}

/// The first mod recorded under an id.
pub fn find_by_id(store: &[TrackedMod], id: &str) -> (r: Option<usize>)
    ensures
        match r {
            Some(i) => i < store@.len() && store@[i as int].id@ == id@ && forall|j: int| 0 <= j < i ==> store@[j].id@ != id@,
            None => forall|j: int| 0 <= j < store@.len() ==> store@[j].id@ != id@,
        },
{
    let mut i: usize = 0;
    while i < store.len()
        invariant
            i <= store@.len(),
            forall|j: int| 0 <= j < i ==> store@[j].id@ != id@,
        decreases store@.len() - i,
    {
        if str_eq(store[i].id.as_str(), id) {
            return Some(i);
        }
        i += 1;
    }
    None
}

/// The details of the mod recorded under an id, or the error for an
/// unknown one.
pub fn display_mod(store: &[TrackedMod], mod_id: &str) -> (r: Result<Vec<(String, String)>, YammmError>)
    ensures
        (exists|j: int| 0 <= j < store@.len() && store@[j].id@ == mod_id@) ==> (r matches Ok(v) && exists|i: int|
            0 <= i < store@.len() && store@[i].id@ == mod_id@ && (forall|j: int| 0 <= j < i ==> store@[j].id@ != mod_id@)
                && rows_view(v@) == mod_detail_spec(store@[i])),
        !(exists|j: int| 0 <= j < store@.len() && store@[j].id@ == mod_id@) ==> (r matches Err(YammmError::ModNotFound(m))
            && m@ == "Mod '"@ + mod_id@ + "' not found in mods, resourcepacks, or shaderpacks"@),
{
    match find_by_id(store, mod_id) {
        Some(i) => Ok(mod_detail_rows(&store[i])),
        None => {
            let mut m = String::from_str("Mod '");
            m.append(mod_id);
            m.append("' not found in mods, resourcepacks, or shaderpacks");
            Err(YammmError::ModNotFound(m))
        },
    }
}

/// A line of the dependency tree: a mod with its branch, version, side,
/// source and categories, or one of its dependencies with the indent of
/// its mod's branch, its own branch, its id and kind.
pub enum TreeLine {
    Mod { branch: String, name: String, version: String, env: String, source: String, categories: Option<String> },
    Dep { indent: String, branch: String, id: String, kind: String },
}

/// The branch drawn before the last and the other entries of a level.
pub open spec fn branch(last: bool) -> Seq<char> {
    if last {
        "\u{2514}\u{2500}\u{2500} "@
    } else {
        "\u{251c}\u{2500}\u{2500} "@
    }
}

/// The indent of a dependency under the last and under the other mods.
pub open spec fn dep_indent(last: bool) -> Seq<char> {
    if last {
        "    "@
    } else {
        "\u{2502}   "@
    }
}

/// The lines of one mod in the tree.
pub open spec fn mod_tree_lines(m: TrackedMod, last: bool) -> Seq<TreeLineView> {
    seq![
        TreeLineView::Mod {
            branch: branch(last),
            name: m.name@,
            version: "v"@ + m.version@,
            env: env_name(m.env),
            source: source_label_spec(m.source@),
            categories: if m.categories@.len() == 0 {
                None
            } else {
                Some("["@ + join_with(views_of_strings(m.categories@), ", "@) + "]"@)
            },
        },
    ] + Seq::new(
        m.dependencies@.len(),
        |j: int| TreeLineView::Dep {
            indent: dep_indent(last),
            branch: branch(j == m.dependencies@.len() - 1),
            id: m.dependencies@[j].mod_id@,
            kind: dependency_kind_name(m.dependencies@[j].kind),
        },
    )
}

/// The content of a tree line.
pub enum TreeLineView {
    Mod { branch: Seq<char>, name: Seq<char>, version: Seq<char>, env: Seq<char>, source: Seq<char>, categories: Option<Seq<char>> },
    Dep { indent: Seq<char>, branch: Seq<char>, id: Seq<char>, kind: Seq<char> },
}

impl View for TreeLine {
    type V = TreeLineView;

    open spec fn view(&self) -> TreeLineView {
        match self {
            TreeLine::Mod { branch, name, version, env, source, categories } => TreeLineView::Mod {
                branch: branch@,
                name: name@,
                version: version@,
                env: env@,
                source: source@,
                categories: match categories {
                    Some(c) => Some(c@),
                    None => None,
                },
            },
            TreeLine::Dep { indent, branch, id, kind } => TreeLineView::Dep {
                indent: indent@,
                branch: branch@,
                id: id@,
                kind: kind@,
            },
        }
    }
}

/// The lines of the dependency tree: each mod, the last one drawn as the
/// closing branch, followed by its dependencies.
pub open spec fn tree_spec(mods: Seq<TrackedMod>) -> Seq<TreeLineView> {
    tree_from(mods, 0)
}

/// The tree lines of the mods from position `i` on.
pub open spec fn tree_from(mods: Seq<TrackedMod>, i: int) -> Seq<TreeLineView>
    decreases mods.len() - i,
{
    if i >= mods.len() || i < 0 {
        Seq::empty()
    } else {
        mod_tree_lines(mods[i], i == mods.len() - 1) + tree_from(mods, i + 1)
    }
}

/// The views of tree lines.
pub open spec fn lines_view(v: Seq<TreeLine>) -> Seq<TreeLineView> {
    v.map_values(|l: TreeLine| l@)
}

fn branch_text(last: bool) -> (s: String)
    ensures
        s@ == branch(last),
{
    if last {
        String::from_str("\u{2514}\u{2500}\u{2500} ")
    } else {
        String::from_str("\u{251c}\u{2500}\u{2500} ")
    }
}

fn mod_lines(m: &TrackedMod, last: bool) -> (v: Vec<TreeLine>)
    ensures
        lines_view(v@) == mod_tree_lines(*m, last),
{
    let mut v: Vec<TreeLine> = Vec::new();
    let cats = if m.categories.len() == 0 {
        None
    } else {
        let mut c = String::from_str("[");
        c.append(join_strings(&m.categories, ", ").as_str());
        c.append("]");
        Some(c)
    };
    let mut ver = String::from_str("v");
    ver.append(m.version.as_str());
    v.push(TreeLine::Mod {
        branch: branch_text(last),
        name: m.name.clone(),
        version: ver,
        env: String::from_str(m.env.as_str()),
        source: String::from_str(source_label(&m.source)),
        categories: cats,
    });
    let ghost first = lines_view(v@);
    let n = m.dependencies.len();
    let ghost deps_view = Seq::new(
        m.dependencies@.len(),
        |j: int| TreeLineView::Dep {
            indent: dep_indent(last),
            branch: branch(j == m.dependencies@.len() - 1),
            id: m.dependencies@[j].mod_id@,
            kind: dependency_kind_name(m.dependencies@[j].kind),
        },
    );
    let mut j: usize = 0;
    while j < n
        invariant
            j <= n,
            n == m.dependencies@.len(),
            deps_view == Seq::new(
                m.dependencies@.len(),
                |j: int| TreeLineView::Dep {
                    indent: dep_indent(last),
                    branch: branch(j == m.dependencies@.len() - 1),
                    id: m.dependencies@[j].mod_id@,
                    kind: dependency_kind_name(m.dependencies@[j].kind),
                },
            ),
            lines_view(v@) == first + deps_view.take(j as int),
        decreases n - j,
    {
        let indent = if last {
            String::from_str("    ")
        } else {
            String::from_str("\u{2502}   ")
        };
        let line = TreeLine::Dep {
            indent,
            branch: branch_text(j == n - 1),
            id: m.dependencies[j].mod_id.clone(),
            kind: String::from_str(m.dependencies[j].kind.as_str()),
        };
        let ghost before = v@;
        v.push(line);
        assert(lines_view(v@) =~= lines_view(before).push(deps_view[j as int]));
        assert(deps_view.take(j + 1) =~= deps_view.take(j as int).push(deps_view[j as int]));
        j += 1;
    }
    assert(deps_view.take(n as int) =~= deps_view);
    v
}

/// The lines of the dependency tree (see [`tree_spec`]).
pub fn tree_lines(mods: &[TrackedMod]) -> (v: Vec<TreeLine>)
    ensures
        lines_view(v@) == tree_spec(mods@),
{
    let mut v: Vec<TreeLine> = Vec::new();
    let mut i: usize = mods.len();
    assert(lines_view(v@) =~= tree_from(mods@, mods@.len() as int));
    while i > 0
        invariant
            i <= mods@.len(),
            lines_view(v@) == tree_from(mods@, i as int),
        decreases i,
    {
        i -= 1;
        let mut lines = mod_lines(&mods[i], i == mods.len() - 1);
        let ghost a = lines@;
        let ghost b = v@;
        lines.append(&mut v);
        v = lines;
        assert(lines_view(v@) =~= lines_view(a) + lines_view(b));
    }
    v
}

} // verus!
