//! Dependency trees of the modpack's mods, as the manager shows them: built
//! from the recorded dependencies with a depth limit and without loops, and
//! flattened into indented rows.
use vstd::prelude::*;
use crate::mrpack::{slugify, slugify_spec};
use crate::output::views_of_strings;
use crate::text::{first_index_from, lemma_first_index_exact, str_eq};
use crate::types::{Dependency, DependencyKind, ModSource, SourceView, TrackedMod};

verus! {

/// One mod in a dependency tree, with the mods it depends on below it.
pub struct DepNode {
    pub mod_id: String,
    pub name: String,
    pub version: String,
    pub kind: Option<DependencyKind>,
    pub installed: bool,
    pub source: ModSource,
    pub children: Vec<DepNode>,
}

/// One row of a flattened dependency tree.
pub struct DepEntry {
    pub mod_id: String,
    pub name: String,
    pub version: String,
    pub kind: Option<DependencyKind>,
    pub installed: bool,
    pub source: ModSource,
    pub indent: usize,
}

/// The content of a dependency tree node.
pub struct DepNodeView {
    pub mod_id: Seq<char>,
    pub name: Seq<char>,
    pub version: Seq<char>,
    pub kind: Option<DependencyKind>,
    pub installed: bool,
    pub source: SourceView,
    pub children: Seq<DepNodeView>,
}

/// The content of a row.
pub struct DepEntryView {
    pub mod_id: Seq<char>,
    pub name: Seq<char>,
    pub version: Seq<char>,
    pub kind: Option<DependencyKind>,
    pub installed: bool,
    pub source: SourceView,
    pub indent: int,
}

/// The content of a node, recursively.
pub open spec fn node_view(n: DepNode) -> DepNodeView
    decreases n, 1int,
{
    DepNodeView {
        mod_id: n.mod_id@,
        name: n.name@,
        version: n.version@,
        kind: n.kind,
        installed: n.installed,
        source: n.source@,
        children: nodes_view(n.children@),
    }
}

/// The content of a list of nodes, recursively.
pub open spec fn nodes_view(tree: Seq<DepNode>) -> Seq<DepNodeView>
    decreases tree, 0int,
{
    if tree.len() == 0 {
        Seq::empty()
    } else {
        proof {
            assert(decreases_to!(tree => tree[tree.len() - 1]));
        }
        nodes_view(tree.drop_last()).push(node_view(tree.last()))
    }
}

proof fn lemma_nodes_view_index(tree: Seq<DepNode>, k: int)
    requires
        0 <= k < tree.len(),
    ensures
        nodes_view(tree).len() == tree.len(),
        nodes_view(tree)[k] == node_view(tree[k]),
    decreases tree.len(),
{
    lemma_nodes_view_len(tree);
    if k < tree.len() - 1 {
        lemma_nodes_view_index(tree.drop_last(), k);
        assert(tree.drop_last()[k] == tree[k]);
    }
}

/// The content of a row.
pub open spec fn entry_view(e: DepEntry) -> DepEntryView {
    DepEntryView {
        mod_id: e.mod_id@,
        name: e.name@,
        version: e.version@,
        kind: e.kind,
        installed: e.installed,
        source: e.source@,
        indent: e.indent as int,
    }
}

/// The position of the recorded mod with this id and source (or the store's length).
pub open spec fn find_index(store: Seq<TrackedMod>, id: Seq<char>, source: SourceView) -> int {
    first_index_from(store.len() as int, 0, |j: int| store[j].id@ == id && store[j].source@ == source)
}

/// The dependency tree of `id` (from `source`) reached through a dependency
/// of kind `kind`, at most `depth` levels deep, leaving out mods already on
/// the path `path`: nothing when the depth is used up or the mod is on the
/// path; otherwise one node with the recorded name, version and
/// dependencies (or the id, no version and no dependencies when the mod is
/// not recorded).
pub open spec fn tree_spec(
    store: Seq<TrackedMod>,
    id: Seq<char>,
    source: SourceView,
    kind: Option<DependencyKind>,
    depth: nat,
    path: Seq<Seq<char>>,
) -> Seq<DepNodeView>
    decreases depth, 1int, 0int,
{
    if depth == 0 || path.contains(id) {
        Seq::empty()
    } else {
        let i = find_index(store, id, source);
        let installed = i < store.len();
        let deps = if installed {
            store[i].dependencies@
        } else {
            Seq::empty()
        };
        seq![
            DepNodeView {
                mod_id: id,
                name: if installed {
                    store[i].name@
                } else {
                    id
                },
                version: if installed {
                    store[i].version@
                } else {
                    Seq::empty()
                },
                kind,
                installed,
                source,
                children: forest_spec(store, deps, (depth - 1) as nat, path.push(id)),
            },
        ]
    }
}

/// The trees of a mod's dependencies, in order.
pub open spec fn forest_spec(store: Seq<TrackedMod>, deps: Seq<Dependency>, depth: nat, path: Seq<Seq<char>>) -> Seq<
    DepNodeView,
>
    decreases depth + 1, 0int, deps.len(),
{
    if deps.len() == 0 {
        Seq::empty()
    } else {
        let d = deps.last();
        forest_spec(store, deps.drop_last(), depth, path) + tree_spec(
            store,
            slugify_spec(d.mod_id@),
            d.source@,
            Some(d.kind),
            depth,
            path,
        )
    }
}

/// The recorded mod with this id and source, if any.
pub fn find_mod_by_source(store: &[TrackedMod], slug: &str, source: &ModSource) -> (r: Option<usize>)
    ensures
        match r {
            Some(i) => i == find_index(store@, slug@, source@) && i < store@.len(),
            None => find_index(store@, slug@, source@) == store@.len(),
        },
{
    let ghost p = |j: int| store@[j].id@ == slug@ && store@[j].source@ == source@;
    let mut i: usize = 0;
    while i < store.len()
        invariant
            i <= store.len(),
            p == (|j: int| store@[j].id@ == slug@ && store@[j].source@ == source@),
            forall|j: int| 0 <= j < i ==> !#[trigger] p(j),
        decreases store.len() - i,
    {
        if str_eq(store[i].id.as_str(), slug) && store[i].source.same_as(source) {
            proof {
                lemma_first_index_exact(store@.len() as int, 0, i as int, p);
            }
            return Some(i);
        }
        i += 1;
    }
    proof {
        lemma_first_index_exact(store@.len() as int, 0, store@.len() as int, p);
    }
    None
}

fn contains_id(path: &Vec<String>, id: &str) -> (b: bool)
    ensures
        b == views_of_strings(path@).contains(id@),
{
    let ghost v = views_of_strings(path@);
    let mut i: usize = 0;
    while i < path.len()
        invariant
            i <= path.len(),
            v == views_of_strings(path@),
            forall|j: int| 0 <= j < i ==> v[j] != id@,
        decreases path.len() - i,
    {
        assert(v[i as int] == path@[i as int]@);
        if str_eq(path[i].as_str(), id) {
            return true;
        }
        i += 1;
    }
    false
}

fn build_dep_tree_recursive(
    store: &[TrackedMod],
    mod_id: &str,
    source: &ModSource,
    kind: Option<DependencyKind>,
    remaining_depth: usize,
    path: &mut Vec<String>,
) -> (nodes: Vec<DepNode>)
    ensures
        nodes_view(nodes@) == tree_spec(
            store@,
            mod_id@,
            source@,
            kind,
            remaining_depth as nat,
            views_of_strings(old(path)@),
        ),
        views_of_strings(final(path)@) == views_of_strings(old(path)@),
    decreases remaining_depth,
{
    let ghost p0 = views_of_strings(path@);
    if remaining_depth == 0 || contains_id(path, mod_id) {
        return Vec::new();
    }
    path.push(String::from_str(mod_id));
    assert(views_of_strings(path@) =~= p0.push(mod_id@));
    let found = find_mod_by_source(store, mod_id, source);
    let (name, version, installed) = match found {
        Some(i) => (store[i].name.clone(), store[i].version.clone(), true),
        None => (String::from_str(mod_id), String::new(), false),
    };
    let mut children: Vec<DepNode> = Vec::new();
    match found {
        Some(i) => {
            let deps = &store[i].dependencies;
            let mut k: usize = 0;
            while k < deps.len()
                invariant
                    k <= deps.len(),
                    remaining_depth > 0,
                    views_of_strings(path@) == p0.push(mod_id@),
                    nodes_view(children@) == forest_spec(
                        store@,
                        deps@.take(k as int),
                        (remaining_depth - 1) as nat,
                        p0.push(mod_id@),
                    ),
                decreases deps.len() - k,
            {
                let d = &deps[k];
                let slug = slugify(d.mod_id.as_str());
                let sub = build_dep_tree_recursive(
                    store,
                    slug.as_str(),
                    &d.source,
                    Some(d.kind),
                    remaining_depth - 1,
                    path,
                );
                assert(deps@.take(k as int + 1).drop_last() == deps@.take(k as int));
                assert(deps@.take(k as int + 1).last() == deps@[k as int]);
                let ghost before = children@;
                let mut sub = sub;
                let ghost subv = nodes_view(sub@);
                proof {
                    lemma_nodes_view_append(before, sub@);
                }
                children.append(&mut sub);
                k += 1;
            }
            assert(deps@.take(deps.len() as int) == deps@);
        },
        None => {},
    }
    let ghost cv = nodes_view(children@);
    proof {
        let i = find_index(store@, mod_id@, source@);
        let deps = if i < store@.len() {
            store@[i].dependencies@
        } else {
            Seq::empty()
        };
        if found is None {
            assert(nodes_view(Seq::<DepNode>::empty()) == Seq::<DepNodeView>::empty());
            assert(children@ =~= Seq::<DepNode>::empty());
        }
        assert(cv == forest_spec(store@, deps, (remaining_depth - 1) as nat, p0.push(mod_id@)));
    }
    let ghost pre = path@;
    path.pop();
    assert(views_of_strings(path@) =~= views_of_strings(pre).drop_last());
    assert(views_of_strings(path@) =~= p0);
    let mut nodes: Vec<DepNode> = Vec::new();
    nodes.push(
        DepNode {
            mod_id: String::from_str(mod_id),
            name,
            version,
            kind,
            installed,
            source: source.clone(),
            children,
        },
    );
    assert(nodes@.drop_last() =~= Seq::<DepNode>::empty());
    assert(nodes_view(Seq::<DepNode>::empty()) == Seq::<DepNodeView>::empty());
    assert(node_view(nodes@[0]).children == cv);
    assert(nodes_view(nodes@) == seq![node_view(nodes@[0])]);
    nodes
}

proof fn lemma_nodes_view_append(a: Seq<DepNode>, b: Seq<DepNode>)
    ensures
        nodes_view(a + b) == nodes_view(a) + nodes_view(b),
    decreases b.len(),
{
    if b.len() == 0 {
        assert(a + b =~= a);
        assert(nodes_view(a) + nodes_view(b) =~= nodes_view(a));
    } else {
        lemma_nodes_view_append(a, b.drop_last());
        assert((a + b).drop_last() =~= a + b.drop_last());
        assert((a + b).last() == b.last());
        assert(nodes_view(a + b) =~= nodes_view(a) + nodes_view(b));
    }
}

/// The dependency tree of a mod, at most `max_depth` levels deep.
pub fn build_dep_tree(store: &[TrackedMod], root_id: &str, root_source: &ModSource, max_depth: usize) -> (tree: Vec<DepNode>)
    ensures
        nodes_view(tree@) == tree_spec(store@, root_id@, root_source@, None, max_depth as nat, Seq::empty()),
{
    let mut path: Vec<String> = Vec::new();
    assert(views_of_strings(path@) =~= Seq::<Seq<char>>::empty());
    build_dep_tree_recursive(store, root_id, root_source, None, max_depth, &mut path)
}

/// No node repeats one of its ancestors (or an id of `path`).
pub open spec fn loop_free(nodes: Seq<DepNodeView>, path: Seq<Seq<char>>) -> bool
    decreases nodes,
{
    forall|i: int|
        0 <= i < nodes.len() ==> {
            &&& !path.contains(#[trigger] nodes[i].mod_id)
            &&& {
                proof {
                    assert(decreases_to!(nodes => nodes[i]));
                }
                loop_free(nodes[i].children, path.push(nodes[i].mod_id))
            }
        }
}

/// How many levels a forest has.
pub open spec fn levels(nodes: Seq<DepNodeView>) -> nat
    decreases nodes,
{
    if nodes.len() == 0 {
        0
    } else {
        let n = nodes.last();
        proof {
            assert(decreases_to!(nodes => nodes[nodes.len() - 1]));
        }
        let a = levels(nodes.drop_last());
        let b = 1 + levels(n.children);
        if a >= b {
            a
        } else {
            b
        }
    }
}

proof fn lemma_forest_append(a: Seq<DepNodeView>, b: Seq<DepNodeView>, path: Seq<Seq<char>>)
    requires
        loop_free(a, path),
        loop_free(b, path),
    ensures
        loop_free(a + b, path),
{
    let c = a + b;
    assert forall|i: int| 0 <= i < c.len() implies !path.contains(#[trigger] c[i].mod_id) && loop_free(
        c[i].children,
        path.push(c[i].mod_id),
    ) by {
        if i < a.len() {
            assert(c[i] == a[i]);
        } else {
            assert(c[i] == b[i - a.len()]);
        }
    }
}

proof fn lemma_levels_append(a: Seq<DepNodeView>, b: Seq<DepNodeView>, d: nat)
    requires
        levels(a) <= d,
        levels(b) <= d,
    ensures
        levels(a + b) <= d,
    decreases b.len(),
{
    if b.len() > 0 {
        lemma_levels_append(a, b.drop_last(), d);
        assert((a + b).drop_last() =~= a + b.drop_last());
        assert((a + b).last() == b.last());
        lemma_levels_last(b);
    } else {
        assert(a + b =~= a);
    }
}

proof fn lemma_levels_last(b: Seq<DepNodeView>)
    requires
        b.len() > 0,
    ensures
        levels(b) >= 1 + levels(b.last().children),
        levels(b) >= levels(b.drop_last()),
{
}

/// A dependency tree is loop free (no mod appears below itself) and at
/// most `depth` levels deep.
pub proof fn lemma_tree_loop_free_and_bounded(
    store: Seq<TrackedMod>,
    id: Seq<char>,
    source: SourceView,
    kind: Option<DependencyKind>,
    depth: nat,
    path: Seq<Seq<char>>,
)
    ensures
        loop_free(tree_spec(store, id, source, kind, depth, path), path),
        levels(tree_spec(store, id, source, kind, depth, path)) <= depth,
    decreases depth, 1int, 0int,
{
    if !(depth == 0 || path.contains(id)) {
        let i = find_index(store, id, source);
        let deps = if i < store.len() {
            store[i].dependencies@
        } else {
            Seq::empty()
        };
        lemma_forest_loop_free_and_bounded(store, deps, (depth - 1) as nat, path.push(id));
        let t = tree_spec(store, id, source, kind, depth, path);
        assert(t.len() == 1);
        assert(t.drop_last() =~= Seq::<DepNodeView>::empty());
        assert(levels(Seq::<DepNodeView>::empty()) == 0);
        assert(levels(t) == 1 + levels(t[0].children));
    }
}

/// The trees of a list of dependencies are loop free and at most `depth`
/// levels deep.
pub proof fn lemma_forest_loop_free_and_bounded(
    store: Seq<TrackedMod>,
    deps: Seq<Dependency>,
    depth: nat,
    path: Seq<Seq<char>>,
)
    ensures
        loop_free(forest_spec(store, deps, depth, path), path),
        levels(forest_spec(store, deps, depth, path)) <= depth,
    decreases depth + 1, 0int, deps.len(),
{
    if deps.len() > 0 {
        let d = deps.last();
        lemma_forest_loop_free_and_bounded(store, deps.drop_last(), depth, path);
        lemma_tree_loop_free_and_bounded(store, slugify_spec(d.mod_id@), d.source@, Some(d.kind), depth, path);
        lemma_forest_append(
            forest_spec(store, deps.drop_last(), depth, path),
            tree_spec(store, slugify_spec(d.mod_id@), d.source@, Some(d.kind), depth, path),
            path,
        );
        lemma_levels_append(
            forest_spec(store, deps.drop_last(), depth, path),
            tree_spec(store, slugify_spec(d.mod_id@), d.source@, Some(d.kind), depth, path),
            depth,
        );
    }
}

/// The rows of a forest: each node at `indent`, followed by the rows of its
/// children one level deeper.
pub open spec fn flatten_spec(nodes: Seq<DepNodeView>, indent: int) -> Seq<DepEntryView>
    decreases nodes,
{
    if nodes.len() == 0 {
        Seq::empty()
    } else {
        let n = nodes.last();
        proof {
            assert(decreases_to!(nodes => nodes[nodes.len() - 1]));
        }
        flatten_spec(nodes.drop_last(), indent).push(
            DepEntryView {
                mod_id: n.mod_id,
                name: n.name,
                version: n.version,
                kind: n.kind,
                installed: n.installed,
                source: n.source,
                indent,
            },
        ) + flatten_spec(n.children, indent + 1)
    }
}

proof fn lemma_levels_index(s: Seq<DepNodeView>, k: int)
    requires
        0 <= k < s.len(),
    ensures
        levels(s) >= 1 + levels(s[k].children),
    decreases s.len(),
{
    lemma_levels_last(s);
    if k < s.len() - 1 {
        lemma_levels_index(s.drop_last(), k);
        assert(s.drop_last()[k] == s[k]);
    }
}

proof fn lemma_nodes_view_len(tree: Seq<DepNode>)
    ensures
        nodes_view(tree).len() == tree.len(),
    decreases tree.len(),
{
    if tree.len() > 0 {
        lemma_nodes_view_len(tree.drop_last());
    }
}

/// The rows of a dependency tree for display: each node at `indent`,
/// followed by the rows of its dependencies one level deeper.
pub fn flatten_dep_tree(tree: &Vec<DepNode>, indent: usize) -> (entries: Vec<DepEntry>)
    requires
        indent + levels(nodes_view(tree@)) <= usize::MAX,
    ensures
        entries@.map_values(|e: DepEntry| entry_view(e)) == flatten_spec(nodes_view(tree@), indent as int),
    decreases tree@,
{
    let ghost nv = nodes_view(tree@);
    proof {
        lemma_nodes_view_len(tree@);
    }
    let mut entries: Vec<DepEntry> = Vec::new();
    let mut i: usize = 0;
    while i < tree.len()
        invariant
            i <= tree.len(),
            nv == nodes_view(tree@),
            nv.len() == tree@.len(),
            indent + levels(nv) <= usize::MAX,
            entries@.map_values(|e: DepEntry| entry_view(e)) == flatten_spec(
                nodes_view(tree@.take(i as int)),
                indent as int,
            ),
        decreases tree.len() - i,
    {
        let node = &tree[i];
        proof {
            lemma_nodes_view_index(tree@, i as int);
            lemma_levels_index(nv, i as int);
            assert(tree@.take(i as int + 1).drop_last() =~= tree@.take(i as int));
            assert(tree@.take(i as int + 1).last() == tree@[i as int]);
            assert(decreases_to!(tree@ => tree@[i as int]));
        }
        let ghost before = entries@;
        entries.push(
            DepEntry {
                mod_id: node.mod_id.clone(),
                name: node.name.clone(),
                version: node.version.clone(),
                kind: node.kind,
                installed: node.installed,
                source: node.source.clone(),
                indent,
            },
        );
        let mut sub = flatten_dep_tree(&node.children, indent + 1);
        let ghost mid = entries@;
        let ghost subv = sub@;
        entries.append(&mut sub);
        proof {
            let n = nv[i as int];
            assert(mid.map_values(|e: DepEntry| entry_view(e)) =~= before.map_values(|e: DepEntry| entry_view(e)).push(
                DepEntryView {
                    mod_id: n.mod_id,
                    name: n.name,
                    version: n.version,
                    kind: n.kind,
                    installed: n.installed,
                    source: n.source,
                    indent: indent as int,
                },
            ));
            assert(entries@ =~= mid + subv);
            assert(entries@.map_values(|e: DepEntry| entry_view(e)) =~= mid.map_values(|e: DepEntry| entry_view(e))
                + subv.map_values(|e: DepEntry| entry_view(e)));
            let t = nodes_view(tree@.take(i as int + 1));
            assert(t.drop_last() == nodes_view(tree@.take(i as int)));
        }
        i += 1;
    }
    assert(tree@.take(tree.len() as int) =~= tree@);
    entries
}

} // verus!

verus! {

/// Whether a recorded dependency points at the mod with the given slug and
/// source.
pub open spec fn points_at(d: Dependency, slug: Seq<char>, source: SourceView) -> bool {
    d.mod_id@ == slug && d.source@ == source
}

/// Whether a mod depends on the mod with the given slug and source.
pub open spec fn depends_on(m: TrackedMod, slug: Seq<char>, source: SourceView) -> bool {
    exists|k: int| 0 <= k < m.dependencies@.len() && points_at(#[trigger] m.dependencies@[k], slug, source)
}

/// The id and name of each mod that depends on the given one, in the
/// store's order.
pub open spec fn reverse_dependents_spec(store: Seq<TrackedMod>, slug: Seq<char>, source: SourceView) -> Seq<(Seq<char>, Seq<char>)>
    decreases store.len(),
{
    if store.len() == 0 {
        Seq::empty()
    } else {
        let m = store.last();
        reverse_dependents_spec(store.drop_last(), slug, source) + if depends_on(m, slug, source) {
            seq![(m.id@, m.name@)]
        } else {
            Seq::empty()
        }
    }
}

fn depends_on_exec(m: &TrackedMod, slug: &str, source: &ModSource) -> (b: bool)
    ensures
        b == depends_on(*m, slug@, source@),
{
    let mut k: usize = 0;
    while k < m.dependencies.len()
        invariant
            k <= m.dependencies@.len(),
            forall|j: int| 0 <= j < k ==> !points_at(#[trigger] m.dependencies@[j], slug@, source@),
        decreases m.dependencies@.len() - k,
    {
        if str_eq(m.dependencies[k].mod_id.as_str(), slug) && m.dependencies[k].source.same_as(source) {
            return true;
        }
        k += 1;
    }
    false
}

/// The mods that depend on the given one, as (id, name) pairs in the
/// store's order.
pub fn find_reverse_dependents(store: &[TrackedMod], target_slug: &str, target_source: &ModSource) -> (r: Vec<(String, String)>)
    ensures
        r@.map_values(|p: (String, String)| (p.0@, p.1@)) == reverse_dependents_spec(store@, target_slug@, target_source@),
{
    let mut r: Vec<(String, String)> = Vec::new();
    let mut i: usize = 0;
    while i < store.len()
        invariant
            i <= store@.len(),
            r@.map_values(|p: (String, String)| (p.0@, p.1@)) == reverse_dependents_spec(
                store@.take(i as int),
                target_slug@,
                target_source@,
            ),
        decreases store@.len() - i,
    {
        let ghost before = r@;
        let ghost t = store@.take(i + 1);
        proof {
            assert(t.drop_last() =~= store@.take(i as int));
            assert(t.last() == store@[i as int]);
        }
        if depends_on_exec(&store[i], target_slug, target_source) {
            r.push((store[i].id.clone(), store[i].name.clone()));
            assert(r@.map_values(|p: (String, String)| (p.0@, p.1@)) =~= before.map_values(
                |p: (String, String)| (p.0@, p.1@),
            ) + seq![(store@[i as int].id@, store@[i as int].name@)]);
        } else {
            assert(reverse_dependents_spec(t, target_slug@, target_source@) =~= reverse_dependents_spec(
                store@.take(i as int),
                target_slug@,
                target_source@,
            ));
        }
        i += 1;
    }
    assert(store@.take(store@.len() as int) =~= store@);
    r
}

/// The dependencies that do not point at the given mod, in order.
pub open spec fn kept_deps(deps: Seq<Dependency>, slug: Seq<char>, source: SourceView) -> Seq<Dependency>
    decreases deps.len(),
{
    if deps.len() == 0 {
        Seq::empty()
    } else {
        kept_deps(deps.drop_last(), slug, source) + if points_at(deps.last(), slug, source) {
            Seq::empty()
        } else {
            seq![deps.last()]
        }
    }
}

proof fn lemma_kept_deps_step(deps: Seq<Dependency>, j: int, slug: Seq<char>, source: SourceView)
    requires
        0 <= j < deps.len(),
    ensures
        kept_deps(deps.take(j + 1), slug, source) == kept_deps(deps.take(j), slug, source) + if points_at(
            deps[j],
            slug,
            source,
        ) {
            Seq::empty()
        } else {
            seq![deps[j]]
        },
{
    assert(deps.take(j + 1).drop_last() =~= deps.take(j));
    assert(deps.take(j + 1).last() == deps[j]);
}

/// Drops a mod's dependencies on the given mod; says whether any went.
fn drop_deps_on(deps: &mut Vec<Dependency>, slug: &str, source: &ModSource) -> (changed: bool)
    ensures
        final(deps)@ == kept_deps(old(deps)@, slug@, source@),
        changed == (final(deps)@.len() != old(deps)@.len()),
{
    let ghost orig = deps@;
    let start_len = deps.len();
    let mut k: usize = 0;
    let ghost mut j: int = 0;
    assert(orig.take(0) =~= Seq::<Dependency>::empty());
    assert(orig.skip(0) =~= orig);
    while k < deps.len()
        invariant
            0 <= j <= orig.len(),
            k <= deps@.len(),
            deps@.subrange(0, k as int) == kept_deps(orig.take(j), slug@, source@),
            deps@.subrange(k as int, deps@.len() as int) == orig.skip(j),
            deps@.len() - k == orig.len() - j,
        decreases deps@.len() - k,
    {
        proof {
            assert(orig.skip(j)[0] == orig[j]);
            assert(deps@[k as int] == deps@.subrange(k as int, deps@.len() as int)[0]);
            lemma_kept_deps_step(orig, j, slug@, source@);
        }
        if str_eq(deps[k].mod_id.as_str(), slug) && deps[k].source.same_as(source) {
            let ghost before = deps@;
            deps.remove(k);
            proof {
                assert(deps@.subrange(0, k as int) =~= before.subrange(0, k as int));
                let tail = before.subrange(k as int, before.len() as int);
                assert(deps@ =~= before.remove(k as int));
                assert forall|t: int| 0 <= t < deps@.len() - k implies #[trigger] deps@.subrange(k as int, deps@.len() as int)[t]
                    == orig.skip(j + 1)[t] by {
                    assert(deps@[k + t] == before[k + t + 1]);
                    assert(tail[t + 1] == before[k + t + 1]);
                    assert(orig.skip(j)[t + 1] == orig[j + t + 1]);
                }
                assert(deps@.subrange(k as int, deps@.len() as int) =~= orig.skip(j + 1));
                j = j + 1;
            }
        } else {
            proof {
                assert(deps@.subrange(0, k + 1) =~= deps@.subrange(0, k as int).push(deps@[k as int]));
                let tail = deps@.subrange(k as int, deps@.len() as int);
                assert forall|t: int| 0 <= t < deps@.len() - k - 1 implies #[trigger] deps@.subrange(k + 1, deps@.len() as int)[t]
                    == orig.skip(j + 1)[t] by {
                    assert(tail[t + 1] == deps@[k + 1 + t]);
                    assert(orig.skip(j)[t + 1] == orig[j + t + 1]);
                }
                assert(deps@.subrange(k + 1, deps@.len() as int) =~= orig.skip(j + 1));
                j = j + 1;
            }
            k += 1;
        }
    }
    proof {
        assert(orig.skip(j).len() == 0);
        assert(j == orig.len());
        assert(orig.take(j) =~= orig);
        assert(deps@.subrange(0, k as int) =~= deps@);
        lemma_kept_len(orig, slug@, source@);
    }
    deps.len() != start_len
}

proof fn lemma_kept_len(deps: Seq<Dependency>, slug: Seq<char>, source: SourceView)
    ensures
        kept_deps(deps, slug, source).len() <= deps.len(),
        kept_deps(deps, slug, source).len() == deps.len() ==> kept_deps(deps, slug, source) == deps,
    decreases deps.len(),
{
    if deps.len() > 0 {
        lemma_kept_len(deps.drop_last(), slug, source);
        if kept_deps(deps, slug, source).len() == deps.len() {
            assert(deps =~= deps.drop_last().push(deps.last()));
        }
    }
}

/// After a mod is removed: every other record drops its dependencies on
/// it. Returns the positions of the records that changed, to be saved.
pub fn cleanup_stale_deps_after_remove(store: &mut Vec<TrackedMod>, removed_slug: &str, removed_source: &ModSource) -> (changed: Vec<usize>)
    ensures
        final(store)@.len() == old(store)@.len(),
        forall|i: int| 0 <= i < old(store)@.len() ==> #[trigger] final(store)@[i] == (TrackedMod {
            dependencies: final(store)@[i].dependencies,
            ..old(store)@[i]
        }),
        forall|i: int| 0 <= i < old(store)@.len() ==> (#[trigger] final(store)@[i]).dependencies@ == kept_deps(
            old(store)@[i].dependencies@,
            removed_slug@,
            removed_source@,
        ),
        forall|k: int| 0 <= k < changed@.len() ==> (#[trigger] changed@[k]) < old(store)@.len(),
        forall|i: int| 0 <= i < old(store)@.len() ==> (changed@.contains(i as usize) <==> final(store)@[i].dependencies@
            != old(store)@[i].dependencies@),
{
    let mut changed: Vec<usize> = Vec::new();
    let mut i: usize = 0;
    while i < store.len()
        invariant
            i <= store@.len(),
            store@.len() == old(store)@.len(),
            forall|t: int| 0 <= t < store@.len() ==> #[trigger] store@[t] == (TrackedMod {
                dependencies: store@[t].dependencies,
                ..old(store)@[t]
            }),
            forall|t: int| 0 <= t < i ==> (#[trigger] store@[t]).dependencies@ == kept_deps(
                old(store)@[t].dependencies@,
                removed_slug@,
                removed_source@,
            ),
            forall|t: int| i <= t < store@.len() ==> #[trigger] store@[t] == old(store)@[t],
            forall|k: int| 0 <= k < changed@.len() ==> (#[trigger] changed@[k]) < i,
            forall|t: int| 0 <= t < i ==> (changed@.contains(t as usize) <==> (#[trigger] store@[t]).dependencies@
                != old(store)@[t].dependencies@),
        decreases store@.len() - i,
    {
        let ghost before_changed = changed@;
        let ghost before_store = store@;
        let c = drop_deps_on(&mut store[i].dependencies, removed_slug, removed_source);
        proof {
            lemma_kept_len(old(store)@[i as int].dependencies@, removed_slug@, removed_source@);
        }
        if c {
            changed.push(i);
        }
        proof {
            assert forall|t: int| 0 <= t < i + 1 implies (changed@.contains(t as usize) <==> (#[trigger] store@[t]).dependencies@
                != old(store)@[t].dependencies@) by {
                if t < i {
                    assert(store@[t] == before_store[t]);
                    if changed@.contains(t as usize) && !before_changed.contains(t as usize) {
                        assert(changed@.last() == i);
                    }
                    if before_changed.contains(t as usize) {
                        let k = choose|k: int| 0 <= k < before_changed.len() && before_changed[k] == t as usize;
                        assert(changed@[k] == t as usize);
                    }
                } else {
                    if c {
                        assert(changed@[changed@.len() - 1] == i);
                    } else {
                        if changed@.contains(i) {
                            let k = choose|k: int| 0 <= k < changed@.len() && changed@[k] == i;
                        }
                    }
                }
            }
        }
        i += 1;
    }
    changed
}

} // verus!
