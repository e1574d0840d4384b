//! The virtual file tree of a launch directory: which virtual paths are
//! directories and which are links to real files. It is built in memory and
//! then realized on disk as directories and symlinks.
use vstd::prelude::*;
use crate::paths::{components, components_eq, components_start_with, join_paths, path_components, path_join};
use crate::text::{chars_of, copy_chars, string_of, views};

verus! {

/// A node of the tree: a directory, or a file that links to `source`.
pub enum VfsEntry {
    Dir,
    File { source: String },
}

/// A node by content: `None` for a directory, the source path for a file.
pub open spec fn node_view(e: VfsEntry) -> Option<Seq<char>> {
    match e {
        VfsEntry::Dir => None,
        VfsEntry::File { source } => Some(source@),
    }
}

/// A virtual tree. The root is always a directory; every other node is
/// stored under its path's components.
pub struct VfsTree {
    entries: Vec<(Vec<Vec<char>>, VfsEntry)>,
}

/// A stored node by content.
pub open spec fn entry_view(e: (Vec<Vec<char>>, VfsEntry)) -> (Seq<Seq<char>>, Option<Seq<char>>) {
    (views(e.0@), node_view(e.1))
}

/// The stored nodes by content, in order.
pub open spec fn entry_views(es: Seq<(Vec<Vec<char>>, VfsEntry)>) -> Seq<(Seq<Seq<char>>, Option<Seq<char>>)> {
    es.map_values(|e: (Vec<Vec<char>>, VfsEntry)| entry_view(e))
}

/// The tree described by a list of nodes: a later node under the same path
/// replaces an earlier one.
pub open spec fn entries_map(es: Seq<(Seq<Seq<char>>, Option<Seq<char>>)>) -> Map<Seq<Seq<char>>, Option<Seq<char>>>
    decreases es.len(),
{
    if es.len() == 0 {
        Map::empty()
    } else {
        entries_map(es.drop_last()).insert(es.last().0, es.last().1)
    }
}

impl View for VfsTree {
    type V = Map<Seq<Seq<char>>, Option<Seq<char>>>;

    closed spec fn view(&self) -> Self::V {
        entries_map(entry_views(self.entries@))
    }
}

/// Walks the first `end` components of `c` from position `i`: each missing
/// directory on the way is created; a file on the way stops the walk. The
/// flag says whether the walk got through.
pub open spec fn descend(
    m: Map<Seq<Seq<char>>, Option<Seq<char>>>,
    c: Seq<Seq<char>>,
    i: int,
    end: int,
) -> (Map<Seq<Seq<char>>, Option<Seq<char>>>, bool)
    decreases end - i,
{
    if i >= end {
        (m, true)
    } else {
        let k = c.take(i + 1);
        if m.contains_key(k) {
            if m[k] is Some {
                (m, false)
            } else {
                descend(m, c, i + 1, end)
            }
        } else {
            descend(m.insert(k, None), c, i + 1, end)
        }
    }
}

/// The paths at or below `c`.
pub open spec fn under(c: Seq<Seq<char>>) -> Set<Seq<Seq<char>>> {
    Set::new(|k: Seq<Seq<char>>| components_start_with(k, c))
}

/// The tree after adding a directory at `c` (with its missing parents).
pub open spec fn add_dir_spec(m: Map<Seq<Seq<char>>, Option<Seq<char>>>, c: Seq<Seq<char>>) -> Map<
    Seq<Seq<char>>,
    Option<Seq<char>>,
> {
    descend(m, c, 0, c.len() as int).0
}

/// The tree after adding a file at `c` linking to `src`: the missing parents
/// are created; when a file is in the way nothing more happens; otherwise
/// whatever was at `c` (with everything below it) is replaced by the file.
pub open spec fn add_file_spec(
    m: Map<Seq<Seq<char>>, Option<Seq<char>>>,
    c: Seq<Seq<char>>,
    src: Seq<char>,
) -> Map<Seq<Seq<char>>, Option<Seq<char>>> {
    if c.len() == 0 {
        m
    } else {
        let (m1, ok) = descend(m, c, 0, c.len() - 1);
        if ok {
            m1.remove_keys(under(c)).insert(c, Some(src))
        } else {
            m1
        }
    }
}

/// What is at `c`: the root is a directory, other paths are looked up.
pub open spec fn lookup_spec(m: Map<Seq<Seq<char>>, Option<Seq<char>>>, c: Seq<Seq<char>>) -> Option<Option<Seq<char>>> {
    if c.len() == 0 {
        Some(None)
    } else {
        m.get(c)
    }
}

/// A file or directory found in a real directory that is mirrored into the
/// tree: its path relative to that directory, its real path, and its kind.
pub struct SourceEntry {
    pub relative: String,
    pub source: String,
    pub is_dir: bool,
}

/// The tree after mirroring a listing under the virtual path `v`, entry by
/// entry in the listing's order.
pub open spec fn apply_listing(m: Map<Seq<Seq<char>>, Option<Seq<char>>>, v: Seq<char>, ls: Seq<SourceEntry>) -> Map<
    Seq<Seq<char>>,
    Option<Seq<char>>,
>
    decreases ls.len(),
{
    if ls.len() == 0 {
        m
    } else {
        let m1 = apply_listing(m, v, ls.drop_last());
        let e = ls.last();
        let p = path_components(path_join(v, e.relative@));
        if e.is_dir {
            add_dir_spec(m1, p)
        } else {
            add_file_spec(m1, p, e.source@)
        }
    }
}

proof fn lemma_map_last(es: Seq<(Seq<Seq<char>>, Option<Seq<char>>)>, k: Seq<Seq<char>>, i: int)
    requires
        0 <= i < es.len(),
        es[i].0 == k,
        forall|j: int| i < j < es.len() ==> (#[trigger] es[j]).0 != k,
    ensures
        entries_map(es).contains_key(k),
        entries_map(es)[k] == es[i].1,
    decreases es.len(),
{
    if i < es.len() - 1 {
        let g = es.drop_last();
        assert forall|j: int| i < j < g.len() implies (#[trigger] g[j]).0 != k by {
            assert(g[j] == es[j]);
        }
        lemma_map_last(g, k, i);
    }
}

proof fn lemma_map_absent(es: Seq<(Seq<Seq<char>>, Option<Seq<char>>)>, k: Seq<Seq<char>>)
    requires
        forall|j: int| 0 <= j < es.len() ==> (#[trigger] es[j]).0 != k,
    ensures
        !entries_map(es).contains_key(k),
    decreases es.len(),
{
    if es.len() > 0 {
        let g = es.drop_last();
        assert forall|j: int| 0 <= j < g.len() implies (#[trigger] g[j]).0 != k by {
            assert(g[j] == es[j]);
        }
        lemma_map_absent(g, k);
    }
}

proof fn lemma_map_dom(es: Seq<(Seq<Seq<char>>, Option<Seq<char>>)>, k: Seq<Seq<char>>)
    requires
        entries_map(es).contains_key(k),
    ensures
        exists|j: int| 0 <= j < es.len() && (#[trigger] es[j]).0 == k,
    decreases es.len(),
{
    if es.len() > 0 && es.last().0 != k {
        let g = es.drop_last();
        lemma_map_dom(g, k);
        let j = choose|j: int| 0 <= j < g.len() && (#[trigger] g[j]).0 == k;
        assert(es[j] == g[j]);
    }
}

/// `es` without the nodes at or below `c`.
pub open spec fn filter_out(es: Seq<(Seq<Seq<char>>, Option<Seq<char>>)>, c: Seq<Seq<char>>) -> Seq<
    (Seq<Seq<char>>, Option<Seq<char>>),
>
    decreases es.len(),
{
    if es.len() == 0 {
        Seq::empty()
    } else {
        let prev = filter_out(es.drop_last(), c);
        if components_start_with(es.last().0, c) {
            prev
        } else {
            prev.push(es.last())
        }
    }
}

proof fn lemma_filter_map(es: Seq<(Seq<Seq<char>>, Option<Seq<char>>)>, c: Seq<Seq<char>>)
    ensures
        entries_map(filter_out(es, c)) == entries_map(es).remove_keys(under(c)),
    decreases es.len(),
{
    if es.len() == 0 {
        assert(entries_map(es).remove_keys(under(c)) =~= Map::empty());
    } else {
        let g = es.drop_last();
        lemma_filter_map(g, c);
        let e = es.last();
        let fg = filter_out(g, c);
        if components_start_with(e.0, c) {
            assert(filter_out(es, c) == fg);
            assert(under(c).contains(e.0));
            assert(entries_map(es).remove_keys(under(c)) =~= entries_map(g).remove_keys(under(c)));
        } else {
            assert(!under(c).contains(e.0));
            assert(filter_out(es, c) == fg.push(e));
            assert(fg.push(e).drop_last() =~= fg);
            assert(entries_map(filter_out(es, c)) == entries_map(fg).insert(e.0, e.1));
            assert(entries_map(es).remove_keys(under(c)) =~= entries_map(g).remove_keys(under(c)).insert(
                e.0,
                e.1,
            ));
        }
    }
}

fn clone_entry(e: &(Vec<Vec<char>>, VfsEntry)) -> (r: (Vec<Vec<char>>, VfsEntry))
    ensures
        entry_view(r) == entry_view(*e),
{
    let key = clone_components(&e.0, e.0.len());
    let node = match &e.1 {
        VfsEntry::Dir => VfsEntry::Dir,
        VfsEntry::File { source } => VfsEntry::File { source: source.clone() },
    };
    assert(views(e.0@).take(e.0@.len() as int) == views(e.0@));
    (key, node)
}

/// The first `n` components, copied.
fn clone_components(c: &Vec<Vec<char>>, n: usize) -> (r: Vec<Vec<char>>)
    requires
        n <= c.len(),
    ensures
        views(r@) == views(c@).take(n as int),
{
    let mut r: Vec<Vec<char>> = Vec::new();
    let mut i: usize = 0;
    while i < n
        invariant
            i <= n <= c.len(),
            views(r@) == views(c@).take(i as int),
        decreases n - i,
    {
        let ghost o = r@;
        r.push(copy_chars(&c[i]));
        assert(views(r@) =~= views(o).push(c@[i as int]@));
        assert(views(c@).take(i as int + 1) =~= views(c@).take(i as int).push(c@[i as int]@));
        i += 1;
    }
    r
}

impl VfsTree {
    /// An empty tree: just the root directory.
    pub fn new() -> (t: Self)
        ensures
            t@ == Map::<Seq<Seq<char>>, Option<Seq<char>>>::empty(),
    {
        VfsTree { entries: Vec::new() }
    }

    /// The root node, always a directory.
    pub fn root(&self) -> (r: VfsEntry)
        ensures
            r is Dir,
    {
        VfsEntry::Dir
    }

    /// The position of the last stored node under `key`.
    fn find_last(&self, key: &Vec<Vec<char>>) -> (r: Option<usize>)
        ensures
            match r {
                Some(i) => i < self.entries@.len() && entry_views(self.entries@)[i as int].0 == views(key@)
                    && forall|j: int|
                    i < j < self.entries@.len() ==> (#[trigger] entry_views(self.entries@)[j]).0 != views(
                        key@,
                    ),
                None => forall|j: int|
                    0 <= j < self.entries@.len() ==> (#[trigger] entry_views(self.entries@)[j]).0 != views(
                        key@,
                    ),
            },
    {
        let ghost ev = entry_views(self.entries@);
        let mut i: usize = self.entries.len();
        while i > 0
            invariant
                i <= self.entries@.len(),
                ev == entry_views(self.entries@),
                forall|j: int| i <= j < self.entries@.len() ==> (#[trigger] ev[j]).0 != views(key@),
            decreases i,
        {
            assert(ev[i - 1] == entry_view(self.entries@[i - 1]));
            if components_eq(&self.entries[i - 1].0, key) {
                return Some(i - 1);
            }
            i -= 1;
        }
        None
    }

    /// Creates the missing directories among the first `end` prefixes of
    /// `c`, stopping at a file; says whether it got through.
    fn ensure_dirs(&mut self, c: &Vec<Vec<char>>, end: usize) -> (ok: bool)
        requires
            end <= c@.len(),
        ensures
            (final(self)@, ok) == descend(old(self)@, views(c@), 0, end as int),
    {
        let ghost cv = views(c@);
        let mut i: usize = 0;
        while i < end
            invariant
                i <= end <= c@.len(),
                cv == views(c@),
                descend(old(self)@, cv, 0, end as int) == descend(self@, cv, i as int, end as int),
            decreases end - i,
        {
            let prefix = clone_components(c, i + 1);
            let ghost ev = entry_views(self.entries@);
            match self.find_last(&prefix) {
                Some(j) => {
                    proof {
                        lemma_map_last(ev, cv.take(i as int + 1), j as int);
                        assert(ev[j as int] == entry_view(self.entries@[j as int]));
                    }
                    match &self.entries[j].1 {
                        VfsEntry::File { .. } => {
                            return false;
                        },
                        VfsEntry::Dir => {},
                    }
                },
                None => {
                    proof {
                        lemma_map_absent(ev, cv.take(i as int + 1));
                    }
                    let ghost before = self.entries@;
                    self.entries.push((prefix, VfsEntry::Dir));
                    assert(entry_views(self.entries@).drop_last() =~= entry_views(before));
                },
            }
            i += 1;
        }
        true
    }

    /// Adds a directory at `virtual_path`, creating its missing parents;
    /// a file on the way stops the walk there.
    pub fn add_dir(&mut self, virtual_path: &str)
        ensures
            final(self)@ == add_dir_spec(old(self)@, path_components(virtual_path@)),
    {
        let c = components(&chars_of(virtual_path));
        self.ensure_dirs(&c, c.len());
    }

    /// Adds a file at `virtual_path` linking to `source`, creating its
    /// missing parents. What was at that path before (with everything below
    /// it) is replaced; a file among the parents leaves the file out.
    pub fn add_file(&mut self, virtual_path: &str, source: &str)
        ensures
            final(self)@ == add_file_spec(old(self)@, path_components(virtual_path@), source@),
    {
        let c = components(&chars_of(virtual_path));
        if c.len() == 0 {
            return;
        }
        let ok = self.ensure_dirs(&c, c.len() - 1);
        if !ok {
            return;
        }
        let ghost cv = views(c@);
        let ghost ev = entry_views(self.entries@);
        let mut kept: Vec<(Vec<Vec<char>>, VfsEntry)> = Vec::new();
        let mut i: usize = 0;
        while i < self.entries.len()
            invariant
                i <= self.entries@.len(),
                cv == views(c@),
                ev == entry_views(self.entries@),
                entry_views(kept@) == filter_out(ev.take(i as int), cv),
            decreases self.entries@.len() - i,
        {
            let e = &self.entries[i];
            assert(ev[i as int] == entry_view(self.entries@[i as int]));
            assert(ev.take(i as int + 1).drop_last() == ev.take(i as int));
            if !crate::paths::components_prefix(&e.0, &c) {
                let ghost before = kept@;
                kept.push(clone_entry(e));
                assert(entry_views(kept@) =~= entry_views(before).push(ev[i as int]));
            }
            i += 1;
        }
        assert(ev.take(self.entries@.len() as int) == ev);
        proof {
            lemma_filter_map(ev, cv);
        }
        let ghost before = kept@;
        kept.push((c, VfsEntry::File { source: String::from_str(source) }));
        assert(entry_views(kept@).drop_last() =~= entry_views(before));
        self.entries = kept;
    }

    /// What is at `virtual_path`, if anything.
    pub fn entry(&self, virtual_path: &str) -> (r: Option<VfsEntry>)
        ensures
            match r {
                Some(e) => lookup_spec(self@, path_components(virtual_path@)) == Some(node_view(e)),
                None => lookup_spec(self@, path_components(virtual_path@)) is None,
            },
    {
        let c = components(&chars_of(virtual_path));
        if c.len() == 0 {
            return Some(VfsEntry::Dir);
        }
        let ghost ev = entry_views(self.entries@);
        match self.find_last(&c) {
            Some(j) => {
                proof {
                    lemma_map_last(ev, views(c@), j as int);
                    assert(ev[j as int] == entry_view(self.entries@[j as int]));
                }
                let e = clone_entry(&self.entries[j]);
                Some(e.1)
            },
            None => {
                proof {
                    lemma_map_absent(ev, views(c@));
                }
                None
            },
        }
    }

    /// The names of the nodes directly inside `virtual_path`.
    pub fn child_names(&self, virtual_path: &str) -> (names: Vec<String>)
        ensures
            forall|i: int|
                0 <= i < names@.len() ==> is_child_name(self@, path_components(virtual_path@), #[trigger] names@[i]@),
            forall|k: Seq<Seq<char>>|
                #[trigger] is_child_key(self@, path_components(virtual_path@), k) ==> exists|i: int|
                    0 <= i < names@.len() && (#[trigger] names@[i])@ == k.last(),
    {
        let c = components(&chars_of(virtual_path));
        let ghost cv = views(c@);
        let ghost ev = entry_views(self.entries@);
        let ghost m = self@;
        let mut names: Vec<String> = Vec::new();
        let mut i: usize = 0;
        while i < self.entries.len()
            invariant
                i <= self.entries@.len(),
                cv == views(c@),
                ev == entry_views(self.entries@),
                m == entries_map(ev),
                forall|q: int| 0 <= q < names@.len() ==> is_child_name(m, cv, #[trigger] names@[q]@),
                forall|j: int|
                    0 <= j < i && is_child_key(m, cv, (#[trigger] ev[j]).0) ==> exists|q: int|
                        0 <= q < names@.len() && (#[trigger] names@[q])@ == ev[j].0.last(),
            decreases self.entries@.len() - i,
        {
            let e = &self.entries[i];
            assert(ev[i as int] == entry_view(self.entries@[i as int]));
            let ghost before = names@;
            if e.0.len() > 0 && e.0.len() - 1 == c.len() && crate::paths::components_prefix(&e.0, &c) {
                let last = &e.0[e.0.len() - 1];
                names.push(string_of(last));
                proof {
                    let k = ev[i as int].0;
                    assert(k.last() == e.0@[e.0.len() - 1]@);
                    lemma_contains_of_index(ev, k, i as int);
                    assert(is_child_key(m, cv, k));
                    assert(is_child_name(m, cv, names@[before.len() as int]@));
                    assert forall|q: int| 0 <= q < names@.len() implies is_child_name(m, cv, #[trigger] names@[q]@) by {
                        if q < before.len() {
                            assert(names@[q] == before[q]);
                        }
                    }
                    assert forall|j: int|
                        0 <= j < i + 1 && is_child_key(m, cv, (#[trigger] ev[j]).0) implies exists|q: int|
                            0 <= q < names@.len() && (#[trigger] names@[q])@ == ev[j].0.last() by {
                        if j < i {
                            let q = choose|q: int| 0 <= q < before.len() && (#[trigger] before[q])@ == ev[j].0.last();
                            assert(names@[q] == before[q]);
                        } else {
                            assert(names@[before.len() as int]@ == ev[j].0.last());
                        }
                    }
                }
            } else {
                proof {
                    assert forall|j: int|
                        0 <= j < i + 1 && is_child_key(m, cv, (#[trigger] ev[j]).0) implies exists|q: int|
                            0 <= q < names@.len() && (#[trigger] names@[q])@ == ev[j].0.last() by {
                        if j == i {
                            assert(views(e.0@) == ev[j].0);
                            assert(false);
                        }
                    }
                }
            }
            i += 1;
        }
        proof {
            assert forall|k: Seq<Seq<char>>| #[trigger] is_child_key(m, cv, k) implies exists|q: int|
                0 <= q < names@.len() && (#[trigger] names@[q])@ == k.last() by {
                lemma_map_dom(ev, k);
                let j = choose|j: int| 0 <= j < ev.len() && (#[trigger] ev[j]).0 == k;
                assert(is_child_key(m, cv, ev[j].0));
            }
        }
        names
    }

    /// Mirrors a real directory into the tree at `virtual_path`: nothing
    /// happens when the directory does not exist; otherwise the directory is
    /// added and each entry of its listing (directories before what they
    /// hold) is added as a directory or as a file linking to its real path.
    pub fn add_dir_from_source(&mut self, virtual_path: &str, source_exists: bool, listing: &[SourceEntry])
        ensures
            !source_exists ==> final(self)@ == old(self)@,
            source_exists ==> final(self)@ == apply_listing(
                add_dir_spec(old(self)@, path_components(virtual_path@)),
                virtual_path@,
                listing@,
            ),
    {
        if !source_exists {
            return;
        }
        self.add_dir(virtual_path);
        let ghost start = self@;
        let mut i: usize = 0;
        while i < listing.len()
            invariant
                i <= listing@.len(),
                self@ == apply_listing(start, virtual_path@, listing@.take(i as int)),
            decreases listing@.len() - i,
        {
            let e = &listing[i];
            let p = join_paths(virtual_path, e.relative.as_str());
            assert(listing@.take(i as int + 1).drop_last() == listing@.take(i as int));
            if e.is_dir {
                self.add_dir(p.as_str());
            } else {
                self.add_file(p.as_str(), e.source.as_str());
            }
            i += 1;
        }
        assert(listing@.take(listing@.len() as int) == listing@);
    }
}

proof fn lemma_contains_of_index(es: Seq<(Seq<Seq<char>>, Option<Seq<char>>)>, k: Seq<Seq<char>>, i: int)
    requires
        0 <= i < es.len(),
        es[i].0 == k,
    ensures
        entries_map(es).contains_key(k),
    decreases es.len(),
{
    if i < es.len() - 1 && es.last().0 != k {
        let g = es.drop_last();
        assert(g[i] == es[i]);
        lemma_contains_of_index(g, k, i);
    }
}

/// `k` is the path of a node directly inside `c`.
pub open spec fn is_child_key(m: Map<Seq<Seq<char>>, Option<Seq<char>>>, c: Seq<Seq<char>>, k: Seq<Seq<char>>) -> bool {
    m.contains_key(k) && k.len() == c.len() + 1 && components_start_with(k, c)
}

/// `n` is the name of a node directly inside `c`.
pub open spec fn is_child_name(m: Map<Seq<Seq<char>>, Option<Seq<char>>>, c: Seq<Seq<char>>, n: Seq<char>) -> bool {
    exists|k: Seq<Seq<char>>| #[trigger] is_child_key(m, c, k) && k.last() == n
}

/// No file stands at any of the first `end` prefixes of `c`.
pub open spec fn no_file_on_way(m: Map<Seq<Seq<char>>, Option<Seq<char>>>, c: Seq<Seq<char>>, end: int) -> bool {
    forall|j: int| 0 <= j < end ==> !(m.contains_key(#[trigger] c.take(j + 1)) && m[c.take(j + 1)] is Some)
}

proof fn lemma_descend_clear(m: Map<Seq<Seq<char>>, Option<Seq<char>>>, c: Seq<Seq<char>>, i: int, end: int)
    requires
        0 <= i <= end <= c.len(),
        no_file_on_way(m, c, end),
        forall|j: int| 0 <= j < i ==> m.contains_key(#[trigger] c.take(j + 1)) && m[c.take(j + 1)] is None,
    ensures
        descend(m, c, i, end).1,
        forall|j: int|
            0 <= j < end ==> descend(m, c, i, end).0.contains_key(#[trigger] c.take(j + 1))
                && descend(m, c, i, end).0[c.take(j + 1)] is None,
        forall|k: Seq<Seq<char>>|
            !(exists|j: int| 0 <= j < end && k == #[trigger] c.take(j + 1)) ==> descend(m, c, i, end).0.get(k)
                == m.get(k),
    decreases end - i,
{
    if i < end {
        let k = c.take(i + 1);
        let m2 = if m.contains_key(k) {
            m
        } else {
            m.insert(k, None)
        };
        assert(m2.contains_key(k) && m2[k] is None) by {
            if m.contains_key(k) {
                assert(!(m.contains_key(c.take(i + 1)) && m[c.take(i + 1)] is Some));
            }
        }
        assert forall|j: int| 0 <= j < end implies !(m2.contains_key(#[trigger] c.take(j + 1)) && m2[c.take(
            j + 1,
        )] is Some) by {
            assert(!(m.contains_key(c.take(j + 1)) && m[c.take(j + 1)] is Some));
        }
        assert forall|j: int| 0 <= j < i + 1 implies m2.contains_key(#[trigger] c.take(j + 1)) && m2[c.take(
            j + 1,
        )] is None by {
            if j < i {
                assert(m.contains_key(c.take(j + 1)));
            }
        }
        lemma_descend_clear(m2, c, i + 1, end);
        assert forall|k2: Seq<Seq<char>>|
            !(exists|j: int| 0 <= j < end && k2 == #[trigger] c.take(j + 1)) implies descend(m, c, i, end).0.get(k2)
                == m.get(k2) by {
            assert(k2 != c.take(i + 1));
            assert(m2.get(k2) == m.get(k2));
        }
    }
}

/// Adding a file at a path with no file among its parents puts the file
/// there.
pub proof fn lemma_add_file_sets(m: Map<Seq<Seq<char>>, Option<Seq<char>>>, c: Seq<Seq<char>>, src: Seq<char>)
    requires
        c.len() > 0,
        no_file_on_way(m, c, c.len() - 1),
    ensures
        add_file_spec(m, c, src).contains_key(c),
        add_file_spec(m, c, src)[c] == Some(src),
        no_file_on_way(add_file_spec(m, c, src), c, c.len() - 1),
{
    lemma_descend_clear(m, c, 0, c.len() - 1);
    let m1 = descend(m, c, 0, c.len() - 1).0;
    let r = add_file_spec(m, c, src);
    assert forall|j: int| 0 <= j < c.len() - 1 implies !(r.contains_key(#[trigger] c.take(j + 1)) && r[c.take(
        j + 1,
    )] is Some) by {
        assert(c.take(j + 1).len() < c.len());
        assert(!components_start_with(c.take(j + 1), c));
        assert(!under(c).contains(c.take(j + 1)));
        assert(c.take(j + 1) != c);
        assert(m1.contains_key(c.take(j + 1)) && m1[c.take(j + 1)] is None);
    }
}

/// The last file added at a path is the one found there: adding a file and
/// then another at the same path leaves the second.
pub proof fn lemma_add_file_last_wins(
    m: Map<Seq<Seq<char>>, Option<Seq<char>>>,
    c: Seq<Seq<char>>,
    first: Seq<char>,
    second: Seq<char>,
)
    requires
        c.len() > 0,
        no_file_on_way(m, c, c.len() - 1),
    ensures
        add_file_spec(add_file_spec(m, c, first), c, second).contains_key(c),
        add_file_spec(add_file_spec(m, c, first), c, second)[c] == Some(second),
{
    lemma_add_file_sets(m, c, first);
    lemma_add_file_sets(add_file_spec(m, c, first), c, second);
}

/// Adding a directory at a path with no file on the way leaves a directory
/// at that path and at each of its parents, keeps every node that was there
/// before as it was, and adding the same directory again changes nothing.
pub proof fn lemma_add_dir_creates(m: Map<Seq<Seq<char>>, Option<Seq<char>>>, c: Seq<Seq<char>>)
    requires
        no_file_on_way(m, c, c.len() as int),
    ensures
        forall|j: int|
            0 <= j < c.len() ==> add_dir_spec(m, c).contains_key(#[trigger] c.take(j + 1)) && add_dir_spec(
                m,
                c,
            )[c.take(j + 1)] is None,
        forall|k: Seq<Seq<char>>| #[trigger] m.contains_key(k) ==> add_dir_spec(m, c).contains_key(k)
            && add_dir_spec(m, c)[k] == m[k],
        add_dir_spec(add_dir_spec(m, c), c) == add_dir_spec(m, c),
{
    let n = c.len() as int;
    lemma_descend_clear(m, c, 0, n);
    let m1 = add_dir_spec(m, c);
    assert forall|k: Seq<Seq<char>>| #[trigger] m.contains_key(k) implies m1.contains_key(k) && m1[k] == m[k] by {
        if exists|j: int| 0 <= j < n && k == #[trigger] c.take(j + 1) {
            let j = choose|j: int| 0 <= j < n && k == #[trigger] c.take(j + 1);
            assert(!(m.contains_key(c.take(j + 1)) && m[c.take(j + 1)] is Some));
        } else {
            assert(m1.get(k) == m.get(k));
        }
    }
    assert(no_file_on_way(m1, c, n));
    lemma_descend_clear(m1, c, 0, n);
    let m2 = add_dir_spec(m1, c);
    assert forall|k: Seq<Seq<char>>| #[trigger] m2.get(k) == m1.get(k) by {
        if exists|j: int| 0 <= j < n && k == #[trigger] c.take(j + 1) {
            let j = choose|j: int| 0 <= j < n && k == #[trigger] c.take(j + 1);
            assert(m2.contains_key(c.take(j + 1)) && m1.contains_key(c.take(j + 1)));
        }
    }
    assert(m2 =~= m1) by {
        assert forall|k: Seq<Seq<char>>| m2.dom().contains(k) <==> m1.dom().contains(k) by {
            assert(m2.get(k) == m1.get(k));
        }
        assert forall|k: Seq<Seq<char>>| #[trigger] m2.dom().contains(k) implies m2[k] == m1[k] by {
            assert(m2.get(k) == m1.get(k));
        }
    }
}

/// Two files added one after the other at the same path, with no file among
/// its parents, leave the tree that adding the second alone gives.
pub proof fn lemma_add_file_overwrites(
    m: Map<Seq<Seq<char>>, Option<Seq<char>>>,
    c: Seq<Seq<char>>,
    first: Seq<char>,
    second: Seq<char>,
)
    requires
        c.len() > 0,
        no_file_on_way(m, c, c.len() - 1),
    ensures
        add_file_spec(add_file_spec(m, c, first), c, second) == add_file_spec(m, c, second),
{
    let e = c.len() - 1;
    lemma_descend_clear(m, c, 0, e);
    let m1 = descend(m, c, 0, e).0;
    let a = m1.remove_keys(under(c)).insert(c, Some(first));
    assert(add_file_spec(m, c, first) == a);
    lemma_add_file_sets(m, c, first);
    assert forall|j: int| 0 <= j < e implies a.contains_key(#[trigger] c.take(j + 1)) && a[c.take(j + 1)] is None by {
        assert(c.take(j + 1).len() < c.len());
        assert(!components_start_with(c.take(j + 1), c));
        assert(!under(c).contains(c.take(j + 1)));
        assert(c.take(j + 1) != c);
        assert(m1.contains_key(c.take(j + 1)) && m1[c.take(j + 1)] is None);
    }
    lemma_descend_clear(a, c, 0, e);
    let a1 = descend(a, c, 0, e).0;
    assert forall|k: Seq<Seq<char>>| #[trigger] a1.get(k) == a.get(k) by {
        if exists|j: int| 0 <= j < e && k == #[trigger] c.take(j + 1) {
            let j = choose|j: int| 0 <= j < e && k == #[trigger] c.take(j + 1);
            assert(a1.contains_key(c.take(j + 1)) && a.contains_key(c.take(j + 1)));
        }
    }
    assert(a1 =~= a) by {
        assert forall|k: Seq<Seq<char>>| a1.dom().contains(k) <==> a.dom().contains(k) by {
            assert(a1.get(k) == a.get(k));
        }
        assert forall|k: Seq<Seq<char>>| #[trigger] a1.dom().contains(k) implies a1[k] == a[k] by {
            assert(a1.get(k) == a.get(k));
        }
    }
    assert(under(c).contains(c)) by {
        assert(c.take(c.len() as int) =~= c);
    }
    assert(a.remove_keys(under(c)).insert(c, Some(second)) =~= m1.remove_keys(under(c)).insert(c, Some(second)));
}

} // verus!
