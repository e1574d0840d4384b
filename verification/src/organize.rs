//! `organize`: which config files the game wrote are orphans to be sorted
//! into mod directories, and the list of files the user chose to ignore.
use vstd::prelude::*;
use crate::errors::YammmError;
use crate::output::views_of_strings;
use crate::paths::{join_paths, path_join};
use crate::text::{chars_of, ends_with, has_prefix, has_suffix, split_chars, split_on, starts_with, str_eq, string_of, views};

verus! {

/// The side whose config directory is organized.
#[derive(Clone, Copy, Debug, PartialEq, Eq, Structural)]
pub enum Side {
    Client,
    Server,
}

impl Side {
    /// The side's name.
    pub fn as_str(self) -> (s: &'static str)
        ensures
            s@ == (match self {
                Side::Client => "client"@,
                Side::Server => "server"@,
            }),
    {
        match self {
            Side::Client => "client",
            Side::Server => "server",
        }
    }
}

/// The config files the user chose to ignore, per side: file names,
/// relative paths, or patterns with one `*`.
pub struct IgnoredConfigs {
    pub client: Vec<String>,
    pub server: Vec<String>,
}

impl IgnoredConfigs {
    /// Nothing ignored yet.
    pub fn new() -> (c: Self)
        ensures
            c.client@.len() == 0,
            c.server@.len() == 0,
    {
        IgnoredConfigs { client: Vec::new(), server: Vec::new() }
    }
}

/// A config file that no mod claims.
pub struct OrphanConfig {
    pub path: String,
    pub file_name: String,
    pub rel_path: String,
    pub content: String,
}

/// What the user did in the organizer: files assigned per mod, and the
/// counts of ignored and skipped files, with the newly ignored ones.
pub struct OrganizeResult {
    pub assigned: Vec<(String, usize)>,
    pub ignored_count: usize,
    pub skipped_count: usize,
    pub ignored_new: Vec<String>,
}

/// Whether `path` matches `pattern`: with exactly one `*`, the path starts
/// with the text before it and ends with the text after it; otherwise the
/// two are equal.
pub open spec fn glob_match_spec(pattern: Seq<char>, path: Seq<char>) -> bool {
    let parts = split_on(pattern, '*');
    if parts.len() == 2 {
        has_prefix(path, parts[0]) && has_suffix(path, parts[1])
    } else {
        pattern == path
    }
}

proof fn lemma_glob_matches_itself(p: Seq<char>)
    ensures
        glob_match_spec(p, p),
{
    let parts = split_on(p, '*');
    if parts.len() == 2 {
        crate::text::lemma_split_join(p, '*');
        let d = parts.drop_last();
        assert(d.len() == 1 && d[0] == parts[0]);
        assert(crate::text::join_with(d, seq!['*']) == parts[0]);
        assert(crate::text::join_with(parts, seq!['*']) == crate::text::join_with(d, seq!['*']) + seq!['*'] + parts.last());
        assert(p =~= parts[0] + seq!['*'] + parts[1]);
        assert(p.take(parts[0].len() as int) =~= parts[0]);
        assert(p.skip(p.len() - parts[1].len()) =~= parts[1]);
    }
}

/// Matches a path against an ignore pattern (see [`glob_match_spec`]).
pub fn glob_match(pattern: &str, path: &str) -> (b: bool)
    ensures
        b == glob_match_spec(pattern@, path@),
{
    let pc = chars_of(pattern);
    let parts = split_chars(&pc, '*');
    let p = chars_of(path);
    if parts.len() == 2 {
        assert(views(parts@)[0] == parts@[0]@);
        assert(views(parts@)[1] == parts@[1]@);
        starts_with(&p, &parts[0]) && ends_with(&p, &parts[1])
    } else {
        str_eq(pattern, path)
    }
}

/// A pattern holds a `*`.
pub open spec fn has_star(s: Seq<char>) -> bool {
    s.contains('*')
}

/// A config file is ignored by one pattern: a pattern with a `*` matches its
/// relative path as a glob; any other must equal its file name or its
/// relative path.
pub open spec fn ignored_by(pattern: Seq<char>, file_name: Seq<char>, rel_path: Seq<char>) -> bool {
    if has_star(pattern) {
        glob_match_spec(pattern, rel_path)
    } else {
        pattern == file_name || pattern == rel_path
    }
}

fn contains_star(s: &str) -> (b: bool)
    ensures
        b == has_star(s@),
{
    let c = chars_of(s);
    let mut i: usize = 0;
    while i < c.len()
        invariant
            i <= c.len(),
            c@ == s@,
            forall|j: int| 0 <= j < i ==> c@[j] != '*',
        decreases c.len() - i,
    {
        if c[i] == '*' {
            assert(s@[i as int] == '*');
            return true;
        }
        i += 1;
    }
    false
}

/// Whether a config file is on the ignore list.
pub fn is_ignored_config(ignore_list: &[String], file_name: &str, rel_path: &str) -> (b: bool)
    ensures
        b == exists|i: int| 0 <= i < ignore_list@.len() && ignored_by(#[trigger] ignore_list@[i]@, file_name@, rel_path@),
{
    let mut i: usize = 0;
    while i < ignore_list.len()
        invariant
            i <= ignore_list.len(),
            forall|j: int| 0 <= j < i ==> !ignored_by(#[trigger] ignore_list@[j]@, file_name@, rel_path@),
        decreases ignore_list.len() - i,
    {
        let pattern = ignore_list[i].as_str();
        let hit = if contains_star(pattern) {
            glob_match(pattern, rel_path)
        } else {
            str_eq(pattern, file_name) || str_eq(pattern, rel_path)
        };
        if hit {
            return true;
        }
        i += 1;
    }
    false
}

/// `list` followed by the entries of `new` that are not yet in it, each once.
pub open spec fn add_ignored_spec(list: Seq<Seq<char>>, new: Seq<Seq<char>>) -> Seq<Seq<char>>
    decreases new.len(),
{
    if new.len() == 0 {
        list
    } else {
        let prev = add_ignored_spec(list, new.drop_last());
        if prev.contains(new.last()) {
            prev
        } else {
            prev.push(new.last())
        }
    }
}

/// Adds the newly ignored files to an ignore list, skipping those already on it.
pub fn add_ignored(list: &mut Vec<String>, new_entries: &[String])
    ensures
        views_of_strings(final(list)@) == add_ignored_spec(views_of_strings(old(list)@), views_of_strings(new_entries@)),
{
    let ghost start = views_of_strings(list@);
    let ghost ns = views_of_strings(new_entries@);
    let mut i: usize = 0;
    while i < new_entries.len()
        invariant
            i <= new_entries.len(),
            ns == views_of_strings(new_entries@),
            views_of_strings(list@) == add_ignored_spec(start, ns.take(i as int)),
        decreases new_entries.len() - i,
    {
        let e = &new_entries[i];
        let ghost cur = views_of_strings(list@);
        let mut present = false;
        let mut k: usize = 0;
        while k < list.len()
            invariant
                k <= list.len(),
                cur == views_of_strings(list@),
                present == exists|q: int| 0 <= q < k && cur[q] == e@,
            decreases list.len() - k,
        {
            assert(cur[k as int] == list@[k as int]@);
            if str_eq(list[k].as_str(), e.as_str()) {
                present = true;
            }
            k += 1;
        }
        let ghost t = ns.take(i as int + 1);
        assert(t.drop_last() == ns.take(i as int));
        assert(t.last() == e@);
        if !present {
            assert(!cur.contains(e@));
            list.push(e.clone());
            assert(views_of_strings(list@) =~= cur.push(e@));
        } else {
            proof {
                let q = choose|q: int| 0 <= q < cur.len() && cur[q] == e@;
                assert(cur.contains(e@));
            }
        }
        i += 1;
    }
    assert(ns.take(new_entries.len() as int) == ns);
}

/// Adding to an ignore list keeps what was there, in place, and afterwards
/// every newly ignored entry is on the list.
pub proof fn lemma_add_ignored_keeps_and_covers(list: Seq<Seq<char>>, new: Seq<Seq<char>>)
    ensures
        add_ignored_spec(list, new).len() >= list.len(),
        add_ignored_spec(list, new).take(list.len() as int) == list,
        forall|i: int| 0 <= i < new.len() ==> add_ignored_spec(list, new).contains(#[trigger] new[i]),
    decreases new.len(),
{
    if new.len() > 0 {
        let g = new.drop_last();
        lemma_add_ignored_keeps_and_covers(list, g);
        let prev = add_ignored_spec(list, g);
        let r = add_ignored_spec(list, new);
        assert forall|i: int| 0 <= i < new.len() implies r.contains(#[trigger] new[i]) by {
            if i < g.len() {
                assert(g[i] == new[i]);
                assert(prev.contains(g[i]));
                if !prev.contains(new.last()) {
                    let j = choose|j: int| 0 <= j < prev.len() && prev[j] == g[i];
                    assert(r[j] == prev[j]);
                }
            } else {
                if !prev.contains(new.last()) {
                    assert(r[prev.len() as int] == new.last());
                }
            }
        }
        if !prev.contains(new.last()) {
            assert(r.take(list.len() as int) =~= prev.take(list.len() as int));
        }
    }
}

/// An ignore list to which entries are only ever added this way never holds
/// an entry twice.
pub proof fn lemma_add_ignored_no_duplicates(list: Seq<Seq<char>>, new: Seq<Seq<char>>)
    requires
        list.no_duplicates(),
    ensures
        add_ignored_spec(list, new).no_duplicates(),
    decreases new.len(),
{
    if new.len() > 0 {
        lemma_add_ignored_no_duplicates(list, new.drop_last());
        let prev = add_ignored_spec(list, new.drop_last());
        if !prev.contains(new.last()) {
            let r = prev.push(new.last());
            assert forall|i: int, j: int| 0 <= i < r.len() && 0 <= j < r.len() && i != j implies r[i] != r[j] by {
                if i < prev.len() && j < prev.len() {
                } else if i == prev.len() {
                    assert(r[j] == prev[j]);
                } else {
                    assert(r[i] == prev[i]);
                }
            }
        }
    }
}

/// The number of files assigned over all mods.
pub open spec fn assigned_total(a: Seq<(String, usize)>) -> int
    decreases a.len(),
{
    if a.len() == 0 {
        0
    } else {
        assigned_total(a.drop_last()) + a.last().1
    }
}

impl OrganizeResult {
    /// The number of files assigned to mods, when it fits in a `usize`.
    pub fn total_assigned(&self) -> (n: Option<usize>)
        ensures
            match n {
                Some(v) => v == assigned_total(self.assigned@),
                None => assigned_total(self.assigned@) > usize::MAX,
            },
    {
        let mut total: usize = 0;
        let mut i: usize = 0;
        while i < self.assigned.len()
            invariant
                i <= self.assigned@.len(),
                total == assigned_total(self.assigned@.take(i as int)),
            decreases self.assigned@.len() - i,
        {
            assert(self.assigned@.take(i as int + 1).drop_last() == self.assigned@.take(i as int));
            match total.checked_add(self.assigned[i].1) {
                Some(t) => {
                    total = t;
                },
                None => {
                    proof {
                        lemma_assigned_total_grows(self.assigned@, i as int + 1);
                    }
                    return None;
                },
            }
            i += 1;
        }
        assert(self.assigned@.take(self.assigned@.len() as int) == self.assigned@);
        Some(total)
    }
}

proof fn lemma_assigned_total_grows(a: Seq<(String, usize)>, k: int)
    requires
        0 <= k <= a.len(),
    ensures
        assigned_total(a.take(k)) <= assigned_total(a),
    decreases a.len(),
{
    if k < a.len() {
        lemma_assigned_total_grows(a.drop_last(), k);
        assert(a.drop_last().take(k) =~= a.take(k));
    } else {
        assert(a.take(k) =~= a);
    }
}

} // verus!

verus! {

/// `n` parent references.
pub open spec fn parent_refs(n: nat) -> Seq<Seq<char>> {
    Seq::new(n, |i: int| seq!['.', '.'])
}

/// The components of the way from the components `b` to the components
/// `a`, after `acc` has been collected: a shared start is skipped; a `.` in
/// `b` takes the component of `a` as it is; a `..` in `b` where they differ
/// gives none; otherwise one `..` for each component left in `b`, then what
/// is left of `a`.
pub open spec fn diff_components(a: Seq<Seq<char>>, b: Seq<Seq<char>>, acc: Seq<Seq<char>>) -> Option<Seq<Seq<char>>>
    decreases a.len() + b.len(),
{
    if a.len() == 0 && b.len() == 0 {
        Some(acc)
    } else if b.len() == 0 {
        Some(acc + a)
    } else if a.len() == 0 {
        Some(acc + parent_refs(b.len()))
    } else if acc.len() == 0 && a[0] == b[0] {
        diff_components(a.drop_first(), b.drop_first(), acc)
    } else if b[0] == seq!['.'] {
        diff_components(a.drop_first(), b.drop_first(), acc.push(a[0]))
    } else if b[0] == seq!['.', '.'] {
        None
    } else {
        Some(acc + parent_refs(b.len()) + a)
    }
}

/// The relative path that pathdiff's `diff_paths` gives from `base` to
/// `path`: when exactly one of them is absolute, `path` itself if it is the
/// absolute one and none otherwise; else the components of the way from
/// `base` to `path` (see [`diff_components`]) joined with `/`.
pub open spec fn path_diff(path: Seq<char>, base: Seq<char>) -> Option<Seq<char>> {
    let pa = path.len() > 0 && path[0] == '/';
    let ba = base.len() > 0 && base[0] == '/';
    if pa != ba {
        if pa {
            Some(path)
        } else {
            None
        }
    } else {
        match diff_components(crate::paths::path_components(path), crate::paths::path_components(base), Seq::empty()) {
            Some(cs) => Some(crate::text::join_with(cs, seq!['/'])),
            None => None,
        }
    }
}

/// pathdiff's `diff_paths(path, base)`: the path of `path` relative to
/// `base`, by comparing their components, as [`path_diff`] states. It reads
/// the two paths alone and does not panic; on Unix the components of `&str`
/// paths are text, so the lossy conversion loses nothing.
#[verifier::external_body]
fn diff_paths(path: &str, base: &str) -> (r: Option<String>)
    ensures
        r matches Some(s) ==> path_diff(path@, base@) == Some(s@),
        r is None ==> path_diff(path@, base@) is None,
{
    pathdiff::diff_paths(path, base).map(|p| p.to_string_lossy().into_owned())
}

/// Where an assigned config file goes: the directory to create, the file's
/// new path, and the key it is counted under.
pub struct AssignPlan {
    pub dest_dir: String,
    pub dest_path: String,
    pub key: String,
}

/// The side's config directory under the root.
pub open spec fn side_config_dir(root: Seq<char>, side: Side) -> Seq<char> {
    path_join(
        path_join(
            root,
            match side {
                Side::Client => "client"@,
                Side::Server => "server"@,
            },
        ),
        "config"@,
    )
}

/// The destination directory of an assignment: the mod's common config
/// (0), the mod's config for the side (1), or the shared config directory.
pub open spec fn dest_dir_spec(root: Seq<char>, mod_id: Seq<char>, dest_idx: usize, side: Side) -> Seq<char> {
    let mod_dir = path_join(path_join(root, "mods"@), mod_id);
    if dest_idx == 0 {
        path_join(mod_dir, "config"@)
    } else if dest_idx == 1 {
        path_join(
            path_join(
                mod_dir,
                match side {
                    Side::Client => "client"@,
                    Side::Server => "server"@,
                },
            ),
            "config"@,
        )
    } else {
        path_join(root, "config"@)
    }
}

/// Plans moving a config file (found under the side's config directory)
/// to a destination: the same relative path under the destination
/// directory. A file that has no path relative to the side's config
/// directory is refused with a configuration error.
pub fn plan_assignment(config_path: &str, mod_id: &str, dest_idx: usize, side: Side, root_dir: &str) -> (r: Result<
    AssignPlan,
    YammmError,
>)
    ensures
        match path_diff(config_path@, side_config_dir(root_dir@, side)) {
            None => r matches Err(YammmError::ConfigError(m)) && m@ == "Config file outside of config dir: "@ + config_path@,
            Some(rel) => r matches Ok(p) && {
                &&& p.dest_dir@ == dest_dir_spec(root_dir@, mod_id@, dest_idx, side)
                &&& p.dest_path@ == path_join(p.dest_dir@, rel)
                &&& p.key@ == if dest_idx == 2 {
                    "fallback (config/)"@
                } else {
                    mod_id@
                }
            },
        },
{
    let side_dir = side.as_str();
    let config_dir = join_paths(join_paths(root_dir, side_dir).as_str(), "config");
    let rel = match diff_paths(config_path, config_dir.as_str()) {
        Some(r) => r,
        None => {
            let mut m = String::from_str("Config file outside of config dir: ");
            m.append(config_path);
            return Err(YammmError::ConfigError(m));
        },
    };
    let mod_dir = join_paths(join_paths(root_dir, "mods").as_str(), mod_id);
    let dest_dir = if dest_idx == 0 {
        join_paths(mod_dir.as_str(), "config")
    } else if dest_idx == 1 {
        join_paths(join_paths(mod_dir.as_str(), side_dir).as_str(), "config")
    } else {
        join_paths(root_dir, "config")
    };
    let dest_path = join_paths(dest_dir.as_str(), rel.as_str());
    let key = if dest_idx == 2 {
        String::from_str("fallback (config/)")
    } else {
        String::from_str(mod_id)
    };
    Ok(AssignPlan { dest_dir, dest_path, key })
}

} // verus!

verus! {

/// The summary after organizing: the counts, then, when files were
/// assigned, where they went.
pub open spec fn organize_summary_spec(r: OrganizeResult) -> Seq<crate::output::EventView> {
    let head = seq![
        crate::output::EventView::BlankLine,
        crate::output::EventView::Status(crate::output::StatusKind::Heading, "Summary"@),
        crate::output::EventView::Status(
            crate::output::StatusKind::Bullet,
            "Assigned: "@ + crate::text::decimal(assigned_total(r.assigned@) as nat) + " files"@,
        ),
        crate::output::EventView::Status(
            crate::output::StatusKind::Bullet,
            "Ignored: "@ + crate::text::decimal(r.ignored_count as nat) + " files"@,
        ),
        crate::output::EventView::Status(
            crate::output::StatusKind::Bullet,
            "Skipped: "@ + crate::text::decimal(r.skipped_count as nat) + " files"@,
        ),
    ];
    if r.assigned@.len() == 0 {
        head
    } else {
        head + seq![
            crate::output::EventView::BlankLine,
            crate::output::EventView::Status(crate::output::StatusKind::Dim, "Files assigned to:"@),
        ] + r.assigned@.map_values(
            |p: (String, usize)| crate::output::EventView::Status(
                crate::output::StatusKind::Bullet,
                p.0@ + ": "@ + crate::text::decimal(p.1 as nat) + " configs"@,
            ),
        )
    }
}

/// The summary printed after organizing (see [`organize_summary_spec`]).
pub fn organize_summary(r: &OrganizeResult) -> (events: Vec<crate::output::OutputEvent>)
    requires
        assigned_total(r.assigned@) <= usize::MAX,
    ensures
        events@.map_values(|e: crate::output::OutputEvent| e@) == organize_summary_spec(*r),
{
    let total = match r.total_assigned() {
        Some(t) => t,
        None => 0,
    };
    let mut events: Vec<crate::output::OutputEvent> = Vec::new();
    events.push(crate::output::OutputEvent::BlankLine);
    events.push(crate::output::OutputEvent::Status(crate::output::StatusKind::Heading, String::from_str("Summary")));
    let mut a = String::from_str("Assigned: ");
    a.append(crate::text::u64_to_decimal(total as u64).as_str());
    a.append(" files");
    events.push(crate::output::OutputEvent::Status(crate::output::StatusKind::Bullet, a));
    let mut b = String::from_str("Ignored: ");
    b.append(crate::text::u64_to_decimal(r.ignored_count as u64).as_str());
    b.append(" files");
    events.push(crate::output::OutputEvent::Status(crate::output::StatusKind::Bullet, b));
    let mut c = String::from_str("Skipped: ");
    c.append(crate::text::u64_to_decimal(r.skipped_count as u64).as_str());
    c.append(" files");
    events.push(crate::output::OutputEvent::Status(crate::output::StatusKind::Bullet, c));
    let ghost head = events@.map_values(|e: crate::output::OutputEvent| e@);
    if r.assigned.len() == 0 {
        return events;
    }
    events.push(crate::output::OutputEvent::BlankLine);
    events.push(crate::output::OutputEvent::Status(crate::output::StatusKind::Dim, String::from_str("Files assigned to:")));
    let ghost start = events@.map_values(|e: crate::output::OutputEvent| e@);
    let ghost bullets = r.assigned@.map_values(
        |p: (String, usize)| crate::output::EventView::Status(
            crate::output::StatusKind::Bullet,
            p.0@ + ": "@ + crate::text::decimal(p.1 as nat) + " configs"@,
        ),
    );
    let mut i: usize = 0;
    while i < r.assigned.len()
        invariant
            i <= r.assigned@.len(),
            bullets == r.assigned@.map_values(
                |p: (String, usize)| crate::output::EventView::Status(
                    crate::output::StatusKind::Bullet,
                    p.0@ + ": "@ + crate::text::decimal(p.1 as nat) + " configs"@,
                ),
            ),
            events@.map_values(|e: crate::output::OutputEvent| e@) == start + bullets.take(i as int),
        decreases r.assigned@.len() - i,
    {
        let mut line = r.assigned[i].0.clone();
        line.append(": ");
        line.append(crate::text::u64_to_decimal(r.assigned[i].1 as u64).as_str());
        line.append(" configs");
        let ghost before = events@;
        events.push(crate::output::OutputEvent::Status(crate::output::StatusKind::Bullet, line));
        assert(events@.map_values(|e: crate::output::OutputEvent| e@) =~= before.map_values(
            |e: crate::output::OutputEvent| e@,
        ).push(bullets[i as int]));
        assert(bullets.take(i as int + 1) =~= bullets.take(i as int).push(bullets[i as int]));
        i += 1;
    }
    assert(bullets.take(r.assigned@.len() as int) =~= bullets);
    events
}

proof fn lemma_total_nonneg(a: Seq<(String, usize)>)
    ensures
        assigned_total(a) >= 0,
    decreases a.len(),
{
    if a.len() > 0 {
        lemma_total_nonneg(a.drop_last());
    }
}

} // verus!

verus! {

/// A file found under the side's config directory: its path, whether it is
/// a regular file and whether it is a symlink, and its text (none when it
/// could not be read as text).
pub struct ListedFile {
    pub path: String,
    pub is_file: bool,
    pub is_symlink: bool,
    pub content: Option<String>,
}

/// The path relative to the config directory (`Path::strip_prefix`), or the
/// path itself when it is not under it.
pub open spec fn rel_path_spec(path: Seq<char>, dir: Seq<char>) -> Seq<char> {
    let pc = crate::paths::path_components(path);
    let dc = crate::paths::path_components(dir);
    if crate::paths::components_start_with(pc, dc) {
        crate::text::join_with(pc.skip(dc.len() as int), "/"@)
    } else {
        path
    }
}

/// The file name of a path (`Path::file_name`): its last component unless
/// that is the root, `.` or `..`; empty otherwise.
pub open spec fn file_name_spec(path: Seq<char>) -> Seq<char> {
    let pc = crate::paths::path_components(path);
    if pc.len() > 0 && pc.last() != seq!['/'] && pc.last() != seq!['.'] && pc.last() != seq!['.', '.'] {
        pc.last()
    } else {
        Seq::empty()
    }
}

/// Whether a listed file is an orphan config: a readable regular file, not
/// a symlink, and not on the ignore list.
pub open spec fn is_orphan(f: ListedFile, dir: Seq<char>, ignore: Seq<String>) -> bool {
    &&& f.is_file
    &&& !f.is_symlink
    &&& f.content is Some
    &&& !(exists|i: int| 0 <= i < ignore.len() && ignored_by(#[trigger] ignore[i]@, file_name_spec(f.path@), rel_path_spec(f.path@, dir)))
}

/// The orphan config a listed file gives.
pub open spec fn orphan_of(f: ListedFile, dir: Seq<char>) -> (Seq<char>, Seq<char>, Seq<char>, Seq<char>) {
    (f.path@, file_name_spec(f.path@), rel_path_spec(f.path@, dir), f.content->0@)
}

/// Whether a config is the one that some orphan of the listing gives.
pub open spec fn comes_from(c: OrphanConfig, listing: Seq<ListedFile>, dir: Seq<char>, ignore: Seq<String>) -> bool {
    exists|i: int| 0 <= i < listing.len() && is_orphan(#[trigger] listing[i], dir, ignore) && orphan_view(c) == orphan_of(listing[i], dir)
}

/// A file whose relative path is on the ignore list is no orphan config:
/// once the organizer ignores a file, later scans leave it out.
pub proof fn lemma_ignored_path_is_not_orphan(f: ListedFile, dir: Seq<char>, ignore: Seq<String>, k: int)
    requires
        0 <= k < ignore.len(),
        ignore[k]@ == rel_path_spec(f.path@, dir),
    ensures
        !is_orphan(f, dir, ignore),
{
    lemma_glob_matches_itself(ignore[k]@);
    assert(ignored_by(ignore[k]@, file_name_spec(f.path@), rel_path_spec(f.path@, dir)));
}

/// How many entries of a listing are orphan configs.
pub open spec fn orphan_count(listing: Seq<ListedFile>, dir: Seq<char>, ignore: Seq<String>) -> nat
    decreases listing.len(),
{
    if listing.len() == 0 {
        0
    } else {
        orphan_count(listing.drop_last(), dir, ignore) + if is_orphan(listing.last(), dir, ignore) {
            1nat
        } else {
            0nat
        }
    }
}

/// The content of an orphan config.
pub open spec fn orphan_view(c: OrphanConfig) -> (Seq<char>, Seq<char>, Seq<char>, Seq<char>) {
    (c.path@, c.file_name@, c.rel_path@, c.content@)
}

fn rel_path_of(path: &str, dir: &str) -> (s: String)
    ensures
        s@ == rel_path_spec(path@, dir@),
{
    let pc = crate::paths::components(chars_of(path).as_slice());
    let dc = crate::paths::components(chars_of(dir).as_slice());
    if crate::paths::components_prefix(&pc, &dc) {
        let slash = ['/'];
        proof {
            reveal_strlit("/");
        }
        assert(slash@ =~= "/"@);
        let joined = if dc.len() < pc.len() {
            assert(views(pc@).skip(dc@.len() as int) =~= views(pc@).subrange(dc@.len() as int, pc@.len() as int));
            crate::text::join_chars_range(&pc, dc.len(), pc.len(), &slash)
        } else {
            assert(views(pc@).skip(dc@.len() as int) =~= Seq::<Seq<char>>::empty());
            Vec::new()
        };
        string_of(joined.as_slice())
    } else {
        String::from_str(path)
    }
}

fn file_name_of(path: &str) -> (s: String)
    ensures
        s@ == file_name_spec(path@),
{
    let pc = crate::paths::components(chars_of(path).as_slice());
    if pc.len() == 0 {
        return String::new();
    }
    let last = &pc[pc.len() - 1];
    let root = ['/'];
    let dot = ['.'];
    let dotdot = ['.', '.'];
    assert(root@ =~= seq!['/']);
    assert(dot@ =~= seq!['.']);
    assert(dotdot@ =~= seq!['.', '.']);
    if crate::text::chars_eq(last.as_slice(), &root) || crate::text::chars_eq(last.as_slice(), &dot)
        || crate::text::chars_eq(last.as_slice(), &dotdot) {
        String::new()
    } else {
        string_of(last.as_slice())
    }
}

fn orphan_from(f: &ListedFile, config_dir: &str, ignore_list: &Vec<String>) -> (r: Option<OrphanConfig>)
    ensures
        r is Some <==> is_orphan(*f, config_dir@, ignore_list@),
        r matches Some(c) ==> orphan_view(c) == orphan_of(*f, config_dir@),
{
    if !f.is_file || f.is_symlink {
        return None;
    }
    let rel = rel_path_of(f.path.as_str(), config_dir);
    let name = file_name_of(f.path.as_str());
    if is_ignored_config(ignore_list.as_slice(), name.as_str(), rel.as_str()) {
        return None;
    }
    match &f.content {
        Some(text) => Some(OrphanConfig { path: f.path.clone(), file_name: name, rel_path: rel, content: text.clone() }),
        None => None,
    }
}

/// The orphan configs of a directory listing, each once, ordered by
/// relative path.
pub fn select_orphans(listing: &Vec<ListedFile>, config_dir: &str, ignore_list: &Vec<String>) -> (out: Vec<OrphanConfig>)
    ensures
        out@.len() == orphan_count(listing@, config_dir@, ignore_list@),
        forall|k: int| 0 <= k < out@.len() ==> #[trigger] comes_from(out@[k], listing@, config_dir@, ignore_list@),
        forall|i: int| 0 <= i < listing@.len() && is_orphan(listing@[i], config_dir@, ignore_list@) ==> exists|k: int| 0 <= k < out@.len()
            && #[trigger] orphan_view(out@[k]) == orphan_of(listing@[i], config_dir@),
        forall|a: int, b: int| 0 <= a < b < out@.len() ==> !crate::fuzzy::lex_lt((#[trigger] out@[b]).rel_path@, (#[trigger] out@[a]).rel_path@),
{
    let mut found: Vec<OrphanConfig> = Vec::new();
    let mut keys: Vec<(usize, Vec<char>)> = Vec::new();
    let ghost mut src: Seq<int> = Seq::empty();
    let ghost mut pos: Seq<int> = Seq::empty();
    let mut i: usize = 0;
    while i < listing.len()
        invariant
            i <= listing@.len(),
            found@.len() == keys@.len(),
            src.len() == found@.len(),
            found@.len() == orphan_count(listing@.take(i as int), config_dir@, ignore_list@),
            pos.len() == i,
            crate::fuzzy::increasing_indices(keys@),
            forall|k: int| 0 <= k < keys@.len() ==> (#[trigger] keys@[k]).0 == k && keys@[k].1@ == found@[k].rel_path@,
            forall|k: int| 0 <= k < src.len() ==> 0 <= #[trigger] src[k] < i && is_orphan(listing@[src[k]], config_dir@, ignore_list@)
                && orphan_view(found@[k]) == orphan_of(listing@[src[k]], config_dir@),
            forall|j: int| 0 <= j < i && is_orphan(#[trigger] listing@[j], config_dir@, ignore_list@) ==> 0 <= pos[j] < src.len()
                && src[pos[j]] == j,
        decreases listing@.len() - i,
    {
        let ghost before_found = found@;
        let ghost before_keys = keys@;
        let ghost before_src = src;
        assert(listing@.take(i as int + 1).drop_last() == listing@.take(i as int));
        assert(listing@.take(i as int + 1).last() == listing@[i as int]);
        match orphan_from(&listing[i], config_dir, ignore_list) {
            Some(c) => {
                let n = found.len();
                keys.push((n, chars_of(c.rel_path.as_str())));
                found.push(c);
                proof {
                    src = src.push(i as int);
                    pos = pos.push(n as int);
                    assert forall|k: int| 0 <= k < keys@.len() implies (#[trigger] keys@[k]).0 == k && keys@[k].1@ == found@[k].rel_path@ by {
                        if k < n {
                            assert(keys@[k] == before_keys[k]);
                            assert(found@[k] == before_found[k]);
                        }
                    }
                    assert forall|k: int| 0 <= k < src.len() implies 0 <= #[trigger] src[k] < i + 1 && is_orphan(listing@[src[k]], config_dir@, ignore_list@)
                        && orphan_view(found@[k]) == orphan_of(listing@[src[k]], config_dir@) by {
                        if k < n {
                            assert(src[k] == before_src[k]);
                            assert(found@[k] == before_found[k]);
                        }
                    }
                }
            },
            None => {
                proof {
                    pos = pos.push(0);
                }
            },
        }
        i += 1;
    }
    assert(listing@.take(listing@.len() as int) == listing@);
    let ranked = crate::fuzzy::rank_by_name(&keys);
    let mut out: Vec<OrphanConfig> = Vec::new();
    let mut k: usize = 0;
    while k < ranked.len()
        invariant
            k <= ranked@.len(),
            ranked@.len() == found@.len(),
            found@.len() == keys@.len(),
            forall|t: int| 0 <= t < keys@.len() ==> (#[trigger] keys@[t]).0 == t && keys@[t].1@ == found@[t].rel_path@,
            crate::fuzzy::ranked_by_name(crate::fuzzy::keyed(ranked@)),
            forall|x: (usize, Seq<char>)| #[trigger] crate::fuzzy::keyed(ranked@).contains(x) <==> crate::fuzzy::keyed(keys@).contains(x),
            out@.len() == k,
            forall|t: int| 0 <= t < k ==> (#[trigger] ranked@[t]).0 < found@.len() && orphan_view(out@[t]) == orphan_view(found@[ranked@[t].0 as int]),
        decreases ranked@.len() - k,
    {
        let ghost x = crate::fuzzy::keyed(ranked@)[k as int];
        proof {
            assert(crate::fuzzy::keyed(ranked@).contains(x));
            let j = choose|j: int| 0 <= j < keys@.len() && crate::fuzzy::keyed(keys@)[j] == x;
            assert(keys@[j].0 == j);
        }
        let idx = ranked[k].0;
        let c = &found[idx];
        let ghost before = out@;
        out.push(OrphanConfig { path: c.path.clone(), file_name: c.file_name.clone(), rel_path: c.rel_path.clone(), content: c.content.clone() });
        proof {
            assert forall|t: int| 0 <= t < k + 1 implies (#[trigger] ranked@[t]).0 < found@.len() && orphan_view(out@[t]) == orphan_view(found@[ranked@[t].0 as int]) by {
                if t < k {
                    assert(out@[t] == before[t]);
                }
            }
        }
        k += 1;
    }
    proof {
        let kr = crate::fuzzy::keyed(ranked@);
        let kk = crate::fuzzy::keyed(keys@);
        assert forall|t: int| 0 <= t < out@.len() implies #[trigger] out@[t].rel_path@ == kr[t].1 by {
            assert(kr.contains(kr[t]));
            assert(kk.contains(kr[t]));
            let j = choose|j: int| 0 <= j < kk.len() && kk[j] == kr[t];
            assert(keys@[j].0 == j);
        }
        assert forall|a: int, b: int| 0 <= a < b < out@.len() implies !crate::fuzzy::lex_lt((#[trigger] out@[b]).rel_path@, (#[trigger] out@[a]).rel_path@) by {
            assert(out@[a].rel_path@ == kr[a].1);
            assert(out@[b].rel_path@ == kr[b].1);
            assert(crate::fuzzy::name_before(kr[a], kr[b]));
            crate::fuzzy::lemma_lex_order(kr[a].1, kr[b].1, kr[b].1);
        }
        assert forall|kk2: int| 0 <= kk2 < out@.len() implies #[trigger] comes_from(out@[kk2], listing@, config_dir@, ignore_list@) by {
            let fi = ranked@[kk2].0 as int;
            assert(orphan_view(out@[kk2]) == orphan_view(found@[fi]));
            let j = src[fi];
            assert(0 <= j < listing@.len() && is_orphan(listing@[j], config_dir@, ignore_list@)
                && orphan_view(out@[kk2]) == orphan_of(listing@[j], config_dir@));
        }
        assert forall|i: int| 0 <= i < listing@.len() && is_orphan(listing@[i], config_dir@, ignore_list@) implies exists|k2: int| 0 <= k2 < out@.len()
            && #[trigger] orphan_view(out@[k2]) == orphan_of(listing@[i], config_dir@) by {
            let fk = pos[i];
            assert(src[fk] == i);
            let x = kk[fk];
            assert(kk.contains(x));
            assert(kr.contains(x));
            let t = choose|t: int| 0 <= t < kr.len() && kr[t] == x;
            assert(ranked@[t].0 == keys@[fk].0);
            assert(orphan_view(out@[t]) == orphan_view(found@[fk]));
        }
    }
    out
}

/// The side-specific destination of a config lies inside the mod's
/// directory, laid out as the side's config directory is in the pack:
/// `<root>/mods/<mod>/<side>/config`, for the side the file was found under.
pub proof fn lemma_side_destination(root: Seq<char>, mod_id: Seq<char>, side: Side)
    ensures
        dest_dir_spec(root, mod_id, 1, side) == side_config_dir(path_join(path_join(root, "mods"@), mod_id), side),
        side == Side::Client ==> dest_dir_spec(root, mod_id, 1, side) == path_join(
            path_join(path_join(path_join(root, "mods"@), mod_id), "client"@),
            "config"@,
        ),
        side == Side::Server ==> dest_dir_spec(root, mod_id, 1, side) == path_join(
            path_join(path_join(path_join(root, "mods"@), mod_id), "server"@),
            "config"@,
        ),
        dest_dir_spec(root, mod_id, 0, side) == path_join(path_join(path_join(root, "mods"@), mod_id), "config"@),
{
}

} // verus!
