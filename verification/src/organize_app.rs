//! The config organizer as a state machine: for each orphan config file in
//! turn the user picks the mod it belongs to and where under that mod it
//! goes, ignores it, or skips it. The terminal loop hands it keys and
//! performs the file moves it asks for.
use vstd::prelude::*;
use crate::fuzzy::{fuzzy_score, fuzzy_score_of, rank_by_score, score_before};
use crate::manage::ModListState;
use crate::manage_app::Key;
use crate::organize::{OrphanConfig, Side};
use crate::output::views_of_strings;
use crate::text::{chars_of, push_char, str_eq, string_of};

verus! {

/// Whether the user is picking a mod or a destination.
#[derive(Clone, Copy, Debug, PartialEq, Eq, Structural)]
pub enum Mode {
    ModSelect,
    DestSelect,
}

/// A destination for a config file: its label and its number (0: the
/// mod's common config, 1: the mod's side config, 2: the shared config
/// directory, 3: the ignore list).
pub struct DestOption {
    pub label: String,
    pub idx: usize,
}

/// The cursor of the destination list.
pub struct ListState {
    pub selected: usize,
}

/// What the user did so far: files assigned per destination key, and the
/// ignored and skipped counts, with the files newly ignored.
pub struct OrganizeResultInternal {
    pub assigned: Vec<(String, usize)>,
    pub ignored_count: usize,
    pub skipped_count: usize,
    pub ignored_new: Option<Vec<String>>,
}

/// The organizer's state.
pub struct OrganizeApp {
    pub orphan_configs: Vec<OrphanConfig>,
    pub mod_names: Vec<String>,
    pub side: Side,
    pub current_idx: usize,
    pub mode: Mode,
    pub query: String,
    pub mod_list_state: ModListState,
    pub dest_list_state: ListState,
    pub result: OrganizeResultInternal,
    pub show_help: bool,
}

/// What the terminal loop does after a key: go on, stop, or move the
/// config file `config` to destination `dest` of mod `mod_name` and then
/// report with [`OrganizeApp::finish_assign`].
pub enum Step {
    Continue,
    Quit,
    Assign { config: usize, mod_name: String, dest: usize },
}

/// The shown mod list: every mod in order when the query is empty, else
/// the mods the fuzzy pattern matches, best first, ties in order.
pub open spec fn is_match_list(l: Seq<usize>, names: Seq<Seq<char>>, query: Seq<char>) -> bool {
    if query.len() == 0 {
        l == Seq::new(names.len(), |i: int| i as usize)
    } else {
        &&& forall|k: int| 0 <= k < l.len() ==> (#[trigger] l[k]) < names.len() && fuzzy_score_of(query, names[l[k] as int]) is Some
        &&& forall|i: int| 0 <= i < names.len() && fuzzy_score_of(query, names[i]) is Some ==> l.contains(i as usize)
        &&& forall|a: int, b: int| 0 <= a < b < l.len() ==> score_before(
            (#[trigger] l[a], fuzzy_score_of(query, names[l[a] as int])->0),
            (#[trigger] l[b], fuzzy_score_of(query, names[l[b] as int])->0),
        )
    }
}

/// The labels of the destinations for a mod on a side.
pub open spec fn dest_labels(side: Side, m: Seq<char>) -> Seq<Seq<char>> {
    seq![
        "mods/"@ + m + "/config/ (common)"@,
        match side {
            Side::Client => "mods/"@ + m + "/client/config/ (client-only)"@,
            Side::Server => "mods/"@ + m + "/server/config/ (server-only)"@,
        },
        "config/ (fallback)"@,
        "Ignore (add to ignore list)"@,
    ]
}

impl OrganizeApp {
    /// The state the organizer keeps: the shown list points at mods, the
    /// names fit the matcher, the current file is at most one past the
    /// last, and the counts never exceed the number of files.
    pub open spec fn wf(&self) -> bool {
        &&& forall|k: int| 0 <= k < self.mod_list_state.filtered_indices@.len() ==> (#[trigger] self.mod_list_state.filtered_indices@[k]) < self.mod_names@.len()
        &&& forall|i: int| 0 <= i < self.mod_names@.len() ==> (#[trigger] self.mod_names@[i])@.len() <= u32::MAX
        &&& self.current_idx <= self.orphan_configs@.len()
        &&& self.result.skipped_count + self.result.ignored_count <= self.orphan_configs@.len()
        &&& forall|k: int| 0 <= k < self.result.assigned@.len() ==> (#[trigger] self.result.assigned@[k]).1 <= self.orphan_configs@.len()
    }

    /// While the files are being gone through, the counts never exceed the
    /// files handled so far.
    pub open spec fn on_track(&self) -> bool {
        &&& self.result.skipped_count + self.result.ignored_count <= self.current_idx
        &&& forall|k: int| 0 <= k < self.result.assigned@.len() ==> (#[trigger] self.result.assigned@[k]).1 <= self.current_idx
    }

    /// The mod names as texts.
    pub open spec fn names(&self) -> Seq<Seq<char>> {
        views_of_strings(self.mod_names@)
    }

    /// The name of the mod under the cursor, or empty.
    pub open spec fn selected_name_spec(&self) -> Seq<char> {
        if self.mod_list_state.selected < self.mod_list_state.filtered_indices@.len() {
            self.names()[self.mod_list_state.filtered_indices@[self.mod_list_state.selected as int] as int]
        } else {
            Seq::empty()
        }
    }

    /// An organizer at the first file, every mod listed.
    pub fn new(orphan_configs: Vec<OrphanConfig>, mod_names: Vec<String>, side: Side) -> (app: Self)
        requires
            forall|i: int| 0 <= i < mod_names@.len() ==> (#[trigger] mod_names@[i])@.len() <= u32::MAX,
        ensures
            app.wf(),
            app.on_track(),
            app.orphan_configs == orphan_configs,
            app.mod_names == mod_names,
            app.side == side,
            app.current_idx == 0,
            app.mode == Mode::ModSelect,
            app.query@.len() == 0,
            app.mod_list_state.filtered_indices@ == Seq::new(mod_names@.len(), |i: int| i as usize),
            app.mod_list_state.selected == 0,
            app.dest_list_state.selected == 0,
            app.result.assigned@.len() == 0,
            app.result.ignored_count == 0,
            app.result.skipped_count == 0,
            app.result.ignored_new is None,
            !app.show_help,
    {
        let indices = all_indices(mod_names.len());
        OrganizeApp {
            orphan_configs,
            mod_names,
            side,
            current_idx: 0,
            mode: Mode::ModSelect,
            query: String::new(),
            mod_list_state: ModListState { filtered_indices: indices, selected: 0, scroll_offset: 0 },
            dest_list_state: ListState { selected: 0 },
            result: OrganizeResultInternal { assigned: Vec::new(), ignored_count: 0, skipped_count: 0, ignored_new: None },
            show_help: false,
        }
    }

    /// The config file being organized, if any is left.
    pub fn current_config(&self) -> (c: Option<&OrphanConfig>)
        ensures
            self.current_idx < self.orphan_configs@.len() ==> c == Some(&self.orphan_configs@[self.current_idx as int]),
            self.current_idx >= self.orphan_configs@.len() ==> c is None,
    {
        if self.current_idx < self.orphan_configs.len() {
            Some(&self.orphan_configs[self.current_idx])
        } else {
            None
        }
    }

    /// The number of config files to organize.
    pub fn total_configs(&self) -> (n: usize)
        ensures
            n == self.orphan_configs@.len(),
    {
        self.orphan_configs.len()
    }

    /// Recomputes the shown mod list from the query (see
    /// [`is_match_list`]) and puts the cursor on the first row.
    pub fn update_filter(&mut self)
        requires
            old(self).wf(),
        ensures
            final(self).wf(),
            is_match_list(final(self).mod_list_state.filtered_indices@, old(self).names(), old(self).query@),
            *final(self) == (OrganizeApp {
                mod_list_state: ModListState {
                    filtered_indices: final(self).mod_list_state.filtered_indices,
                    selected: 0,
                    scroll_offset: 0,
                },
                ..*old(self)
            }),
    {
        let l = if self.query.as_str().is_empty() {
            all_indices(self.mod_names.len())
        } else {
            rank_names(&self.mod_names, &self.query)
        };
        self.mod_list_state.filtered_indices = l;
        self.mod_list_state.selected = 0;
        self.mod_list_state.scroll_offset = 0;
    }

    /// The name of the mod under the cursor, or empty when the list is.
    pub fn selected_mod_name(&self) -> (s: String)
        requires
            self.wf(),
        ensures
            s@ == self.selected_name_spec(),
    {
        if self.mod_list_state.selected < self.mod_list_state.filtered_indices.len() {
            let i = self.mod_list_state.filtered_indices[self.mod_list_state.selected];
            self.mod_names[i].clone()
        } else {
            String::new()
        }
    }

    /// The destinations for the selected mod.
    pub fn dest_options(&self) -> (v: Vec<DestOption>)
        requires
            self.wf(),
        ensures
            v@.len() == 4,
            forall|k: int| 0 <= k < 4 ==> (#[trigger] v@[k]).idx == k && v@[k].label@ == dest_labels(
                self.side,
                self.selected_name_spec(),
            )[k],
    {
        let m = self.selected_mod_name();
        let mut common = String::from_str("mods/");
        common.append(m.as_str());
        common.append("/config/ (common)");
        let mut side_only = String::from_str("mods/");
        side_only.append(m.as_str());
        match self.side {
            Side::Client => side_only.append("/client/config/ (client-only)"),
            Side::Server => side_only.append("/server/config/ (server-only)"),
        }
        let mut v: Vec<DestOption> = Vec::new();
        v.push(DestOption { label: common, idx: 0 });
        v.push(DestOption { label: side_only, idx: 1 });
        v.push(DestOption { label: String::from_str("config/ (fallback)"), idx: 2 });
        v.push(DestOption { label: String::from_str("Ignore (add to ignore list)"), idx: 3 });
        v
    }

    /// Moves to the next config file: back to picking a mod with an empty
    /// query. Returns whether a file is left.
    pub fn advance(&mut self) -> (more: bool)
        requires
            old(self).wf(),
            old(self).on_track(),
            old(self).current_idx < old(self).orphan_configs@.len(),
        ensures
            final(self).wf(),
            final(self).on_track(),
            more == (final(self).current_idx < final(self).orphan_configs@.len()),
            final(self).query@.len() == 0,
            final(self).mod_list_state.filtered_indices@ == Seq::new(old(self).mod_names@.len(), |i: int| i as usize),
            *final(self) == (OrganizeApp {
                current_idx: (old(self).current_idx + 1) as usize,
                mode: Mode::ModSelect,
                query: final(self).query,
                mod_list_state: ModListState {
                    filtered_indices: final(self).mod_list_state.filtered_indices,
                    selected: 0,
                    scroll_offset: 0,
                },
                ..*old(self)
            }),
    {
        assert(self.current_idx < self.orphan_configs.len());
        self.current_idx += 1;
        self.mode = Mode::ModSelect;
        self.query = String::new();
        self.update_filter();
        self.current_idx < self.orphan_configs.len()
    }

    /// Picks the mod under the cursor and opens the destination list;
    /// nothing when the list is empty.
    pub fn select_mod(&mut self)
        ensures
            old(self).mod_list_state.filtered_indices@.len() == 0 ==> *final(self) == *old(self),
            old(self).mod_list_state.filtered_indices@.len() > 0 ==> *final(self) == (OrganizeApp {
                mode: Mode::DestSelect,
                dest_list_state: ListState { selected: 0 },
                ..*old(self)
            }),
    {
        if self.mod_list_state.filtered_indices.len() == 0 {
            return;
        }
        self.mode = Mode::DestSelect;
        self.dest_list_state.selected = 0;
    }

    /// Closes the destination list.
    pub fn cancel_dest(&mut self)
        ensures
            *final(self) == (OrganizeApp { mode: Mode::ModSelect, ..*old(self) }),
    {
        self.mode = Mode::ModSelect;
    }

    /// Skips the current file. Returns whether a file is left.
    pub fn skip_config(&mut self) -> (more: bool)
        requires
            old(self).wf(),
            old(self).on_track(),
            old(self).current_idx < old(self).orphan_configs@.len(),
        ensures
            final(self).wf(),
            final(self).on_track(),
            more == (final(self).current_idx < final(self).orphan_configs@.len()),
            final(self).result.skipped_count == old(self).result.skipped_count + 1,
            advanced(
                *old(self),
                OrganizeApp {
                    result: OrganizeResultInternal { skipped_count: old(self).result.skipped_count, ..final(self).result },
                    ..*final(self)
                },
            ),
    {
        assert(self.current_idx < self.orphan_configs.len());
        let more = self.advance();
        self.result.skipped_count += 1;
        more
    }
}

/// The indices `0..n`.
fn all_indices(n: usize) -> (v: Vec<usize>)
    ensures
        v@ == Seq::new(n as nat, |i: int| i as usize),
{
    let mut v: Vec<usize> = Vec::new();
    let mut i: usize = 0;
    while i < n
        invariant
            i <= n,
            v@ == Seq::new(i as nat, |k: int| k as usize),
        decreases n - i,
    {
        v.push(i);
        assert(v@ =~= Seq::new((i + 1) as nat, |k: int| k as usize));
        i += 1;
    }
    v
}

/// The names matching a non-empty query, best first.
fn rank_names(names: &Vec<String>, query: &String) -> (l: Vec<usize>)
    requires
        forall|i: int| 0 <= i < names@.len() ==> (#[trigger] names@[i])@.len() <= u32::MAX,
        query@.len() > 0,
    ensures
        is_match_list(l@, views_of_strings(names@), query@),
{
    let ghost nv = views_of_strings(names@);
    let mut scored: Vec<(usize, u32)> = Vec::new();
    let mut i: usize = 0;
    while i < names.len()
        invariant
            i <= names@.len(),
            nv == views_of_strings(names@),
            forall|j: int| 0 <= j < names@.len() ==> (#[trigger] names@[j])@.len() <= u32::MAX,
            crate::fuzzy::increasing_indices(scored@),
            forall|k: int| 0 <= k < scored@.len() ==> (#[trigger] scored@[k]).0 < i
                && fuzzy_score_of(query@, nv[scored@[k].0 as int]) == Some(scored@[k].1),
            forall|j: int| 0 <= j < i && (#[trigger] fuzzy_score_of(query@, nv[j])) is Some
                ==> scored@.contains((j as usize, fuzzy_score_of(query@, nv[j])->0)),
        decreases names@.len() - i,
    {
        let ghost before = scored@;
        match fuzzy_score(query.as_str(), names[i].as_str()) {
            Some(sc) => {
                scored.push((i, sc));
                proof {
                    assert forall|j: int| 0 <= j < i + 1 && (#[trigger] fuzzy_score_of(query@, nv[j])) is Some
                        implies scored@.contains((j as usize, fuzzy_score_of(query@, nv[j])->0)) by {
                        if j < i {
                            let k = choose|k: int| 0 <= k < before.len() && before[k] == (j as usize, fuzzy_score_of(query@, nv[j])->0);
                            assert(scored@[k] == before[k]);
                        } else {
                            assert(scored@[before.len() as int] == (i, sc));
                        }
                    }
                }
            },
            None => {},
        }
        i += 1;
    }
    let r = rank_by_score(&scored);
    let mut l: Vec<usize> = Vec::new();
    let mut k: usize = 0;
    while k < r.len()
        invariant
            k <= r.len(),
            l@.len() == k,
            forall|t: int| 0 <= t < k ==> #[trigger] l@[t] == r@[t].0,
        decreases r.len() - k,
    {
        l.push(r[k].0);
        k += 1;
    }
    proof {
        assert forall|t: int| 0 <= t < r@.len() implies (#[trigger] r@[t]).0 < nv.len()
            && fuzzy_score_of(query@, nv[r@[t].0 as int]) == Some(r@[t].1) by {
            assert(r@.contains(r@[t]));
            let j = choose|j: int| 0 <= j < scored@.len() && scored@[j] == r@[t];
        }
        assert forall|kk: int| 0 <= kk < l@.len() implies (#[trigger] l@[kk]) < nv.len() && fuzzy_score_of(query@, nv[l@[kk] as int]) is Some by {
            assert(l@[kk] == r@[kk].0);
        }
        assert forall|j: int| 0 <= j < nv.len() && fuzzy_score_of(query@, nv[j]) is Some implies l@.contains(j as usize) by {
            let x = (j as usize, fuzzy_score_of(query@, nv[j])->0);
            assert(scored@.contains(x));
            assert(r@.contains(x));
            let t = choose|t: int| 0 <= t < r@.len() && r@[t] == x;
            assert(l@[t] == j as usize);
        }
        assert forall|a: int, b: int| 0 <= a < b < l@.len() implies score_before(
            (#[trigger] l@[a], fuzzy_score_of(query@, nv[l@[a] as int])->0),
            (#[trigger] l@[b], fuzzy_score_of(query@, nv[l@[b] as int])->0),
        ) by {
            assert(score_before(r@[a], r@[b]));
            assert(l@[a] == r@[a].0 && l@[b] == r@[b].0);
        }
    }
    l
}

} // verus!

verus! {

/// `post` is `pre` moved on to the next file, picking a mod with an empty
/// query and every mod listed.
pub open spec fn advanced(pre: OrganizeApp, post: OrganizeApp) -> bool {
    &&& post.query@.len() == 0
    &&& post.mod_list_state.filtered_indices@ == Seq::new(pre.mod_names@.len(), |i: int| i as usize)
    &&& post == (OrganizeApp {
        current_idx: (pre.current_idx + 1) as usize,
        mode: Mode::ModSelect,
        query: post.query,
        mod_list_state: ModListState {
            filtered_indices: post.mod_list_state.filtered_indices,
            selected: 0,
            scroll_offset: 0,
        },
        ..pre
    })
}

/// `post` is `pre` with a new query and the list recomputed for it.
pub open spec fn requeried(pre: OrganizeApp, post: OrganizeApp, query: Seq<char>) -> bool {
    &&& post.query@ == query
    &&& is_match_list(post.mod_list_state.filtered_indices@, pre.names(), query)
    &&& post == (OrganizeApp {
        query: post.query,
        mod_list_state: ModListState {
            filtered_indices: post.mod_list_state.filtered_indices,
            selected: 0,
            scroll_offset: 0,
        },
        ..pre
    })
}

/// The tally after one more file went to `key`: its count goes up, or it
/// is added with a count of one.
pub open spec fn tallied(before: Seq<(String, usize)>, after: Seq<(String, usize)>, key: Seq<char>) -> bool {
    if exists|k: int| 0 <= k < before.len() && (#[trigger] before[k]).0@ == key {
        exists|k: int| 0 <= k < before.len() && (#[trigger] before[k]).0@ == key
            && (forall|j: int| 0 <= j < k ==> (#[trigger] before[j]).0@ != key)
            && after == before.update(k, (before[k].0, (before[k].1 + 1) as usize))
    } else {
        after.len() == before.len() + 1 && after.drop_last() == before && after.last().0@ == key && after.last().1 == 1
    }
}

/// What a key does in the organizer.
pub open spec fn organize_key_post(pre: OrganizeApp, post: OrganizeApp, key: Key, step: Step) -> bool {
    if key == Key::F1 {
        post == (OrganizeApp { show_help: !pre.show_help, ..pre }) && step is Continue
    } else if pre.show_help {
        post == (OrganizeApp { show_help: !(key == Key::Esc || key == Key::Enter), ..pre }) && step is Continue
    } else {
        match pre.mode {
            Mode::ModSelect => match key {
                Key::Char(c) => if c == 'q' && pre.query@.len() == 0 {
                    step is Quit && post == (OrganizeApp {
                        result: OrganizeResultInternal {
                            skipped_count: (pre.result.skipped_count + pre.orphan_configs@.len() - pre.current_idx) as usize,
                            ..pre.result
                        },
                        ..pre
                    })
                } else {
                    step is Continue && requeried(pre, post, pre.query@.push(c))
                },
                Key::Backspace => step is Continue && requeried(
                    pre,
                    post,
                    if pre.query@.len() > 0 {
                        pre.query@.drop_last()
                    } else {
                        pre.query@
                    },
                ),
                Key::Up => step is Continue && post == (OrganizeApp {
                    mod_list_state: ModListState {
                        selected: if pre.mod_list_state.selected > 0 {
                            (pre.mod_list_state.selected - 1) as usize
                        } else {
                            0
                        },
                        ..pre.mod_list_state
                    },
                    ..pre
                }),
                Key::Down => step is Continue && post == (OrganizeApp {
                    mod_list_state: ModListState {
                        selected: if pre.mod_list_state.selected + 1 < pre.mod_list_state.filtered_indices@.len() {
                            (pre.mod_list_state.selected + 1) as usize
                        } else {
                            pre.mod_list_state.selected
                        },
                        ..pre.mod_list_state
                    },
                    ..pre
                }),
                Key::Enter => step is Continue && post == if pre.mod_list_state.filtered_indices@.len() > 0 {
                    OrganizeApp { mode: Mode::DestSelect, dest_list_state: ListState { selected: 0 }, ..pre }
                } else {
                    pre
                },
                Key::Esc => {
                    &&& post.result.skipped_count == pre.result.skipped_count + 1
                    &&& advanced(
                        pre,
                        OrganizeApp {
                            result: OrganizeResultInternal { skipped_count: pre.result.skipped_count, ..post.result },
                            ..post
                        },
                    )
                    &&& if post.current_idx < post.orphan_configs@.len() {
                        step is Continue
                    } else {
                        step is Quit
                    }
                },
                _ => step is Continue && post == pre,
            },
            Mode::DestSelect => match key {
                Key::Up => step is Continue && post == (OrganizeApp {
                    dest_list_state: ListState {
                        selected: if pre.dest_list_state.selected > 0 {
                            (pre.dest_list_state.selected - 1) as usize
                        } else {
                            0
                        },
                    },
                    ..pre
                }),
                Key::Down => step is Continue && post == (OrganizeApp {
                    dest_list_state: ListState {
                        selected: if pre.dest_list_state.selected < 3 {
                            (pre.dest_list_state.selected + 1) as usize
                        } else {
                            pre.dest_list_state.selected
                        },
                    },
                    ..pre
                }),
                Key::Enter => if pre.dest_list_state.selected < 3 {
                    post == pre && step == (Step::Assign {
                        config: pre.current_idx,
                        mod_name: step->mod_name,
                        dest: pre.dest_list_state.selected,
                    }) && step->mod_name@ == pre.selected_name_spec()
                } else {
                    let ignoring = pre.dest_list_state.selected == 3;
                    let rel = pre.orphan_configs@[pre.current_idx as int].rel_path@;
                    let mid = OrganizeApp {
                        result: OrganizeResultInternal {
                            ignored_count: pre.result.ignored_count,
                            ignored_new: pre.result.ignored_new,
                            ..post.result
                        },
                        ..post
                    };
                    &&& advanced(pre, mid)
                    &&& post.result.ignored_count == if ignoring {
                        pre.result.ignored_count + 1
                    } else {
                        pre.result.ignored_count as int
                    }
                    &&& ignoring ==> (post.result.ignored_new matches Some(l) && views_of_strings(l@) == match pre.result.ignored_new {
                        Some(old_l) => views_of_strings(old_l@),
                        None => Seq::empty(),
                    }.push(rel))
                    &&& !ignoring ==> post.result.ignored_new == pre.result.ignored_new
                    &&& if post.current_idx < post.orphan_configs@.len() {
                        step is Continue
                    } else {
                        step is Quit
                    }
                },
                Key::Esc => step is Continue && post == (OrganizeApp { mode: Mode::ModSelect, ..pre }),
                _ => step is Continue && post == pre,
            },
        }
    }
}

impl OrganizeApp {
    fn set_query(&mut self, q: String)
        requires
            old(self).wf(),
        ensures
            final(self).wf(),
            requeried(*old(self), *final(self), q@),
    {
        self.query = q;
        self.update_filter();
    }

    /// Counts one more file assigned to `key`.
    fn record_assignment(&mut self, key: String)
        requires
            old(self).wf(),
            old(self).on_track(),
            old(self).current_idx < old(self).orphan_configs@.len(),
        ensures
            tallied(old(self).result.assigned@, final(self).result.assigned@, key@),
            forall|k: int| 0 <= k < final(self).result.assigned@.len() ==> (#[trigger] final(self).result.assigned@[k]).1
                <= old(self).current_idx + 1,
            *final(self) == (OrganizeApp {
                result: OrganizeResultInternal { assigned: final(self).result.assigned, ..old(self).result },
                ..*old(self)
            }),
    {
        let mut k: usize = 0;
        while k < self.result.assigned.len()
            invariant
                k <= self.result.assigned@.len(),
                *self == *old(self),
                self.wf(),
                self.on_track(),
                self.current_idx < self.orphan_configs@.len(),
                forall|j: int| 0 <= j < k ==> (#[trigger] self.result.assigned@[j]).0@ != key@,
            decreases self.result.assigned@.len() - k,
        {
            if str_eq(self.result.assigned[k].0.as_str(), key.as_str()) {
                assert(self.result.assigned@[k as int].1 <= self.current_idx);
                assert(self.current_idx < self.orphan_configs.len());
                let n = self.result.assigned[k].1 + 1;
                let name = self.result.assigned[k].0.clone();
                let ghost before = self.result.assigned@;
                self.result.assigned.set(k, (name, n));
                assert(self.result.assigned@ == before.update(k as int, (before[k as int].0, (before[k as int].1 + 1) as usize)));
                return;
            }
            k += 1;
        }
        let ghost before = self.result.assigned@;
        self.result.assigned.push((key, 1));
        assert(self.result.assigned@.drop_last() =~= before);
    }

    /// After the terminal loop tried to move the current file: a success
    /// counts it under the returned key; either way the organizer moves on.
    /// Returns whether a file is left.
    pub fn finish_assign(&mut self, outcome: Result<String, String>) -> (more: bool)
        requires
            old(self).wf(),
            old(self).on_track(),
            old(self).current_idx < old(self).orphan_configs@.len(),
        ensures
            final(self).wf(),
            final(self).on_track(),
            more == (final(self).current_idx < final(self).orphan_configs@.len()),
            match outcome {
                Ok(k) => tallied(old(self).result.assigned@, final(self).result.assigned@, k@),
                Err(_) => final(self).result.assigned == old(self).result.assigned,
            },
            advanced(
                *old(self),
                OrganizeApp {
                    result: OrganizeResultInternal { assigned: old(self).result.assigned, ..final(self).result },
                    ..*final(self)
                },
            ),
    {
        assert(self.current_idx < self.orphan_configs.len());
        if let Ok(k) = outcome {
            self.record_assignment(k);
        }
        self.advance_keeping_tally()
    }

    fn advance_keeping_tally(&mut self) -> (more: bool)
        requires
            old(self).current_idx < old(self).orphan_configs@.len(),
            forall|k: int| 0 <= k < old(self).mod_list_state.filtered_indices@.len() ==> (#[trigger] old(self).mod_list_state.filtered_indices@[k]) < old(self).mod_names@.len(),
            forall|i: int| 0 <= i < old(self).mod_names@.len() ==> (#[trigger] old(self).mod_names@[i])@.len() <= u32::MAX,
            old(self).result.skipped_count + old(self).result.ignored_count <= old(self).current_idx,
            forall|k: int| 0 <= k < old(self).result.assigned@.len() ==> (#[trigger] old(self).result.assigned@[k]).1 <= old(self).current_idx + 1,
        ensures
            final(self).wf(),
            final(self).on_track(),
            more == (final(self).current_idx < final(self).orphan_configs@.len()),
            advanced(*old(self), *final(self)),
    {
        assert(self.current_idx < self.orphan_configs.len());
        self.current_idx += 1;
        self.mode = Mode::ModSelect;
        self.query = String::new();
        self.mod_list_state.filtered_indices = all_indices(self.mod_names.len());
        self.mod_list_state.selected = 0;
        self.mod_list_state.scroll_offset = 0;
        self.current_idx < self.orphan_configs.len()
    }

    /// Handles a key press (see [`organize_key_post`]).
    pub fn handle_key(&mut self, key: Key) -> (step: Step)
        requires
            old(self).wf(),
            old(self).on_track(),
            old(self).current_idx < old(self).orphan_configs@.len(),
        ensures
            final(self).wf(),
            organize_key_post(*old(self), *final(self), key, step),
            !(step is Quit) ==> final(self).on_track() && final(self).current_idx < final(self).orphan_configs@.len(),
    {
        if key == Key::F1 {
            self.show_help = !self.show_help;
            return Step::Continue;
        }
        if self.show_help {
            if key == Key::Esc || key == Key::Enter {
                self.show_help = false;
            }
            return Step::Continue;
        }
        match self.mode {
            Mode::ModSelect => match key {
                Key::Char(c) => {
                    if c == 'q' && self.query.as_str().is_empty() {
                        assert(self.current_idx < self.orphan_configs.len());
                        self.result.skipped_count = self.result.skipped_count + (self.orphan_configs.len() - self.current_idx);
                        return Step::Quit;
                    }
                    let mut q = self.query.clone();
                    push_char(&mut q, c);
                    self.set_query(q);
                    Step::Continue
                },
                Key::Backspace => {
                    let cs = chars_of(self.query.as_str());
                    let q = if cs.len() > 0 {
                        let shorter = crate::text::sub_chars(cs.as_slice(), 0, cs.len() - 1);
                        let s = string_of(shorter.as_slice());
                        assert(s@ =~= self.query@.drop_last());
                        s
                    } else {
                        self.query.clone()
                    };
                    self.set_query(q);
                    Step::Continue
                },
                Key::Up => {
                    self.mod_list_state.move_up();
                    Step::Continue
                },
                Key::Down => {
                    self.mod_list_state.move_down();
                    Step::Continue
                },
                Key::Enter => {
                    self.select_mod();
                    Step::Continue
                },
                Key::Esc => {
                    if self.skip_config() {
                        Step::Continue
                    } else {
                        Step::Quit
                    }
                },
                _ => Step::Continue,
            },
            Mode::DestSelect => match key {
                Key::Up => {
                    if self.dest_list_state.selected > 0 {
                        self.dest_list_state.selected -= 1;
                    }
                    Step::Continue
                },
                Key::Down => {
                    if self.dest_list_state.selected < 3 {
                        self.dest_list_state.selected += 1;
                    }
                    Step::Continue
                },
                Key::Enter => {
                    let sel = self.dest_list_state.selected;
                    if sel < 3 {
                        return Step::Assign { config: self.current_idx, mod_name: self.selected_mod_name(), dest: sel };
                    }
                    let rel = self.orphan_configs[self.current_idx].rel_path.clone();
                    assert(self.current_idx < self.orphan_configs.len());
                    let more = self.advance();
                    if sel == 3 {
                        let ghost before_list = self.result.ignored_new;
                        let mut l = match self.result.ignored_new.take() {
                            Some(l) => l,
                            None => Vec::new(),
                        };
                        assert(views_of_strings(l@) == match before_list {
                            Some(old_l) => views_of_strings(old_l@),
                            None => Seq::<Seq<char>>::empty(),
                        }) by {
                            if before_list is None {
                                assert(views_of_strings(l@) =~= Seq::<Seq<char>>::empty());
                            }
                        }
                        let ghost lb = l@;
                        l.push(rel);
                        assert(views_of_strings(l@) =~= views_of_strings(lb).push(rel@));
                        self.result.ignored_new = Some(l);
                        self.result.ignored_count += 1;
                    }
                    if more {
                        Step::Continue
                    } else {
                        Step::Quit
                    }
                },
                Key::Esc => {
                    self.cancel_dest();
                    Step::Continue
                },
                _ => Step::Continue,
            },
        }
    }
}

} // verus!

verus! {

impl OrganizeApp {
    /// What the user did, for the summary.
    pub fn into_result(self) -> (r: crate::organize::OrganizeResult)
        ensures
            r.assigned == self.result.assigned,
            r.ignored_count == self.result.ignored_count,
            r.skipped_count == self.result.skipped_count,
            match self.result.ignored_new {
                Some(l) => r.ignored_new == l,
                None => r.ignored_new@.len() == 0,
            },
    {
        crate::organize::OrganizeResult {
            assigned: self.result.assigned,
            ignored_count: self.result.ignored_count,
            skipped_count: self.result.skipped_count,
            ignored_new: match self.result.ignored_new {
                Some(l) => l,
                None => Vec::new(),
            },
        }
    }
}

} // verus!
