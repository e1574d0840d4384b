//! The interactive manager as a state machine: the terminal loop hands it a
//! key or the outcome of a background task, and it updates its state and
//! says what the loop is to do next (save a record, remove a mod, fetch
//! versions, check for an update, install dependencies, quit).
use vstd::prelude::*;
use crate::deps::{build_dep_tree, flatten_dep_tree, DepEntry, DepNode};
use crate::fuzzy::{
    fuzzy_score, fuzzy_score_of, insert_sorted_unique, keyed, lex_lt, name_before, rank_by_name,
    rank_by_score, score_before, strictly_sorted_texts,
};
use crate::manage::{
    field_at, CategoryFilter, DepMarks, DetailField, Focus, Mode, ModListState, StatusKind, StatusLine,
    DETAIL_FIELD_COUNT,
};
use crate::output::views_of_strings;
use crate::text::{chars_of, lowercased, push_char, str_eq, string_eq, string_of, to_lowercase, trim_chars, trim_spec};
use crate::types::{HashType, ModEnv, ModSource, ModVersion, SourceView, TrackedMod};
use crate::update::ModUpdate;

verus! {

/// A background task the manager is waiting for.
#[derive(Clone, Copy, Debug, PartialEq, Eq, Structural)]
pub enum AsyncOp {
    FetchVersions,
    CheckUpdate,
    InstallDeps,
}

/// The outcome of a background task.
pub enum AsyncResult {
    Versions(Result<Vec<ModVersion>, String>),
    UpdateCheck(Result<Option<ModUpdate>, String>),
    InstallDeps(Result<Vec<String>, String>),
}

/// Whether a text occurs in a list of strings.
pub fn contains_text(list: &Vec<String>, s: &str) -> (b: bool)
    ensures
        b == views_of_strings(list@).contains(s@),
{
    let mut i: usize = 0;
    while i < list.len()
        invariant
            i <= list.len(),
            forall|j: int| 0 <= j < i ==> list@[j]@ != s@,
        decreases list.len() - i,
    {
        if str_eq(list[i].as_str(), s) {
            assert(views_of_strings(list@)[i as int] == s@);
            return true;
        }
        i += 1;
    }
    proof {
        if views_of_strings(list@).contains(s@) {
            let j = choose|j: int| 0 <= j < list@.len() && views_of_strings(list@)[j] == s@;
            assert(list@[j]@ == s@);
        }
    }
    false
}

/// Every category of every mod.
pub open spec fn category_set(mods: Seq<TrackedMod>) -> Set<Seq<char>> {
    Set::new(|c: Seq<char>| exists|i: int| 0 <= i < mods.len() && views_of_strings(#[trigger] mods[i].categories@).contains(c))
}

/// Whether mod `i` passes the search: every mod when the query is empty,
/// else those the fuzzy pattern matches.
pub open spec fn passes_query(mods: Seq<TrackedMod>, query: Seq<char>, i: int) -> bool {
    query.len() == 0 || fuzzy_score_of(query, mods[i].name@) is Some
}

/// Whether mod `i` passes the category filter; a filter past the end of
/// the category list lets everything through.
pub open spec fn passes_category(mods: Seq<TrackedMod>, cats: Seq<Seq<char>>, filter: CategoryFilter, i: int) -> bool {
    match filter {
        CategoryFilter::All => true,
        CategoryFilter::Category(c) => c >= cats.len() || views_of_strings(mods[i].categories@).contains(cats[c as int]),
    }
}

/// Whether mod `i` is shown in the list.
pub open spec fn listed(mods: Seq<TrackedMod>, query: Seq<char>, cats: Seq<Seq<char>>, filter: CategoryFilter, i: int) -> bool {
    0 <= i < mods.len() && passes_query(mods, query, i) && passes_category(mods, cats, filter, i)
}

/// The order of the shown list: with no query, alphabetical by lowercased
/// name; with a query, the best match first; ties keep the mods' order.
pub open spec fn shown_before(mods: Seq<TrackedMod>, query: Seq<char>, i: usize, j: usize) -> bool {
    if query.len() == 0 {
        name_before((i, lowercased(mods[i as int].name@)), (j, lowercased(mods[j as int].name@)))
    } else {
        score_before(
            (i, fuzzy_score_of(query, mods[i as int].name@)->0),
            (j, fuzzy_score_of(query, mods[j as int].name@)->0),
        )
    }
}

/// The shown list: exactly the listed mods, in the shown order.
pub open spec fn is_shown_list(
    l: Seq<usize>,
    mods: Seq<TrackedMod>,
    query: Seq<char>,
    cats: Seq<Seq<char>>,
    filter: CategoryFilter,
) -> bool {
    &&& forall|k: int| 0 <= k < l.len() ==> listed(mods, query, cats, filter, #[trigger] l[k] as int)
    &&& forall|i: int| listed(mods, query, cats, filter, i) ==> l.contains(i as usize)
    &&& forall|a: int, b: int| 0 <= a < b < l.len() ==> shown_before(mods, query, #[trigger] l[a], #[trigger] l[b])
}

/// The manager's state.
pub struct ManageApp {
    pub mods: Vec<TrackedMod>,
    pub all_categories: Vec<String>,
    pub mode: Mode,
    pub focus: Focus,
    pub category_filter: CategoryFilter,
    pub query: String,
    pub mod_list: ModListState,
    pub modpack_name: String,
    pub modpack_version: String,
    pub modpack_loader: String,
    pub detail_selected: usize,
    pub env_picker_selected: usize,
    pub version_list: Vec<ModVersion>,
    pub version_list_selected: usize,
    pub version_list_scroll: usize,
    pub version_loading: bool,
    pub editing_description: bool,
    pub category_picker_selected: usize,
    pub category_picker_scroll: usize,
    pub category_new_input: String,
    pub category_new_mode: bool,
    pub dep_tree: Vec<DepNode>,
    pub dep_reverse: Vec<(String, String)>,
    pub dep_tree_scroll: usize,
    pub dep_entries: Vec<DepEntry>,
    pub dep_selected: usize,
    pub dep_scroll: usize,
    pub dep_marks: DepMarks,
    pub dep_installing: bool,
    pub dep_output: Vec<String>,
    pub dep_output_scroll: usize,
    pub remove_dependents: Vec<(String, String)>,
    pub update_result: Option<ModUpdate>,
    pub update_loading: bool,
    pub update_error: Option<String>,
    pub pending_async: Option<AsyncOp>,
    pub show_help: bool,
    pub should_quit: bool,
    pub status: StatusLine,
}

/// The names a fuzzy matcher can take: at most `u32::MAX` characters.
pub open spec fn names_fit(mods: Seq<TrackedMod>) -> bool {
    forall|i: int| 0 <= i < mods.len() ==> (#[trigger] mods[i]).name@.len() <= u32::MAX
}

impl ManageApp {
    /// The state the manager keeps: the shown list points at mods, the
    /// category list is sorted without repeats, the names fit the matcher,
    /// and each marked dependency is marked once.
    pub open spec fn wf(&self) -> bool {
        &&& forall|k: int| 0 <= k < self.mod_list.filtered_indices@.len() ==> (#[trigger] self.mod_list.filtered_indices@[k]) < self.mods@.len()
        &&& strictly_sorted_texts(views_of_strings(self.all_categories@))
        &&& names_fit(self.mods@)
        &&& views_of_strings(self.dep_marks.marked@).no_duplicates()
    }

    /// The categories as texts.
    pub open spec fn cats(&self) -> Seq<Seq<char>> {
        views_of_strings(self.all_categories@)
    }

    /// The mod under the cursor, by its index in `mods`.
    pub open spec fn selected_spec(&self) -> Option<usize> {
        if self.mod_list.selected < self.mod_list.filtered_indices@.len() {
            Some(self.mod_list.filtered_indices@[self.mod_list.selected as int])
        } else {
            None
        }
    }

    /// A manager over the given mods: every mod listed in its order, the
    /// categories collected and sorted, nothing selected but the first row.
    pub fn new(mods: Vec<TrackedMod>, modpack_name: String, modpack_version: String, modpack_loader: String) -> (app: Self)
        requires
            names_fit(mods@),
        ensures
            app.wf(),
            app.mods@ == mods@,
            app.cats().to_set() == category_set(mods@),
            app.mod_list.filtered_indices@ == Seq::new(mods@.len(), |i: int| i as usize),
            app.mod_list.selected == 0,
            app.mode == Mode::Normal,
            app.focus == Focus::ModList,
            app.category_filter == CategoryFilter::All,
            app.query@.len() == 0,
            app.modpack_name == modpack_name,
            app.modpack_version == modpack_version,
            app.modpack_loader == modpack_loader,
            app.pending_async is None,
            !app.show_help,
            !app.should_quit,
            app.status.message is None,
    {
        let all_categories = collect_categories(&mods);
        let mut indices: Vec<usize> = Vec::new();
        let mut i: usize = 0;
        while i < mods.len()
            invariant
                i <= mods.len(),
                indices@ == Seq::new(i as nat, |k: int| k as usize),
            decreases mods.len() - i,
        {
            indices.push(i);
            assert(indices@ =~= Seq::new((i + 1) as nat, |k: int| k as usize));
            i += 1;
        }
        let app = ManageApp {
            mods,
            all_categories,
            mode: Mode::Normal,
            focus: Focus::ModList,
            category_filter: CategoryFilter::All,
            query: String::new(),
            mod_list: ModListState { filtered_indices: indices, selected: 0, scroll_offset: 0 },
            modpack_name,
            modpack_version,
            modpack_loader,
            detail_selected: 0,
            env_picker_selected: 0,
            version_list: Vec::new(),
            version_list_selected: 0,
            version_list_scroll: 0,
            version_loading: false,
            editing_description: false,
            category_picker_selected: 0,
            category_picker_scroll: 0,
            category_new_input: String::new(),
            category_new_mode: false,
            dep_tree: Vec::new(),
            dep_reverse: Vec::new(),
            dep_tree_scroll: 0,
            dep_entries: Vec::new(),
            dep_selected: 0,
            dep_scroll: 0,
            dep_marks: DepMarks { marked: Vec::new() },
            dep_installing: false,
            dep_output: Vec::new(),
            dep_output_scroll: 0,
            remove_dependents: Vec::new(),
            update_result: None,
            update_loading: false,
            update_error: None,
            pending_async: None,
            show_help: false,
            should_quit: false,
            status: StatusLine::new(),
        };
        proof {
            assert(views_of_strings(app.dep_marks.marked@) =~= Seq::<Seq<char>>::empty());
        }
        app
    }

    /// The index of the mod under the cursor.
    pub fn selected_mod(&self) -> (r: Option<usize>)
        ensures
            r == self.selected_spec(),
    {
        if self.mod_list.selected < self.mod_list.filtered_indices.len() {
            Some(self.mod_list.filtered_indices[self.mod_list.selected])
        } else {
            None
        }
    }

    /// The detail row under the cursor; the first row when the cursor is
    /// past the last.
    pub fn selected_field(&self) -> (f: DetailField)
        ensures
            f == if self.detail_selected < DETAIL_FIELD_COUNT {
                field_at(self.detail_selected as int)
            } else {
                DetailField::Version
            },
    {
        let fields = DetailField::fields();
        if self.detail_selected < fields.len() {
            fields[self.detail_selected]
        } else {
            DetailField::Version
        }
    }
}

/// The categories of all mods, sorted, each once.
fn collect_categories(mods: &Vec<TrackedMod>) -> (cats: Vec<String>)
    ensures
        strictly_sorted_texts(views_of_strings(cats@)),
        views_of_strings(cats@).to_set() == category_set(mods@),
{
    let mut cats: Vec<String> = Vec::new();
    let mut i: usize = 0;
    assert(views_of_strings(cats@).to_set() =~= Set::<Seq<char>>::empty());
    while i < mods.len()
        invariant
            i <= mods.len(),
            strictly_sorted_texts(views_of_strings(cats@)),
            views_of_strings(cats@).to_set() == Set::new(
                |c: Seq<char>| exists|k: int| 0 <= k < i && views_of_strings(#[trigger] mods@[k].categories@).contains(c),
            ),
        decreases mods.len() - i,
    {
        let ghost before = views_of_strings(cats@).to_set();
        let mut j: usize = 0;
        while j < mods[i].categories.len()
            invariant
                i < mods.len(),
                j <= mods@[i as int].categories@.len(),
                strictly_sorted_texts(views_of_strings(cats@)),
                views_of_strings(cats@).to_set() == before.union(
                    views_of_strings(mods@[i as int].categories@).subrange(0, j as int).to_set(),
                ),
            decreases mods@[i as int].categories@.len() - j,
        {
            let ghost mid = views_of_strings(cats@).to_set();
            insert_sorted_unique(&mut cats, mods[i].categories[j].clone());
            proof {
                let cv = views_of_strings(mods@[i as int].categories@);
                let s0 = cv.subrange(0, j as int);
                let s1 = cv.subrange(0, j + 1);
                assert(s1.to_set() =~= s0.to_set().insert(cv[j as int])) by {
                    assert forall|x: Seq<char>| s1.contains(x) <==> s0.to_set().insert(cv[j as int]).contains(x) by {
                        if s1.contains(x) {
                            let k = choose|k: int| 0 <= k < s1.len() && s1[k] == x;
                            if k < j {
                                assert(s0[k] == x);
                            }
                        }
                        if s0.contains(x) {
                            let k = choose|k: int| 0 <= k < s0.len() && s0[k] == x;
                            assert(s1[k] == x);
                        }
                        if x == cv[j as int] {
                            assert(s1[j as int] == x);
                        }
                    }
                }
                assert(views_of_strings(cats@).to_set() =~= before.union(cv.subrange(0, j + 1).to_set()));
            }
            j += 1;
        }
        proof {
            let cv = views_of_strings(mods@[i as int].categories@);
            assert(cv.subrange(0, cv.len() as int) =~= cv);
            assert(views_of_strings(cats@).to_set() =~= Set::new(
                |c: Seq<char>| exists|k: int| 0 <= k < i + 1 && views_of_strings(#[trigger] mods@[k].categories@).contains(c),
            )) by {
                assert forall|c: Seq<char>| views_of_strings(cats@).to_set().contains(c) <==> (exists|k: int| 0 <= k < i + 1 && views_of_strings(#[trigger] mods@[k].categories@).contains(c)) by {
                    if exists|k: int| 0 <= k < i + 1 && views_of_strings(#[trigger] mods@[k].categories@).contains(c) {
                        let k = choose|k: int| 0 <= k < i + 1 && views_of_strings(#[trigger] mods@[k].categories@).contains(c);
                        if k < i {
                            assert(before.contains(c));
                        } else {
                            assert(cv.to_set().contains(c));
                        }
                    }
                    if views_of_strings(cats@).to_set().contains(c) {
                        if !before.contains(c) {
                            assert(cv.to_set().contains(c));
                            assert(views_of_strings(mods@[i as int].categories@).contains(c));
                        }
                    }
                }
            }
        }
        i += 1;
    }
    proof {
        assert(views_of_strings(cats@).to_set() =~= category_set(mods@));
    }
    cats
}

} // verus!

verus! {

/// The mods that pass the search, in the shown order (no category filter).
pub open spec fn is_ranked_list(l: Seq<usize>, mods: Seq<TrackedMod>, query: Seq<char>) -> bool {
    &&& forall|k: int| 0 <= k < l.len() ==> (#[trigger] l[k]) < mods.len() && passes_query(mods, query, l[k] as int)
    &&& forall|i: int| 0 <= i < mods.len() && passes_query(mods, query, i) ==> l.contains(i as usize)
    &&& forall|a: int, b: int| 0 <= a < b < l.len() ==> shown_before(mods, query, #[trigger] l[a], #[trigger] l[b])
}

/// The mods matching a non-empty query, best match first.
fn rank_matches(mods: &Vec<TrackedMod>, query: &String) -> (l: Vec<usize>)
    requires
        names_fit(mods@),
        query@.len() > 0,
    ensures
        is_ranked_list(l@, mods@, query@),
{
    let mut scored: Vec<(usize, u32)> = Vec::new();
    let mut i: usize = 0;
    while i < mods.len()
        invariant
            i <= mods.len(),
            names_fit(mods@),
            crate::fuzzy::increasing_indices(scored@),
            forall|k: int| 0 <= k < scored@.len() ==> (#[trigger] scored@[k]).0 < i
                && fuzzy_score_of(query@, mods@[scored@[k].0 as int].name@) == Some(scored@[k].1),
            forall|j: int| 0 <= j < i && (#[trigger] fuzzy_score_of(query@, mods@[j].name@)) is Some
                ==> scored@.contains((j as usize, fuzzy_score_of(query@, mods@[j].name@)->0)),
        decreases mods.len() - i,
    {
        assert(mods@[i as int].name@.len() <= u32::MAX);
        let ghost before = scored@;
        match fuzzy_score(query.as_str(), mods[i].name.as_str()) {
            Some(sc) => {
                scored.push((i, sc));
                proof {
                    assert forall|j: int| 0 <= j < i + 1 && (#[trigger] fuzzy_score_of(query@, mods@[j].name@)) is Some
                        implies scored@.contains((j as usize, fuzzy_score_of(query@, mods@[j].name@)->0)) by {
                        if j < i {
                            let k = choose|k: int| 0 <= k < before.len() && before[k] == (j as usize, fuzzy_score_of(query@, mods@[j].name@)->0);
                            assert(scored@[k] == before[k]);
                        } else {
                            assert(scored@[before.len() as int] == (i, sc));
                        }
                    }
                }
            },
            None => {},
        }
        i += 1;
    }
    let r = rank_by_score(&scored);
    let mut l: Vec<usize> = Vec::new();
    let mut k: usize = 0;
    while k < r.len()
        invariant
            k <= r.len(),
            l@.len() == k,
            forall|t: int| 0 <= t < k ==> #[trigger] l@[t] == r@[t].0,
        decreases r.len() - k,
    {
        l.push(r[k].0);
        k += 1;
    }
    proof {
        assert forall|t: int| 0 <= t < r@.len() implies (#[trigger] r@[t]).0 < mods@.len()
            && fuzzy_score_of(query@, mods@[r@[t].0 as int].name@) == Some(r@[t].1) by {
            assert(r@.contains(r@[t]));
            let j = choose|j: int| 0 <= j < scored@.len() && scored@[j] == r@[t];
        }
        assert forall|kk: int| 0 <= kk < l@.len() implies (#[trigger] l@[kk]) < mods@.len() && passes_query(mods@, query@, l@[kk] as int) by {
            assert(l@[kk] == r@[kk].0);
        }
        assert forall|j: int| 0 <= j < mods@.len() && passes_query(mods@, query@, j) implies l@.contains(j as usize) by {
            let x = (j as usize, fuzzy_score_of(query@, mods@[j].name@)->0);
            assert(scored@.contains(x));
            assert(r@.contains(x));
            let t = choose|t: int| 0 <= t < r@.len() && r@[t] == x;
            assert(l@[t] == j as usize);
        }
        assert forall|a: int, b: int| 0 <= a < b < l@.len() implies shown_before(mods@, query@, #[trigger] l@[a], #[trigger] l@[b]) by {
            assert(score_before(r@[a], r@[b]));
            assert(l@[a] == r@[a].0 && l@[b] == r@[b].0);
        }
    }
    l
}

/// Every mod, alphabetically by lowercased name.
fn rank_by_lowercase_name(mods: &Vec<TrackedMod>) -> (l: Vec<usize>)
    ensures
        is_ranked_list(l@, mods@, Seq::<char>::empty()),
{
    let mut named: Vec<(usize, Vec<char>)> = Vec::new();
    let mut i: usize = 0;
    while i < mods.len()
        invariant
            i <= mods.len(),
            named@.len() == i,
            forall|k: int| 0 <= k < named@.len() ==> (#[trigger] named@[k]).0 == k && named@[k].1@ == lowercased(mods@[k].name@),
        decreases mods.len() - i,
    {
        let low = to_lowercase(mods[i].name.as_str());
        named.push((i, chars_of(low.as_str())));
        i += 1;
    }
    let r = rank_by_name(&named);
    proof {
        assert forall|t: int| 0 <= t < keyed(r@).len() implies (#[trigger] keyed(r@)[t]).0 < mods@.len()
            && keyed(r@)[t].1 == lowercased(mods@[keyed(r@)[t].0 as int].name@) by {
            let x = keyed(r@)[t];
            assert(keyed(r@).contains(x));
            assert(keyed(named@).contains(x));
            let j = choose|j: int| 0 <= j < keyed(named@).len() && keyed(named@)[j] == x;
            assert(named@[j].0 == j);
        }
    }
    let mut l: Vec<usize> = Vec::new();
    let mut k: usize = 0;
    while k < r.len()
        invariant
            k <= r.len(),
            l@.len() == k,
            forall|t: int| 0 <= t < k ==> #[trigger] l@[t] == r@[t].0,
        decreases r.len() - k,
    {
        l.push(r[k].0);
        k += 1;
    }
    proof {
        let kr = keyed(r@);
        assert forall|t: int| 0 <= t < l@.len() implies #[trigger] l@[t] == kr[t].0 by {}
        assert forall|j: int| 0 <= j < mods@.len() && passes_query(mods@, Seq::<char>::empty(), j) implies l@.contains(j as usize) by {
            let x = (j as usize, lowercased(mods@[j].name@));
            assert(keyed(named@)[j] == x);
            assert(keyed(named@).contains(x));
            assert(kr.contains(x));
            let t = choose|t: int| 0 <= t < kr.len() && kr[t] == x;
            assert(l@[t] == j as usize);
        }
        assert forall|a: int, b: int| 0 <= a < b < l@.len() implies shown_before(mods@, Seq::<char>::empty(), #[trigger] l@[a], #[trigger] l@[b]) by {
            assert(name_before(kr[a], kr[b]));
        }
    }
    l
}

/// Keeps the ranked mods that pass the category filter, in order.
fn retain_category(
    mods: &Vec<TrackedMod>,
    cats: &Vec<String>,
    filter: CategoryFilter,
    query: Ghost<Seq<char>>,
    l: Vec<usize>,
) -> (m: Vec<usize>)
    requires
        is_ranked_list(l@, mods@, query@),
    ensures
        is_shown_list(m@, mods@, query@, views_of_strings(cats@), filter),
{
    let ghost cv = views_of_strings(cats@);
    let cat = match filter {
        CategoryFilter::All => {
            proof {
                assert forall|i: int| listed(mods@, query@, cv, filter, i) implies l@.contains(i as usize) by {}
            }
            return l;
        },
        CategoryFilter::Category(c) => {
            if c >= cats.len() {
                return l;
            }
            c
        },
    };
    let mut m: Vec<usize> = Vec::new();
    let ghost mut pos: Seq<int> = Seq::empty();
    let mut k: usize = 0;
    while k < l.len()
        invariant
            k <= l@.len(),
            cat < cats@.len(),
            filter == CategoryFilter::Category(cat),
            cv == views_of_strings(cats@),
            is_ranked_list(l@, mods@, query@),
            pos.len() == m@.len(),
            forall|t: int| 0 <= t < m@.len() ==> 0 <= #[trigger] pos[t] < k && m@[t] == l@[pos[t]],
            forall|a: int, b: int| 0 <= a < b < pos.len() ==> #[trigger] pos[a] < #[trigger] pos[b],
            forall|t: int| 0 <= t < m@.len() ==> views_of_strings(mods@[#[trigger] m@[t] as int].categories@).contains(cv[cat as int]),
            forall|j: int| 0 <= j < k && views_of_strings(mods@[l@[j] as int].categories@).contains(cv[cat as int]) ==> #[trigger] m@.contains(l@[j]),
        decreases l@.len() - k,
    {
        let idx = l[k];
        let ghost m_old = m@;
        if contains_text(&mods[idx].categories, cats[cat].as_str()) {
            m.push(idx);
            proof {
                pos = pos.push(k as int);
                assert forall|j: int| 0 <= j < k + 1 && views_of_strings(mods@[l@[j] as int].categories@).contains(cv[cat as int]) implies #[trigger] m@.contains(l@[j]) by {
                    if j < k {
                        assert(m_old.contains(l@[j]));
                        let t = choose|t: int| 0 <= t < m_old.len() && m_old[t] == l@[j];
                        assert(m@[t] == l@[j]);
                    } else {
                        assert(m@[m@.len() - 1] == l@[j]);
                    }
                }
            }
        } else {
            proof {
                assert forall|j: int| 0 <= j < k + 1 && views_of_strings(mods@[l@[j] as int].categories@).contains(cv[cat as int]) implies #[trigger] m@.contains(l@[j]) by {
                    if j == k {
                        assert(!views_of_strings(mods@[l@[j] as int].categories@).contains(cv[cat as int]));
                    }
                }
            }
        }
        k += 1;
    }
    proof {
        assert forall|t: int| 0 <= t < m@.len() implies listed(mods@, query@, cv, filter, #[trigger] m@[t] as int) by {
            assert(m@[t] == l@[pos[t]]);
        }
        assert forall|i: int| listed(mods@, query@, cv, filter, i) implies m@.contains(i as usize) by {
            assert(l@.contains(i as usize));
            let j = choose|j: int| 0 <= j < l@.len() && l@[j] == i as usize;
            assert(0 <= i < mods.len());
            assert(l@[j] as int == i);
            assert(views_of_strings(mods@[l@[j] as int].categories@).contains(cv[cat as int]));
            assert(m@.contains(l@[j]));
        }
        assert forall|a: int, b: int| 0 <= a < b < m@.len() implies shown_before(mods@, query@, #[trigger] m@[a], #[trigger] m@[b]) by {
            assert(pos[a] < pos[b]);
            assert(m@[a] == l@[pos[a]] && m@[b] == l@[pos[b]]);
        }
    }
    m
}

impl ManageApp {
    /// Recomputes the shown list after the query, the category filter or
    /// the mods changed (see [`is_shown_list`]); the cursor stays on the
    /// list and the view scrolls to the top. Nothing else changes.
    pub fn update_filter(&mut self)
        requires
            old(self).wf(),
        ensures
            final(self).wf(),
            is_shown_list(
                final(self).mod_list.filtered_indices@,
                old(self).mods@,
                old(self).query@,
                old(self).cats(),
                old(self).category_filter,
            ),
            final(self).mod_list.selected == clamped(old(self).mod_list.selected, final(self).mod_list.filtered_indices@.len()),
            refiltered(*old(self), *final(self)),
    {
        let ranked = if self.query.as_str().is_empty() {
            proof {
                assert(self.query@ =~= Seq::<char>::empty());
            }
            rank_by_lowercase_name(&self.mods)
        } else {
            rank_matches(&self.mods, &self.query)
        };
        let shown = retain_category(&self.mods, &self.all_categories, self.category_filter, Ghost(self.query@), ranked);
        self.mod_list.filtered_indices = shown;
        if self.mod_list.selected >= self.mod_list.filtered_indices.len() {
            self.mod_list.selected = if self.mod_list.filtered_indices.len() > 0 {
                self.mod_list.filtered_indices.len() - 1
            } else {
                0
            };
        }
        self.mod_list.scroll_offset = 0;
    }
}

/// `post` is `pre` with the shown list recomputed: the listed mods in the
/// shown order, the cursor kept on the list, the view at the top.
pub open spec fn refiltered(pre: ManageApp, post: ManageApp) -> bool {
    &&& is_shown_list(post.mod_list.filtered_indices@, pre.mods@, pre.query@, pre.cats(), pre.category_filter)
    &&& post.mod_list.selected == clamped(pre.mod_list.selected, post.mod_list.filtered_indices@.len())
    &&& post == (ManageApp {
        mod_list: ModListState {
            filtered_indices: post.mod_list.filtered_indices,
            selected: post.mod_list.selected,
            scroll_offset: 0,
        },
        ..pre
    })
}

/// A cursor kept on a list of `len` rows: the last row when it is past the
/// end, 0 on an empty list.
pub open spec fn clamped(selected: usize, len: nat) -> usize {
    if selected >= len {
        if len == 0 {
            0
        } else {
            (len - 1) as usize
        }
    } else {
        selected
    }
}

} // verus!

verus! {

/// The position of a detail row.
pub open spec fn field_index(f: DetailField) -> usize {
    match f {
        DetailField::Version => 0,
        DetailField::Env => 1,
        DetailField::Description => 2,
        DetailField::Categories => 3,
        DetailField::DepTree => 4,
        DetailField::Remove => 5,
        DetailField::UpdateCheck => 6,
    }
}

/// `app` showing a status message of the given kind and text.
pub open spec fn status_shows(app: ManageApp, kind: StatusKind, text: Seq<char>) -> bool {
    &&& app.status.message matches Some(m) && m.0 == kind && m.1@ == text
    &&& app.status.ticks == crate::manage::STATUS_TICKS
}

/// `post` is `pre` showing a new status message.
pub open spec fn with_status(pre: ManageApp, post: ManageApp, kind: StatusKind, text: Seq<char>) -> bool {
    status_shows(post, kind, text) && post == (ManageApp { status: post.status, ..pre })
}

/// The dependency rows as ids with their installed flags.
pub open spec fn dep_rows(entries: Seq<DepEntry>) -> Seq<(Seq<char>, bool)> {
    entries.map_values(|e: DepEntry| (e.mod_id@, e.installed))
}

/// The state after [`ManageApp::start_edit_env`].
pub open spec fn start_edit_env_post(pre: ManageApp, post: ManageApp) -> bool {
    &&& post == match pre.selected_spec() {
        Some(i) => ManageApp {
            env_picker_selected: env_index(pre.mods@[i as int].env),
            mode: Mode::EditEnv,
            ..pre
        },
        None => pre
    }
}

/// The state after [`ManageApp::confirm_edit_env`].
pub open spec fn confirm_edit_env_post(pre: ManageApp, post: ManageApp, r: Option<usize>) -> bool {
    &&& r == pre.selected_spec()
    &&& post == (ManageApp { mods: post.mods, mode: Mode::Normal, ..pre })
    &&& post.mods@ == match pre.selected_spec() {
        Some(i) => pre.mods@.update(
            i as int,
            TrackedMod { env: env_at(pre.env_picker_selected), ..pre.mods@[i as int] },
        ),
        None => pre.mods@
    }
}

/// The state after [`ManageApp::start_edit_version`].
pub open spec fn start_edit_version_post(pre: ManageApp, post: ManageApp) -> bool {
    &&& match pre.selected_spec() {
        None => post == pre,
        Some(i) => if pre.mods@[i as int].unresolved {
            with_status(pre, post, StatusKind::Warning, "Cannot change version for unresolved mods"@)
        } else if crate::update::requires_api(pre.mods@[i as int].source@) {
            &&& post.version_list@.len() == 0
            &&& post == (ManageApp {
                version_list: post.version_list,
                version_list_selected: 0,
                version_list_scroll: 0,
                version_loading: true,
                pending_async: Some(AsyncOp::FetchVersions),
                mode: Mode::EditVersion,
                ..pre
            })
        } else {
            with_status(pre, post, StatusKind::Warning, "Cannot change version for URL-sourced mods"@)
        }
    }
}

/// The state after [`ManageApp::confirm_edit_version`].
pub open spec fn confirm_edit_version_post(pre: ManageApp, post: ManageApp, r: Option<(usize, String)>) -> bool {
    &&& post == (ManageApp {
        mods: post.mods,
        mode: Mode::Normal,
        version_loading: false,
        pending_async: None,
        ..pre
    })
    &&& ({
        let picked = pre.version_list_selected < pre.version_list@.len();
        let v = pre.version_list@[pre.version_list_selected as int];
        match pre.selected_spec() {
            Some(i) if picked => {
                &&& r matches Some(p) && p.0 == i && p.1@ == v.version@
                &&& post.mods@.len() == pre.mods@.len()
                &&& forall|k: int| 0 <= k < pre.mods@.len() && k != i ==> #[trigger] post.mods@[k] == pre.mods@[k]
                &&& post.mods@[i as int] == (TrackedMod {
                    version: post.mods@[i as int].version,
                    download_url: post.mods@[i as int].download_url,
                    hash: v.hash,
                    hash_type: v.hash_type,
                    ..pre.mods@[i as int]
                })
                &&& post.mods@[i as int].version@ == v.version@
                &&& post.mods@[i as int].download_url@ == v.download_url@
            },
            _ => r is None && post.mods@ == pre.mods@,
        }
    })
}

/// The state after [`ManageApp::start_edit_description`].
pub open spec fn start_edit_description_post(pre: ManageApp, post: ManageApp, lines: Option<Vec<String>>) -> bool {
    &&& match pre.selected_spec() {
        Some(i) => {
            &&& lines matches Some(l) && views_of_strings(l@) == editor_lines(pre.mods@[i as int].description@)
            &&& post == (ManageApp { editing_description: true, mode: Mode::EditDescription, ..pre })
        },
        None => lines is None && post == pre
    }
}

/// The state after [`ManageApp::start_edit_categories`].
pub open spec fn start_edit_categories_post(pre: ManageApp, post: ManageApp) -> bool {
    &&& pre.selected_spec() is None ==> post == pre
    &&& pre.selected_spec() is Some ==> post.category_new_input@.len() == 0 && post == (ManageApp {
        category_picker_selected: 0,
        category_picker_scroll: 0,
        category_new_input: post.category_new_input,
        category_new_mode: false,
        mode: Mode::EditCategories,
        ..pre
    })
}

/// The state after [`ManageApp::confirm_edit_categories`].
pub open spec fn confirm_edit_categories_post(pre: ManageApp, post: ManageApp, r: Option<usize>) -> bool {
    &&& r == pre.selected_spec()
    &&& post.cats().to_set() == category_set(pre.mods@)
    &&& post == (ManageApp { all_categories: post.all_categories, mode: Mode::Normal, ..pre })
}

/// The state after [`ManageApp::start_dep_tree`].
pub open spec fn start_dep_tree_post(pre: ManageApp, post: ManageApp) -> bool {
    &&& pre.selected_spec() is None ==> post == pre
    &&& pre.selected_spec() matches Some(i) ==> {
        let m = pre.mods@[i as int];
        let tree = crate::deps::tree_spec(pre.mods@, m.id@, m.source@, None, 5, Seq::empty());
        &&& crate::deps::nodes_view(post.dep_tree@) == tree
        &&& post.dep_reverse@.map_values(|p: (String, String)| (p.0@, p.1@))
            == crate::deps::reverse_dependents_spec(pre.mods@, m.id@, m.source@)
        &&& post.dep_entries@.map_values(|e: DepEntry| crate::deps::entry_view(e))
            == crate::deps::flatten_spec(tree, 0)
        &&& post.dep_marks.marked@.len() == 0
        &&& post == (ManageApp {
            dep_tree: post.dep_tree,
            dep_reverse: post.dep_reverse,
            dep_entries: post.dep_entries,
            dep_selected: 0,
            dep_scroll: 0,
            dep_marks: post.dep_marks,
            dep_tree_scroll: 0,
            mode: Mode::DepTree,
            ..pre
        })
    }
}

/// The state after [`ManageApp::start_install_deps`].
pub open spec fn start_install_deps_post(pre: ManageApp, post: ManageApp) -> bool {
    &&& post.dep_marks.marked@.len() == 0
    &&& views_of_strings(post.dep_marks.marked@).no_duplicates()
    &&& post == (ManageApp {
        mode: Mode::InstallDeps,
        dep_selected: 0,
        dep_scroll: 0,
        dep_marks: post.dep_marks,
        ..pre
    })
}

/// The state after [`ManageApp::start_remove`].
pub open spec fn start_remove_post(pre: ManageApp, post: ManageApp) -> bool {
    &&& pre.selected_spec() is None ==> post == pre
    &&& pre.selected_spec() matches Some(i) ==> {
        let m = pre.mods@[i as int];
        &&& post.remove_dependents@.map_values(|p: (String, String)| (p.0@, p.1@))
            == crate::deps::reverse_dependents_spec(pre.mods@, m.id@, m.source@)
        &&& post == (ManageApp {
            remove_dependents: post.remove_dependents,
            mode: Mode::RemoveConfirm,
            ..pre
        })
    }
}

/// The state after [`ManageApp::start_update_check`].
pub open spec fn start_update_check_post(pre: ManageApp, post: ManageApp) -> bool {
    &&& match pre.selected_spec() {
        None => post == pre,
        Some(i) => if pre.mods@[i as int].unresolved {
            with_status(pre, post, StatusKind::Warning, "Cannot check updates for unresolved mods"@)
        } else if crate::update::requires_api(pre.mods@[i as int].source@) {
            post == (ManageApp {
                update_loading: true,
                update_result: None,
                update_error: None,
                pending_async: Some(AsyncOp::CheckUpdate),
                mode: Mode::UpdateCheck,
                ..pre
            })
        } else {
            with_status(pre, post, StatusKind::Warning, "Cannot check updates for URL-sourced mods"@)
        }
    }
}

/// The state after [`ManageApp::apply_update`].
pub open spec fn apply_update_post(pre: ManageApp, post: ManageApp, r: Option<(usize, String)>) -> bool {
    &&& post == (ManageApp {
        mods: post.mods,
        update_result: None,
        mode: Mode::Normal,
        update_loading: false,
        pending_async: None,
        ..pre
    })
    &&& match (pre.update_result, pre.selected_spec()) {
        (Some(u), Some(i)) => {
            &&& r matches Some(p) && p.0 == i && p.1@ == u.latest_version@
            &&& post.mods@.len() == pre.mods@.len()
            &&& forall|k: int| 0 <= k < pre.mods@.len() && k != i ==> #[trigger] post.mods@[k] == pre.mods@[k]
            &&& post.mods@[i as int] == (TrackedMod {
                version: post.mods@[i as int].version,
                download_url: post.mods@[i as int].download_url,
                hash: u.hash,
                hash_type: u.hash_type,
                ..pre.mods@[i as int]
            })
            &&& post.mods@[i as int].version@ == u.latest_version@
            &&& post.mods@[i as int].download_url@ == u.download_url@
        },
        _ => r is None && post.mods@ == pre.mods@
    }
}

/// The state after [`ManageApp::confirm_remove`].
pub open spec fn confirm_remove_post(pre: ManageApp, post: ManageApp, r: Option<usize>) -> bool {
    &&& r == pre.selected_spec()
    &&& r is Some ==> post == pre
    &&& r is None ==> with_status(ManageApp { mode: Mode::Normal, ..pre }, post, StatusKind::Error, "Failed to remove mod"@)
}

/// A category list with `category` toggled: its first occurrence removed,
/// or, when absent, added and the list sorted.
pub open spec fn toggle_post(before: Seq<Seq<char>>, after: Seq<Seq<char>>, category: Seq<char>) -> bool {
    &&& before.contains(category) ==> exists|p: int| 0 <= p < before.len() && before[p] == category
        && (forall|q: int| 0 <= q < p ==> #[trigger] before[q] != category) && after == before.remove(p)
    &&& !before.contains(category) ==> crate::fuzzy::sorted_texts(after) && after.to_multiset()
        == before.push(category).to_multiset()
}

/// Toggling a category flips whether a mod has it, when the mod's
/// categories are distinct.
pub proof fn lemma_toggle_flips(before: Seq<Seq<char>>, after: Seq<Seq<char>>, category: Seq<char>)
    requires
        toggle_post(before, after, category),
        before.no_duplicates(),
    ensures
        after.contains(category) <==> !before.contains(category),
{
    if before.contains(category) {
        let p = choose|p: int| 0 <= p < before.len() && before[p] == category
            && (forall|q: int| 0 <= q < p ==> #[trigger] before[q] != category) && after == before.remove(p);
        if after.contains(category) {
            let i = choose|i: int| 0 <= i < after.len() && after[i] == category;
            if i < p {
                assert(before[i] == category);
            } else {
                assert(before[i + 1] == category);
                assert(i + 1 != p);
            }
        }
    } else {
        before.to_multiset_ensures();
        before.push(category).to_multiset_ensures();
        after.to_multiset_ensures();
        assert(before.push(category)[before.len() as int] == category);
        assert(before.push(category).contains(category));
        assert(before.push(category).to_multiset().count(category) > 0);
        assert(after.to_multiset().count(category) > 0);
    }
}

fn toggled_categories(cats: &Vec<String>, category: &str) -> (r: Vec<String>)
    ensures
        toggle_post(views_of_strings(cats@), views_of_strings(r@), category@),
{
    let ghost before = views_of_strings(cats@);
    let mut p: usize = 0;
    let n = cats.len();
    while p < n && !str_eq(cats[p].as_str(), category)
        invariant
            p <= n,
            n == cats@.len(),
            before == views_of_strings(cats@),
            forall|q: int| 0 <= q < p ==> #[trigger] before[q] != category@,
        decreases n - p,
    {
        p += 1;
    }
    let mut out = cats.clone();
    assert(views_of_strings(out@) == before);
    if p < n {
        out.remove(p);
        proof {
            assert(views_of_strings(out@) =~= before.remove(p as int));
            assert(before[p as int] == category@);
            assert(before.contains(category@));
        }
        out
    } else {
        proof {
            assert(!before.contains(category@)) by {
                if before.contains(category@) {
                    let q = choose|q: int| 0 <= q < before.len() && before[q] == category@;
                }
            }
        }
        out.push(String::from_str(category));
        assert(views_of_strings(out@) =~= before.push(category@));
        crate::fuzzy::sort_texts(&out)
    }
}

/// The state after [`ManageApp::toggle_category_for_selected`].
pub open spec fn toggle_category_for_selected_post(pre: ManageApp, post: ManageApp, category: Seq<char>) -> bool {
    &&& post == (ManageApp { mods: post.mods, ..pre })
    &&& match pre.selected_spec() {
        None => post.mods@ == pre.mods@,
        Some(i) => {
            let before = views_of_strings(pre.mods@[i as int].categories@);
            let after = views_of_strings(post.mods@[i as int].categories@);
            &&& post.mods@.len() == pre.mods@.len()
            &&& forall|k: int| 0 <= k < pre.mods@.len() && k != i ==> #[trigger] post.mods@[k] == pre.mods@[k]
            &&& post.mods@[i as int] == (TrackedMod {
                categories: post.mods@[i as int].categories,
                ..pre.mods@[i as int]
            })
            &&& toggle_post(before, after, category)
        }
    }
}

/// The state after [`ManageApp::add_new_category`].
pub open spec fn add_new_category_post(pre: ManageApp, post: ManageApp, category: Seq<char>) -> bool {
    &&& post == (ManageApp { mods: post.mods, all_categories: post.all_categories, ..pre })
    &&& trim_spec(category).len() == 0 ==> post == pre
    &&& trim_spec(category).len() > 0 ==> post.cats().to_set() == pre.cats().to_set().insert(trim_spec(category))
    &&& post.mods@.len() == pre.mods@.len()
    &&& forall|k: int| 0 <= k < pre.mods@.len() && Some(k as usize) != pre.selected_spec() ==> #[trigger] post.mods@[k] == pre.mods@[k]
    &&& match pre.selected_spec() {
        None => true,
        Some(i) => {
            let c = trim_spec(category);
            let before = views_of_strings(pre.mods@[i as int].categories@);
            let after = views_of_strings(post.mods@[i as int].categories@);
            &&& post.mods@[i as int] == (TrackedMod {
                categories: post.mods@[i as int].categories,
                ..pre.mods@[i as int]
            })
            &&& (c.len() == 0 || before.contains(c)) ==> post.mods@[i as int] == pre.mods@[i as int]
            &&& (c.len() > 0 && !before.contains(c)) ==> crate::fuzzy::sorted_texts(after) && after.to_multiset()
                == before.push(c).to_multiset()
        }
    }
}

/// The state after [`ManageApp::detail_move_up`].
pub open spec fn detail_move_up_post(pre: ManageApp, post: ManageApp) -> bool {
    &&& post == (ManageApp {
        detail_selected: if pre.detail_selected > 0 {
            (pre.detail_selected - 1) as usize
        } else {
            0
        },
        ..pre
    })
}

/// The state after [`ManageApp::detail_move_down`].
pub open spec fn detail_move_down_post(pre: ManageApp, post: ManageApp) -> bool {
    &&& post == (ManageApp {
        detail_selected: if pre.detail_selected < DETAIL_FIELD_COUNT - 1 {
            (pre.detail_selected + 1) as usize
        } else {
            pre.detail_selected
        },
        ..pre
    })
}

/// The state after [`ManageApp::mod_list_move_up`].
pub open spec fn mod_list_move_up_post(pre: ManageApp, post: ManageApp) -> bool {
    &&& post == (ManageApp {
        mod_list: ModListState {
            selected: if pre.mod_list.selected > 0 {
                (pre.mod_list.selected - 1) as usize
            } else {
                0
            },
            ..pre.mod_list
        },
        ..pre
    })
}

/// The state after [`ManageApp::mod_list_move_down`].
pub open spec fn mod_list_move_down_post(pre: ManageApp, post: ManageApp) -> bool {
    &&& post == (ManageApp {
        mod_list: ModListState {
            selected: if pre.mod_list.selected + 1 < pre.mod_list.filtered_indices@.len() {
                (pre.mod_list.selected + 1) as usize
            } else {
                pre.mod_list.selected
            },
            ..pre.mod_list
        },
        ..pre
    })
}

/// The state after [`ManageApp::switch_to_detail`].
pub open spec fn switch_to_detail_post(pre: ManageApp, post: ManageApp) -> bool {
    &&& post == (ManageApp {
        focus: if pre.selected_spec() is Some {
            Focus::Detail
        } else {
            pre.focus
        },
        ..pre
    })
}

/// The state after [`ManageApp::switch_to_mod_list`].
pub open spec fn switch_to_mod_list_post(pre: ManageApp, post: ManageApp) -> bool {
    &&& post == (ManageApp { focus: Focus::ModList, ..pre })
}

/// The state after [`ManageApp::dep_move_up`].
pub open spec fn dep_move_up_post(pre: ManageApp, post: ManageApp) -> bool {
    &&& post == (ManageApp {
        dep_selected: if pre.dep_selected > 0 {
            (pre.dep_selected - 1) as usize
        } else {
            0
        },
        ..pre
    })
}

/// The state after [`ManageApp::dep_move_down`].
pub open spec fn dep_move_down_post(pre: ManageApp, post: ManageApp) -> bool {
    &&& post == (ManageApp {
        dep_selected: if pre.dep_selected + 1 < pre.dep_entries@.len() {
            (pre.dep_selected + 1) as usize
        } else {
            pre.dep_selected
        },
        ..pre
    })
}

/// The state after [`ManageApp::dep_tree_move_up`].
pub open spec fn dep_tree_move_up_post(pre: ManageApp, post: ManageApp) -> bool {
    &&& post == (ManageApp {
        dep_tree_scroll: if pre.dep_tree_scroll > 0 {
            (pre.dep_tree_scroll - 1) as usize
        } else {
            0
        },
        ..pre
    })
}

/// The state after [`ManageApp::dep_tree_move_down`].
pub open spec fn dep_tree_move_down_post(pre: ManageApp, post: ManageApp) -> bool {
    &&& post == (ManageApp { dep_tree_scroll: (pre.dep_tree_scroll + 1) as usize, ..pre })
}

/// The state after [`ManageApp::dep_toggle_mark`].
pub open spec fn dep_toggle_mark_post(pre: ManageApp, post: ManageApp) -> bool {
    &&& views_of_strings(post.dep_marks.marked@).no_duplicates()
    &&& post == (ManageApp { dep_marks: post.dep_marks, ..pre })
    &&& pre.dep_selected >= pre.dep_entries@.len() ==> post.dep_marks.marked_set()
        == pre.dep_marks.marked_set()
    &&& pre.dep_selected < pre.dep_entries@.len() ==> ({
        let e = pre.dep_entries@[pre.dep_selected as int];
        &&& e.installed ==> post.dep_marks.marked_set() == pre.dep_marks.marked_set()
        &&& !e.installed && pre.dep_marks.marked_set().contains(e.mod_id@) ==> post.dep_marks.marked_set()
            == pre.dep_marks.marked_set().remove(e.mod_id@)
        &&& !e.installed && !pre.dep_marks.marked_set().contains(e.mod_id@) ==> post.dep_marks.marked_set()
            == pre.dep_marks.marked_set().insert(e.mod_id@)
    })
}

/// The state after [`ManageApp::dep_toggle_all`].
pub open spec fn dep_toggle_all_post(pre: ManageApp, post: ManageApp) -> bool {
    &&& views_of_strings(post.dep_marks.marked@).no_duplicates()
    &&& post == (ManageApp { dep_marks: post.dep_marks, ..pre })
    &&& ({
        let rows = dep_rows(pre.dep_entries@);
        let unmarked = exists|i: int| 0 <= i < rows.len() && !(#[trigger] rows[i]).1
            && !pre.dep_marks.marked_set().contains(rows[i].0);
        &&& unmarked ==> post.dep_marks.marked_set() == pre.dep_marks.marked_set().union(
            Set::new(|x: Seq<char>| exists|i: int| 0 <= i < rows.len() && !(#[trigger] rows[i]).1 && rows[i].0 == x),
        )
        &&& !unmarked ==> post.dep_marks.marked_set() == Set::<Seq<char>>::empty()
    })
}

impl ManageApp {
    /// Moves the detail cursor up, stopping at the first row.
    pub fn detail_move_up(&mut self)
        ensures
            detail_move_up_post(*old(self), *final(self)),
    {
        if self.detail_selected > 0 {
            self.detail_selected -= 1;
        }
    }

    /// Moves the detail cursor down, stopping at the last row.
    pub fn detail_move_down(&mut self)
        ensures
            detail_move_down_post(*old(self), *final(self)),
    {
        if self.detail_selected < DETAIL_FIELD_COUNT - 1 {
            self.detail_selected += 1;
        }
    }

    /// Puts the detail cursor on a row.
    pub fn activate_field(&mut self, field: DetailField)
        ensures
            *final(self) == (ManageApp { detail_selected: field_index(field), ..*old(self) }),
            field_at(field_index(field) as int) == field,
    {
        self.detail_selected = match field {
            DetailField::Version => 0,
            DetailField::Env => 1,
            DetailField::Description => 2,
            DetailField::Categories => 3,
            DetailField::DepTree => 4,
            DetailField::Remove => 5,
            DetailField::UpdateCheck => 6,
        };
    }

    /// Moves the list cursor up, stopping at the first row.
    pub fn mod_list_move_up(&mut self)
        ensures
            mod_list_move_up_post(*old(self), *final(self)),
    {
        self.mod_list.move_up();
    }

    /// Moves the list cursor down, stopping at the last row.
    pub fn mod_list_move_down(&mut self)
        ensures
            mod_list_move_down_post(*old(self), *final(self)),
    {
        self.mod_list.move_down();
    }

    /// Gives the detail pane the keyboard when a mod is selected.
    pub fn switch_to_detail(&mut self)
        ensures
            switch_to_detail_post(*old(self), *final(self)),
    {
        if self.selected_mod().is_some() {
            self.focus = Focus::Detail;
        }
    }

    /// Gives the mod list the keyboard.
    pub fn switch_to_mod_list(&mut self)
        ensures
            switch_to_mod_list_post(*old(self), *final(self)),
    {
        self.focus = Focus::ModList;
    }

    /// Moves the dependency cursor up, stopping at the first row.
    pub fn dep_move_up(&mut self)
        ensures
            dep_move_up_post(*old(self), *final(self)),
    {
        if self.dep_selected > 0 {
            self.dep_selected -= 1;
        }
    }

    /// Moves the dependency cursor down, stopping at the last row.
    pub fn dep_move_down(&mut self)
        ensures
            dep_move_down_post(*old(self), *final(self)),
    {
        if self.dep_entries.len() > 0 && self.dep_selected < self.dep_entries.len() - 1 {
            self.dep_selected += 1;
        }
    }

    /// Scrolls the dependency tree up, stopping at the top.
    pub fn dep_tree_move_up(&mut self)
        ensures
            dep_tree_move_up_post(*old(self), *final(self)),
    {
        if self.dep_tree_scroll > 0 {
            self.dep_tree_scroll -= 1;
        }
    }

    /// Scrolls the dependency tree down.
    pub fn dep_tree_move_down(&mut self)
        requires
            old(self).dep_tree_scroll < usize::MAX,
        ensures
            dep_tree_move_down_post(*old(self), *final(self)),
    {
        self.dep_tree_scroll += 1;
    }

    /// Shows a status message.
    pub fn set_status(&mut self, kind: StatusKind, msg: String)
        ensures
            with_status(*old(self), *final(self), kind, msg@),
            final(self).status.message == Some((kind, msg)),
    {
        self.status.set_status(kind, msg);
    }

    /// One frame passes for the status message.
    pub fn tick_status(&mut self)
        ensures
            *final(self) == (ManageApp { status: final(self).status, ..*old(self) }),
            old(self).status.ticks > 0 ==> final(self).status.ticks == old(self).status.ticks - 1,
            old(self).status.ticks == 0 ==> final(self).status.ticks == 0,
            old(self).status.ticks == 1 ==> final(self).status.message is None,
            old(self).status.ticks != 1 ==> final(self).status.message == old(self).status.message,
    {
        self.status.tick_status();
    }

    /// Toggles the mark of the dependency under the cursor, unless it is
    /// installed.
    pub fn dep_toggle_mark(&mut self)
        requires
            views_of_strings(old(self).dep_marks.marked@).no_duplicates(),
        ensures
            dep_toggle_mark_post(*old(self), *final(self)),
    {
        if self.dep_selected < self.dep_entries.len() {
            let installed = self.dep_entries[self.dep_selected].installed;
            let id = self.dep_entries[self.dep_selected].mod_id.clone();
            self.dep_marks.toggle_mark(id.as_str(), installed);
        }
    }

    /// Marks every dependency that is not installed, or clears the marks
    /// when all of them are marked.
    pub fn dep_toggle_all(&mut self)
        requires
            views_of_strings(old(self).dep_marks.marked@).no_duplicates(),
        ensures
            dep_toggle_all_post(*old(self), *final(self)),
    {
        let mut rows: Vec<(String, bool)> = Vec::new();
        let mut i: usize = 0;
        while i < self.dep_entries.len()
            invariant
                i <= self.dep_entries@.len(),
                rows@.len() == i,
                forall|k: int| 0 <= k < i ==> (#[trigger] rows@[k]).0@ == self.dep_entries@[k].mod_id@
                    && rows@[k].1 == self.dep_entries@[k].installed,
            decreases self.dep_entries@.len() - i,
        {
            rows.push((self.dep_entries[i].mod_id.clone(), self.dep_entries[i].installed));
            i += 1;
        }
        let ghost rv = dep_rows(self.dep_entries@);
        proof {
            assert forall|k: int| 0 <= k < rows@.len() implies (#[trigger] rows@[k]).0@ == rv[k].0 && rows@[k].1 == rv[k].1 by {}
        }
        let ghost marks_before = self.dep_marks.marked_set();
        self.dep_marks.toggle_all(rows.as_slice());
        proof {
            let ex_rows = exists|i: int| 0 <= i < rows@.len() && !(#[trigger] rows@[i]).1 && !marks_before.contains(rows@[i].0@);
            let ex_rv = exists|i: int| 0 <= i < rv.len() && !(#[trigger] rv[i]).1 && !marks_before.contains(rv[i].0);
            assert(ex_rows == ex_rv) by {
                if ex_rows {
                    let i = choose|i: int| 0 <= i < rows@.len() && !(#[trigger] rows@[i]).1 && !marks_before.contains(rows@[i].0@);
                    assert(rv[i].0 == rows@[i].0@);
                }
                if ex_rv {
                    let i = choose|i: int| 0 <= i < rv.len() && !(#[trigger] rv[i]).1 && !marks_before.contains(rv[i].0);
                    assert(rv[i].0 == rows@[i].0@);
                }
            }
            let sa = Set::new(|x: Seq<char>| exists|i: int| 0 <= i < rows@.len() && !(#[trigger] rows@[i]).1 && rows@[i].0@ == x);
            let sb = Set::new(|x: Seq<char>| exists|i: int| 0 <= i < rv.len() && !(#[trigger] rv[i]).1 && rv[i].0 == x);
            assert forall|x: Seq<char>| #[trigger] sa.contains(x) <==> sb.contains(x) by {
                if sa.contains(x) {
                    let i = choose|i: int| 0 <= i < rows@.len() && !(#[trigger] rows@[i]).1 && rows@[i].0@ == x;
                    assert(rv[i].0 == rows@[i].0@);
                }
                if sb.contains(x) {
                    let i = choose|i: int| 0 <= i < rv.len() && !(#[trigger] rv[i]).1 && rv[i].0 == x;
                    assert(rv[i].0 == rows@[i].0@);
                }
            }
            assert(sa =~= sb);
        }
    }

    /// The label of the category filter: the category's name, or "all".
    pub fn category_filter_label(&self) -> (s: String)
        ensures
            s@ == match self.category_filter {
                CategoryFilter::Category(c) => if c < self.cats().len() {
                    self.cats()[c as int]
                } else {
                    "all"@
                },
                CategoryFilter::All => "all"@,
            },
    {
        match self.category_filter {
            CategoryFilter::All => String::from_str("all"),
            CategoryFilter::Category(c) => if c < self.all_categories.len() {
                self.all_categories[c].clone()
            } else {
                String::from_str("all")
            },
        }
    }

    /// Moves to the next category filter and recomputes the shown list.
    pub fn cycle_category_filter(&mut self)
        requires
            old(self).wf(),
        ensures
            final(self).wf(),
            refiltered(
                ManageApp {
                    category_filter: crate::manage::next_filter(old(self).category_filter, old(self).cats().len()),
                    ..*old(self)
                },
                *final(self),
            ),
    {
        self.category_filter = crate::manage::cycle_category_filter(self.category_filter, self.all_categories.len());
        self.update_filter();
    }

    /// Types a character into the search and recomputes the shown list.
    pub fn search_push_char(&mut self, c: char)
        requires
            old(self).wf(),
        ensures
            final(self).wf(),
            final(self).query@ == old(self).query@.push(c),
            refiltered(ManageApp { query: final(self).query, ..*old(self) }, *final(self)),
    {
        push_char(&mut self.query, c);
        self.update_filter();
    }

    /// Deletes the search's last character and recomputes the shown list.
    pub fn search_pop_char(&mut self)
        requires
            old(self).wf(),
        ensures
            final(self).wf(),
            final(self).query@ == if old(self).query@.len() > 0 {
                old(self).query@.drop_last()
            } else {
                old(self).query@
            },
            refiltered(ManageApp { query: final(self).query, ..*old(self) }, *final(self)),
    {
        let q = chars_of(self.query.as_str());
        if q.len() > 0 {
            let shorter = crate::text::sub_chars(q.as_slice(), 0, q.len() - 1);
            self.query = string_of(shorter.as_slice());
            assert(self.query@ =~= old(self).query@.drop_last());
        }
        self.update_filter();
    }
}

} // verus!

verus! {

/// A change to a mod's record that the terminal loop writes to disk.
pub enum SavedChange {
    Env(ModEnv),
    Version(String),
    Description,
    Categories,
    Update(String),
}

/// How writing a record went: the record could not be read, it was
/// written, or writing it failed with the given reason.
pub enum SaveOutcome {
    NotLoaded,
    Saved,
    Failed(String),
}

/// The picker row of a side.
pub open spec fn env_index(e: ModEnv) -> usize {
    match e {
        ModEnv::Both => 0,
        ModEnv::Client => 1,
        ModEnv::Server => 2,
    }
}

/// The side a picker row stands for; rows past the last mean both sides.
pub open spec fn env_at(i: usize) -> ModEnv {
    if i == 1 {
        ModEnv::Client
    } else if i == 2 {
        ModEnv::Server
    } else {
        ModEnv::Both
    }
}

/// The lines the description editor opens with: the description's lines,
/// or one empty line when there is none.
pub open spec fn editor_lines(desc: Seq<char>) -> Seq<Seq<char>> {
    if desc.len() == 0 {
        seq![Seq::<char>::empty()]
    } else {
        crate::text::lines_spec(desc)
    }
}

/// The message shown after a record was written.
pub open spec fn saved_message(c: SavedChange) -> Seq<char> {
    match c {
        SavedChange::Env(e) => "Env updated to "@ + crate::types::env_name(e),
        SavedChange::Version(v) => "Version updated to "@ + v@,
        SavedChange::Description => "Description updated"@,
        SavedChange::Categories => "Categories updated"@,
        SavedChange::Update(v) => "Updated to v"@ + v@,
    }
}

fn strings_to_chars(v: &Vec<String>) -> (r: Vec<Vec<char>>)
    ensures
        crate::text::views(r@) == views_of_strings(v@),
{
    let mut r: Vec<Vec<char>> = Vec::new();
    let mut i: usize = 0;
    while i < v.len()
        invariant
            i <= v.len(),
            r@.len() == i,
            crate::text::views(r@) == views_of_strings(v@).take(i as int),
        decreases v.len() - i,
    {
        let ghost before = r@;
        r.push(chars_of(v[i].as_str()));
        assert forall|k: int| 0 <= k < i + 1 implies #[trigger] crate::text::views(r@)[k] == views_of_strings(v@).take(i + 1)[k] by {
            if k < i {
                assert(r@[k] == before[k]);
                assert(crate::text::views(before)[k] == views_of_strings(v@).take(i as int)[k]);
            }
        }
        assert(crate::text::views(r@) =~= views_of_strings(v@).take(i + 1));
        i += 1;
    }
    assert(views_of_strings(v@).take(v.len() as int) =~= views_of_strings(v@));
    r
}

fn chars_to_strings(v: &Vec<Vec<char>>) -> (r: Vec<String>)
    ensures
        views_of_strings(r@) == crate::text::views(v@),
{
    let mut r: Vec<String> = Vec::new();
    let mut i: usize = 0;
    while i < v.len()
        invariant
            i <= v.len(),
            r@.len() == i,
            views_of_strings(r@) == crate::text::views(v@).take(i as int),
        decreases v.len() - i,
    {
        let ghost before = r@;
        r.push(string_of(v[i].as_slice()));
        assert forall|k: int| 0 <= k < i + 1 implies #[trigger] views_of_strings(r@)[k] == crate::text::views(v@).take(i + 1)[k] by {
            if k < i {
                assert(r@[k] == before[k]);
                assert(views_of_strings(before)[k] == crate::text::views(v@).take(i as int)[k]);
            }
        }
        assert(views_of_strings(r@) =~= crate::text::views(v@).take(i + 1));
        i += 1;
    }
    assert(crate::text::views(v@).take(v.len() as int) =~= crate::text::views(v@));
    r
}

impl ManageApp {
    /// Opens the side picker on the selected mod's side.
    pub fn start_edit_env(&mut self)
        requires
            old(self).wf(),
        ensures
            start_edit_env_post(*old(self), *final(self)),
    {
        if let Some(i) = self.selected_mod() {
            self.env_picker_selected = match self.mods[i].env {
                ModEnv::Both => 0,
                ModEnv::Client => 1,
                ModEnv::Server => 2,
            };
            self.mode = Mode::EditEnv;
        }
    }

    /// Opens the version list for the selected mod and asks for its
    /// versions; unresolved and URL-sourced mods get a warning instead.
    pub fn start_edit_version(&mut self)
        requires
            old(self).wf(),
        ensures
            start_edit_version_post(*old(self), *final(self)),
    {
        if let Some(i) = self.selected_mod() {
            if self.mods[i].unresolved {
                self.set_status(StatusKind::Warning, String::from_str("Cannot change version for unresolved mods"));
            } else if crate::update::needs_update_check(&self.mods[i]) {
                self.version_list = Vec::new();
                self.version_list_selected = 0;
                self.version_list_scroll = 0;
                self.version_loading = true;
                self.pending_async = Some(AsyncOp::FetchVersions);
                self.mode = Mode::EditVersion;
            } else {
                self.set_status(StatusKind::Warning, String::from_str("Cannot change version for URL-sourced mods"));
            }
        }
    }

    /// Gives the selected mod the picked version and closes the list;
    /// returns the mod whose record is to be written, with the version.
    pub fn confirm_edit_version(&mut self) -> (r: Option<(usize, String)>)
        requires
            old(self).wf(),
        ensures
            final(self).wf(),
            confirm_edit_version_post(*old(self), *final(self), r),
    {
        let mut r: Option<(usize, String)> = None;
        if self.version_list_selected < self.version_list.len() {
            if let Some(i) = self.selected_mod() {
                let k = self.version_list_selected;
                let version = self.version_list[k].version.clone();
                let url = self.version_list[k].download_url.clone();
                let hash = match &self.version_list[k].hash {
                    Some(h) => Some(h.clone()),
                    None => None,
                };
                let hash_type = self.version_list[k].hash_type;
                self.mods[i].version = version.clone();
                self.mods[i].download_url = url;
                self.mods[i].hash = hash;
                self.mods[i].hash_type = hash_type;
                r = Some((i, version));
            }
        }
        self.mode = Mode::Normal;
        self.version_loading = false;
        self.pending_async = None;
        r
    }

    /// Opens the description editor on the selected mod's description;
    /// returns the lines the editor starts with.
    pub fn start_edit_description(&mut self) -> (lines: Option<Vec<String>>)
        requires
            old(self).wf(),
        ensures
            start_edit_description_post(*old(self), *final(self), lines),
    {
        match self.selected_mod() {
            Some(i) => {
                let d = chars_of(self.mods[i].description.as_str());
                let lines = if d.len() == 0 {
                    let mut one: Vec<String> = Vec::new();
                    one.push(String::new());
                    assert(views_of_strings(one@) =~= seq![Seq::<char>::empty()]);
                    one
                } else {
                    chars_to_strings(&crate::text::lines_chars(d.as_slice()))
                };
                self.editing_description = true;
                self.mode = Mode::EditDescription;
                Some(lines)
            },
            None => None,
        }
    }

    /// Closes the description editor: the selected mod gets the editor's
    /// lines joined with newlines (nothing when no editor was open);
    /// returns the mod whose record is to be written.
    pub fn confirm_edit_description(&mut self, lines: &Vec<String>) -> (r: Option<usize>)
        requires
            old(self).wf(),
        ensures
            final(self).wf(),
            r == old(self).selected_spec(),
            *final(self) == (ManageApp {
                mods: final(self).mods,
                editing_description: false,
                mode: Mode::Normal,
                ..*old(self)
            }),
            match old(self).selected_spec() {
                Some(i) => {
                    &&& final(self).mods@.len() == old(self).mods@.len()
                    &&& forall|k: int| 0 <= k < old(self).mods@.len() && k != i ==> #[trigger] final(self).mods@[k] == old(self).mods@[k]
                    &&& final(self).mods@[i as int] == (TrackedMod {
                        description: final(self).mods@[i as int].description,
                        ..old(self).mods@[i as int]
                    })
                    &&& final(self).mods@[i as int].description@ == if old(self).editing_description {
                        crate::text::join_with(views_of_strings(lines@), "\n"@)
                    } else {
                        Seq::<char>::empty()
                    }
                },
                None => final(self).mods@ == old(self).mods@,
            },
    {
        let desc = if self.editing_description {
            let parts = strings_to_chars(lines);
            let nl = ['\n'];
            proof {
                reveal_strlit("\n");
            }
            assert(nl@ =~= "\n"@);
            let joined = crate::text::join_chars(parts.as_slice(), &nl);
            string_of(joined.as_slice())
        } else {
            String::new()
        };
        let r = self.selected_mod();
        if let Some(i) = r {
            self.mods[i].description = desc;
        }
        self.editing_description = false;
        self.mode = Mode::Normal;
        r
    }

    /// Opens the category picker for the selected mod.
    pub fn start_edit_categories(&mut self)
        ensures
            start_edit_categories_post(*old(self), *final(self)),
    {
        if self.selected_mod().is_some() {
            self.category_picker_selected = 0;
            self.category_picker_scroll = 0;
            self.category_new_input = String::new();
            self.category_new_mode = false;
            self.mode = Mode::EditCategories;
        }
    }

    /// Closes the category picker: the category list is collected anew from
    /// the mods; returns the mod whose record is to be written.
    pub fn confirm_edit_categories(&mut self) -> (r: Option<usize>)
        requires
            old(self).wf(),
        ensures
            final(self).wf(),
            confirm_edit_categories_post(*old(self), *final(self), r),
    {
        self.all_categories = collect_categories(&self.mods);
        self.mode = Mode::Normal;
        self.selected_mod()
    }

    /// Adds the category to the selected mod, keeping its categories
    /// sorted, or removes its first occurrence when it has it already.
    pub fn toggle_category_for_selected(&mut self, category: &str)
        requires
            old(self).wf(),
        ensures
            final(self).wf(),
            toggle_category_for_selected_post(*old(self), *final(self), category@),
    {
        if let Some(i) = self.selected_mod() {
            let cats = toggled_categories(&self.mods[i].categories, category);
            self.set_mod_categories(i, cats);
        }
    }

    fn set_mod_categories(&mut self, i: usize, cats: Vec<String>)
        requires
            old(self).wf(),
            i < old(self).mods@.len(),
        ensures
            final(self).wf(),
            final(self).mods@ == old(self).mods@.update(i as int, TrackedMod { categories: cats, ..old(self).mods@[i as int] }),
            *final(self) == (ManageApp { mods: final(self).mods, ..*old(self) }),
    {
        self.mods[i].categories = cats;
    }

    /// Adds a new category (trimmed; nothing when blank) to the selected
    /// mod unless it has it, keeping the mod's categories sorted, and to the
    /// category list unless it is there.
    pub fn add_new_category(&mut self, category: &str)
        requires
            old(self).wf(),
        ensures
            final(self).wf(),
            add_new_category_post(*old(self), *final(self), category@),
    {
        let t = trim_chars(chars_of(category).as_slice());
        if t.len() == 0 {
            return;
        }
        let cat = string_of(t.as_slice());
        if let Some(i) = self.selected_mod() {
            self.add_category_to_mod(i, &cat);
        }
        insert_sorted_unique(&mut self.all_categories, cat);
    }

    /// Adds a category to a mod unless it has it, keeping the mod's
    /// categories sorted.
    fn add_category_to_mod(&mut self, i: usize, cat: &String)
        requires
            old(self).wf(),
            i < old(self).mods@.len(),
        ensures
            final(self).wf(),
            *final(self) == (ManageApp { mods: final(self).mods, ..*old(self) }),
            final(self).mods@.len() == old(self).mods@.len(),
            forall|k: int| 0 <= k < old(self).mods@.len() && k != i ==> #[trigger] final(self).mods@[k] == old(self).mods@[k],
            ({
                let before = views_of_strings(old(self).mods@[i as int].categories@);
                let after = views_of_strings(final(self).mods@[i as int].categories@);
                &&& final(self).mods@[i as int] == (TrackedMod {
                    categories: final(self).mods@[i as int].categories,
                    ..old(self).mods@[i as int]
                })
                &&& before.contains(cat@) ==> final(self).mods@[i as int] == old(self).mods@[i as int]
                &&& !before.contains(cat@) ==> crate::fuzzy::sorted_texts(after) && after.to_multiset()
                    == before.push(cat@).to_multiset()
            }),
    {
        if !contains_text(&self.mods[i].categories, cat.as_str()) {
            let mut cats = self.mods[i].categories.clone();
            let ghost before = views_of_strings(self.mods@[i as int].categories@);
            assert(views_of_strings(cats@) == before);
            cats.push(cat.clone());
            assert(views_of_strings(cats@) =~= before.push(cat@));
            self.mods[i].categories = crate::fuzzy::sort_texts(&cats);
        }
    }

    /// Shows the dependency tree of the selected mod (five levels deep),
    /// the mods that depend on it, and the tree's rows.
    pub fn start_dep_tree(&mut self)
        requires
            old(self).wf(),
        ensures
            final(self).wf(),
            start_dep_tree_post(*old(self), *final(self)),
    {
        if let Some(i) = self.selected_mod() {
            let tree = build_dep_tree(self.mods.as_slice(), self.mods[i].id.as_str(), &self.mods[i].source, 5);
            proof {
                crate::deps::lemma_tree_loop_free_and_bounded(
                    self.mods@,
                    self.mods@[i as int].id@,
                    self.mods@[i as int].source@,
                    None,
                    5,
                    Seq::empty(),
                );
            }
            let reverse = crate::deps::find_reverse_dependents(
                self.mods.as_slice(),
                self.mods[i].id.as_str(),
                &self.mods[i].source,
            );
            let entries = flatten_dep_tree(&tree, 0);
            self.dep_tree = tree;
            self.dep_reverse = reverse;
            self.dep_entries = entries;
            self.dep_selected = 0;
            self.dep_scroll = 0;
            self.dep_marks = DepMarks { marked: Vec::new() };
            self.dep_tree_scroll = 0;
            self.mode = Mode::DepTree;
            proof {
                assert(views_of_strings(self.dep_marks.marked@) =~= Seq::<Seq<char>>::empty());
            }
        }
    }

    /// Opens the list of dependencies to install, with nothing marked.
    pub fn start_install_deps(&mut self)
        ensures
            start_install_deps_post(*old(self), *final(self)),
    {
        self.mode = Mode::InstallDeps;
        self.dep_selected = 0;
        self.dep_scroll = 0;
        self.dep_marks = DepMarks { marked: Vec::new() };
        assert(views_of_strings(self.dep_marks.marked@) =~= Seq::<Seq<char>>::empty());
    }

    /// Asks to remove the selected mod, listing the mods that depend on it.
    pub fn start_remove(&mut self)
        requires
            old(self).wf(),
        ensures
            start_remove_post(*old(self), *final(self)),
    {
        if let Some(i) = self.selected_mod() {
            self.remove_dependents = crate::deps::find_reverse_dependents(
                self.mods.as_slice(),
                self.mods[i].id.as_str(),
                &self.mods[i].source,
            );
            self.mode = Mode::RemoveConfirm;
        }
    }

    /// Asks for an update check of the selected mod; unresolved and
    /// URL-sourced mods get a warning instead.
    pub fn start_update_check(&mut self)
        requires
            old(self).wf(),
        ensures
            start_update_check_post(*old(self), *final(self)),
    {
        if let Some(i) = self.selected_mod() {
            if self.mods[i].unresolved {
                self.set_status(StatusKind::Warning, String::from_str("Cannot check updates for unresolved mods"));
            } else if crate::update::needs_update_check(&self.mods[i]) {
                self.update_loading = true;
                self.update_result = None;
                self.update_error = None;
                self.pending_async = Some(AsyncOp::CheckUpdate);
                self.mode = Mode::UpdateCheck;
            } else {
                self.set_status(StatusKind::Warning, String::from_str("Cannot check updates for URL-sourced mods"));
            }
        }
    }

    /// Applies the found update to the selected mod and closes the dialog;
    /// returns the mod whose record is to be written, with the new version.
    pub fn apply_update(&mut self) -> (r: Option<(usize, String)>)
        requires
            old(self).wf(),
        ensures
            final(self).wf(),
            apply_update_post(*old(self), *final(self), r),
    {
        let update = self.update_result.take();
        let mut r: Option<(usize, String)> = None;
        if let Some(u) = update {
            if let Some(i) = self.selected_mod() {
                let v = u.latest_version.clone();
                self.mods[i].version = u.latest_version;
                self.mods[i].download_url = u.download_url;
                self.mods[i].hash = u.hash;
                self.mods[i].hash_type = u.hash_type;
                r = Some((i, v));
            }
        }
        self.mode = Mode::Normal;
        self.update_loading = false;
        self.pending_async = None;
        r
    }

    /// Reports how writing a record went: a success or failure message;
    /// nothing when the record could not be read.
    pub fn finish_save(&mut self, change: &SavedChange, outcome: SaveOutcome)
        ensures
            match outcome {
                SaveOutcome::NotLoaded => *final(self) == *old(self),
                SaveOutcome::Saved => with_status(*old(self), *final(self), StatusKind::Success, saved_message(*change)),
                SaveOutcome::Failed(e) => with_status(*old(self), *final(self), StatusKind::Error, "Failed to save: "@ + e@),
            },
    {
        match outcome {
            SaveOutcome::NotLoaded => {},
            SaveOutcome::Saved => {
                let msg = match change {
                    SavedChange::Env(e) => {
                        let mut m = String::from_str("Env updated to ");
                        m.append(e.as_str());
                        m
                    },
                    SavedChange::Version(v) => {
                        let mut m = String::from_str("Version updated to ");
                        m.append(v.as_str());
                        m
                    },
                    SavedChange::Description => String::from_str("Description updated"),
                    SavedChange::Categories => String::from_str("Categories updated"),
                    SavedChange::Update(v) => {
                        let mut m = String::from_str("Updated to v");
                        m.append(v.as_str());
                        m
                    },
                };
                self.set_status(StatusKind::Success, msg);
            },
            SaveOutcome::Failed(e) => {
                let mut m = String::from_str("Failed to save: ");
                m.append(e.as_str());
                self.set_status(StatusKind::Error, m);
            },
        }
    }

    /// Sets the selected mod's side to the picked one and closes the
    /// picker; returns the mod whose record is to be written.
    pub fn confirm_edit_env(&mut self) -> (r: Option<usize>)
        requires
            old(self).wf(),
        ensures
            final(self).wf(),
            confirm_edit_env_post(*old(self), *final(self), r),
    {
        let env = match self.env_picker_selected {
            1 => ModEnv::Client,
            2 => ModEnv::Server,
            _ => ModEnv::Both,
        };
        let r = self.selected_mod();
        if let Some(i) = r {
            self.mods[i].env = env;
        }
        self.mode = Mode::Normal;
        r
    }
}

} // verus!

verus! {

/// The mods without those with the given id, in order.
pub open spec fn without_id(mods: Seq<TrackedMod>, id: Seq<char>) -> Seq<TrackedMod>
    decreases mods.len(),
{
    if mods.len() == 0 {
        Seq::empty()
    } else {
        without_id(mods.drop_last(), id) + if mods.last().id@ == id {
            Seq::empty()
        } else {
            seq![mods.last()]
        }
    }
}

proof fn lemma_without_id_step(mods: Seq<TrackedMod>, j: int, id: Seq<char>)
    requires
        0 <= j < mods.len(),
    ensures
        without_id(mods.take(j + 1), id) == without_id(mods.take(j), id) + if mods[j].id@ == id {
            Seq::empty()
        } else {
            seq![mods[j]]
        },
{
    assert(mods.take(j + 1).drop_last() =~= mods.take(j));
    assert(mods.take(j + 1).last() == mods[j]);
}

proof fn lemma_without_id_subset(mods: Seq<TrackedMod>, id: Seq<char>)
    ensures
        forall|k: int| 0 <= k < without_id(mods, id).len() ==> mods.contains(#[trigger] without_id(mods, id)[k]),
    decreases mods.len(),
{
    if mods.len() > 0 {
        lemma_without_id_subset(mods.drop_last(), id);
        let w = without_id(mods, id);
        let p = without_id(mods.drop_last(), id);
        assert forall|k: int| 0 <= k < w.len() implies mods.contains(#[trigger] w[k]) by {
            if k < p.len() {
                assert(w[k] == p[k]);
                assert(mods.drop_last().contains(p[k]));
                let t = choose|t: int| 0 <= t < mods.drop_last().len() && mods.drop_last()[t] == p[k];
                assert(mods[t] == p[k]);
            } else {
                assert(w[k] == mods.last());
                assert(mods[mods.len() - 1] == mods.last());
            }
        }
    }
}

fn remove_mods_with_id(mods: &mut Vec<TrackedMod>, id: &str)
    ensures
        final(mods)@ == without_id(old(mods)@, id@),
{
    let ghost orig = mods@;
    let mut k: usize = 0;
    let ghost mut j: int = 0;
    assert(orig.take(0) =~= Seq::<TrackedMod>::empty());
    assert(orig.skip(0) =~= orig);
    while k < mods.len()
        invariant
            0 <= j <= orig.len(),
            k <= mods@.len(),
            mods@.subrange(0, k as int) == without_id(orig.take(j), id@),
            mods@.subrange(k as int, mods@.len() as int) == orig.skip(j),
            mods@.len() - k == orig.len() - j,
        decreases mods@.len() - k,
    {
        proof {
            assert(orig.skip(j)[0] == orig[j]);
            assert(mods@[k as int] == mods@.subrange(k as int, mods@.len() as int)[0]);
            lemma_without_id_step(orig, j, id@);
        }
        if str_eq(mods[k].id.as_str(), id) {
            let ghost before = mods@;
            mods.remove(k);
            proof {
                assert(mods@.subrange(0, k as int) =~= before.subrange(0, k as int));
                let tail = before.subrange(k as int, before.len() as int);
                assert(mods@ =~= before.remove(k as int));
                assert forall|t: int| 0 <= t < mods@.len() - k implies #[trigger] mods@.subrange(k as int, mods@.len() as int)[t]
                    == orig.skip(j + 1)[t] by {
                    assert(mods@[k + t] == before[k + t + 1]);
                    assert(tail[t + 1] == before[k + t + 1]);
                    assert(orig.skip(j)[t + 1] == orig[j + t + 1]);
                }
                assert(mods@.subrange(k as int, mods@.len() as int) =~= orig.skip(j + 1));
                j = j + 1;
            }
        } else {
            proof {
                assert(mods@.subrange(0, k + 1) =~= mods@.subrange(0, k as int).push(mods@[k as int]));
                let tail = mods@.subrange(k as int, mods@.len() as int);
                assert forall|t: int| 0 <= t < mods@.len() - k - 1 implies #[trigger] mods@.subrange(k + 1, mods@.len() as int)[t]
                    == orig.skip(j + 1)[t] by {
                    assert(tail[t + 1] == mods@[k + 1 + t]);
                    assert(orig.skip(j)[t + 1] == orig[j + t + 1]);
                }
                assert(mods@.subrange(k + 1, mods@.len() as int) =~= orig.skip(j + 1));
                j = j + 1;
            }
            k += 1;
        }
    }
    proof {
        assert(orig.skip(j).len() == 0);
        assert(orig.take(j) =~= orig);
        assert(mods@.subrange(0, k as int) =~= mods@);
    }
}

/// The dependencies to install: the rows that are marked and not installed,
/// as (id, source), in row order.
pub open spec fn marked_rows(entries: Seq<DepEntry>, marked: Set<Seq<char>>) -> Seq<(Seq<char>, SourceView)>
    decreases entries.len(),
{
    if entries.len() == 0 {
        Seq::empty()
    } else {
        let e = entries.last();
        marked_rows(entries.drop_last(), marked) + if !e.installed && marked.contains(e.mod_id@) {
            seq![(e.mod_id@, e.source@)]
        } else {
            Seq::empty()
        }
    }
}

impl ManageApp {
    /// Asks to remove the selected mod: returns it for the terminal loop to
    /// remove; with none selected, reports the failure and closes the dialog.
    pub fn confirm_remove(&mut self) -> (r: Option<usize>)
        requires
            old(self).wf(),
        ensures
            confirm_remove_post(*old(self), *final(self), r),
    {
        let r = self.selected_mod();
        if r.is_none() {
            self.set_status(StatusKind::Error, String::from_str("Failed to remove mod"));
            self.mode = Mode::Normal;
        }
        r
    }

    /// After the terminal loop tried to remove mod `index`: when it was
    /// removed, the mods with its id leave the list, the shown list is
    /// recomputed and a message names it; otherwise the failure is
    /// reported. Either way the dialog closes. Returns whether it was removed.
    pub fn finish_remove(&mut self, index: usize, removed: bool) -> (ok: bool)
        requires
            old(self).wf(),
            index < old(self).mods@.len(),
        ensures
            final(self).wf(),
            ok == removed,
            !removed ==> with_status(ManageApp { mode: Mode::Normal, ..*old(self) }, *final(self), StatusKind::Error, "Failed to remove mod"@),
            removed ==> {
                &&& final(self).mods@ == without_id(old(self).mods@, old(self).mods@[index as int].id@)
                &&& is_shown_list(final(self).mod_list.filtered_indices@, final(self).mods@, old(self).query@, old(self).cats(), old(self).category_filter)
                &&& final(self).mod_list.selected == clamped(old(self).mod_list.selected, final(self).mod_list.filtered_indices@.len())
                &&& final(self).mod_list.scroll_offset == 0
                &&& status_shows(*final(self), StatusKind::Success, "Removed "@ + old(self).mods@[index as int].name@)
                &&& *final(self) == (ManageApp {
                    mods: final(self).mods,
                    mod_list: final(self).mod_list,
                    status: final(self).status,
                    mode: Mode::Normal,
                    focus: Focus::ModList,
                    ..*old(self)
                })
            },
    {
        if !removed {
            self.set_status(StatusKind::Error, String::from_str("Failed to remove mod"));
            self.mode = Mode::Normal;
            return false;
        }
        let id = self.mods[index].id.clone();
        let mut msg = String::from_str("Removed ");
        msg.append(self.mods[index].name.as_str());
        let ghost before = self.mods@;
        remove_mods_with_id(&mut self.mods, id.as_str());
        proof {
            lemma_without_id_subset(before, id@);
            assert forall|t: int| 0 <= t < self.mods@.len() implies (#[trigger] self.mods@[t]).name@.len() <= u32::MAX by {
                assert(before.contains(self.mods@[t]));
                let q = choose|q: int| 0 <= q < before.len() && before[q] == self.mods@[t];
            }
        }
        self.mod_list.filtered_indices = Vec::new();
        self.update_filter();
        self.set_status(StatusKind::Success, msg);
        self.mode = Mode::Normal;
        self.focus = Focus::ModList;
        true
    }

    /// The marked dependencies that are not installed, as (id, source).
    pub fn marked_deps(&self) -> (r: Vec<(String, ModSource)>)
        ensures
            r@.map_values(|p: (String, ModSource)| (p.0@, p.1@)) == marked_rows(self.dep_entries@, self.dep_marks.marked_set()),
    {
        let mut r: Vec<(String, ModSource)> = Vec::new();
        let mut i: usize = 0;
        while i < self.dep_entries.len()
            invariant
                i <= self.dep_entries@.len(),
                r@.map_values(|p: (String, ModSource)| (p.0@, p.1@)) == marked_rows(
                    self.dep_entries@.take(i as int),
                    self.dep_marks.marked_set(),
                ),
            decreases self.dep_entries@.len() - i,
        {
            let ghost t = self.dep_entries@.take(i + 1);
            proof {
                assert(t.drop_last() =~= self.dep_entries@.take(i as int));
                assert(t.last() == self.dep_entries@[i as int]);
            }
            let e = &self.dep_entries[i];
            let ghost before = r@;
            if !e.installed && contains_text(&self.dep_marks.marked, e.mod_id.as_str()) {
                r.push((e.mod_id.clone(), e.source.clone()));
                assert(r@.map_values(|p: (String, ModSource)| (p.0@, p.1@)) =~= before.map_values(
                    |p: (String, ModSource)| (p.0@, p.1@),
                ) + seq![(e.mod_id@, e.source@)]);
            } else {
                assert(marked_rows(t, self.dep_marks.marked_set()) =~= marked_rows(
                    self.dep_entries@.take(i as int),
                    self.dep_marks.marked_set(),
                ));
            }
            i += 1;
        }
        assert(self.dep_entries@.take(self.dep_entries@.len() as int) =~= self.dep_entries@);
        r
    }
}

} // verus!

verus! {

/// The state after the versions of the selected mod arrived.
pub open spec fn versions_post(pre: ManageApp, post: ManageApp, res: Result<Vec<ModVersion>, String>) -> bool {
    if pre.mode != Mode::EditVersion {
        post == pre
    } else {
        match res {
            Ok(v) => post == (ManageApp { version_list: v, version_list_selected: 0, version_loading: false, ..pre }),
            Err(e) => with_status(
                ManageApp { version_loading: false, pending_async: None, mode: Mode::Normal, ..pre },
                post,
                StatusKind::Error,
                "Failed to fetch versions: "@ + e@,
            ),
        }
    }
}

/// The state after an update check finished.
pub open spec fn update_check_post(pre: ManageApp, post: ManageApp, res: Result<Option<ModUpdate>, String>) -> bool {
    let mid = if pre.mode == Mode::InstallDeps || pre.mode == Mode::DepTree {
        ManageApp { dep_installing: false, pending_async: None, ..pre }
    } else {
        pre
    };
    if pre.mode != Mode::UpdateCheck {
        post == mid
    } else {
        match res {
            Ok(u) => post == (ManageApp { update_loading: false, update_result: u, ..mid }),
            Err(e) => post == (ManageApp { update_loading: false, update_error: Some(e), pending_async: None, ..mid }),
        }
    }
}

/// The state after an installation of dependencies finished.
pub open spec fn install_post(pre: ManageApp, post: ManageApp, res: Result<Vec<String>, String>) -> bool {
    if pre.mode != Mode::InstallProgress {
        post == pre
    } else {
        let mid = ManageApp { dep_installing: false, pending_async: None, dep_output_scroll: 0, ..pre };
        match res {
            Ok(installed) => {
                &&& post.dep_marks.marked_set() == pre.dep_marks.marked_set().difference(views_of_strings(installed@).to_set())
                &&& views_of_strings(post.dep_output@) == seq![
                    "Successfully installed "@ + crate::text::decimal(installed@.len()) + " dep(s)."@,
                ]
                &&& status_shows(post, StatusKind::Success, "Installed "@ + crate::text::decimal(installed@.len()) + " dep(s)"@)
                &&& post == (ManageApp { dep_marks: post.dep_marks, dep_output: post.dep_output, status: post.status, ..mid })
            },
            Err(out) => {
                &&& views_of_strings(post.dep_output@) == if out@.len() == 0 {
                    seq!["Install failed."@]
                } else {
                    crate::text::lines_spec(out@)
                }
                &&& with_status(ManageApp { dep_output: post.dep_output, ..mid }, post, StatusKind::Error, "Install failed"@)
            },
        }
    }
}

impl ManageApp {
    /// Takes in the outcome of a background task. Versions fill the version
    /// list while it is open (a failure closes it with a message); an update
    /// check fills the update dialog while it is open; installed
    /// dependencies lose their marks and the progress pane reports the
    /// outcome while it is open. Outcomes for a closed pane are dropped.
    pub fn handle_async_result(&mut self, result: AsyncResult)
        requires
            old(self).wf(),
        ensures
            final(self).wf(),
            match result {
                AsyncResult::Versions(res) => versions_post(*old(self), *final(self), res),
                AsyncResult::UpdateCheck(res) => update_check_post(*old(self), *final(self), res),
                AsyncResult::InstallDeps(res) => install_post(*old(self), *final(self), res),
            },
    {
        match result {
            AsyncResult::Versions(res) => self.on_versions(res),
            AsyncResult::UpdateCheck(res) => self.on_update_check(res),
            AsyncResult::InstallDeps(res) => self.on_install_result(res),
        }
    }

    fn on_versions(&mut self, res: Result<Vec<ModVersion>, String>)
        requires
            old(self).wf(),
        ensures
            final(self).wf(),
            versions_post(*old(self), *final(self), res),
    {
        if self.mode == Mode::EditVersion {
            match res {
                Ok(v) => {
                    self.version_list = v;
                    self.version_list_selected = 0;
                    self.version_loading = false;
                },
                Err(e) => {
                    self.version_loading = false;
                    self.pending_async = None;
                    self.mode = Mode::Normal;
                    let mut m = String::from_str("Failed to fetch versions: ");
                    m.append(e.as_str());
                    self.set_status(StatusKind::Error, m);
                },
            }
        }
    }

    fn on_update_check(&mut self, res: Result<Option<ModUpdate>, String>)
        requires
            old(self).wf(),
        ensures
            final(self).wf(),
            update_check_post(*old(self), *final(self), res),
    {
        if self.mode == Mode::InstallDeps || self.mode == Mode::DepTree {
            self.dep_installing = false;
            self.pending_async = None;
        }
        if self.mode == Mode::UpdateCheck {
            self.update_loading = false;
            match res {
                Ok(u) => {
                    self.update_result = u;
                },
                Err(e) => {
                    self.update_error = Some(e);
                    self.pending_async = None;
                },
            }
        }
    }

    fn unmark_all(&mut self, installed: &Vec<String>)
        requires
            old(self).wf(),
        ensures
            final(self).wf(),
            final(self).dep_marks.marked_set() == old(self).dep_marks.marked_set().difference(
                views_of_strings(installed@).to_set(),
            ),
            *final(self) == (ManageApp { dep_marks: final(self).dep_marks, ..*old(self) }),
    {
        let ghost start = self.dep_marks.marked_set();
        let ghost pre = *self;
        let mut k: usize = 0;
        proof {
            assert(views_of_strings(installed@.take(0)).to_set() =~= Set::<Seq<char>>::empty());
            assert(start.difference(Set::<Seq<char>>::empty()) =~= start);
        }
        while k < installed.len()
            invariant
                k <= installed@.len(),
                pre.wf(),
                *self == (ManageApp { dep_marks: self.dep_marks, ..pre }),
                views_of_strings(self.dep_marks.marked@).no_duplicates(),
                self.dep_marks.marked_set() == start.difference(views_of_strings(installed@.take(k as int)).to_set()),
            decreases installed@.len() - k,
        {
            self.dep_marks.unmark(installed[k].as_str());
            proof {
                let a = views_of_strings(installed@.take(k as int));
                let b = views_of_strings(installed@.take(k + 1));
                assert(b =~= a.push(installed@[k as int]@));
                assert forall|x: Seq<char>| #[trigger] b.to_set().contains(x) <==> a.to_set().insert(installed@[k as int]@).contains(x) by {
                    if b.contains(x) {
                        let t = choose|t: int| 0 <= t < b.len() && b[t] == x;
                        if t < k {
                            assert(a[t] == x);
                        }
                    }
                    if a.contains(x) {
                        let t = choose|t: int| 0 <= t < a.len() && a[t] == x;
                        assert(b[t] == x);
                    }
                    if x == installed@[k as int]@ {
                        assert(b[k as int] == x);
                    }
                }
                assert(self.dep_marks.marked_set() =~= start.difference(b.to_set()));
            }
            k += 1;
        }
        assert(installed@.take(installed@.len() as int) =~= installed@);
    }

    fn on_install_result(&mut self, res: Result<Vec<String>, String>)
        requires
            old(self).wf(),
        ensures
            final(self).wf(),
            install_post(*old(self), *final(self), res),
    {
        if self.mode != Mode::InstallProgress {
            return;
        }
        self.dep_installing = false;
        self.pending_async = None;
        self.dep_output_scroll = 0;
        match res {
            Ok(installed) => {
                self.unmark_all(&installed);
                let count = crate::text::u64_to_decimal(installed.len() as u64);
                let mut line = String::from_str("Successfully installed ");
                line.append(count.as_str());
                line.append(" dep(s).");
                let mut out: Vec<String> = Vec::new();
                out.push(line);
                assert(views_of_strings(out@) =~= seq![out@[0]@]);
                self.dep_output = out;
                let mut m = String::from_str("Installed ");
                m.append(count.as_str());
                m.append(" dep(s)");
                self.set_status(StatusKind::Success, m);
            },
            Err(text) => {
                if text.as_str().is_empty() {
                    let mut out: Vec<String> = Vec::new();
                    out.push(String::from_str("Install failed."));
                    assert(views_of_strings(out@) =~= seq!["Install failed."@]);
                    self.dep_output = out;
                } else {
                    let lines = crate::text::lines_chars(chars_of(text.as_str()).as_slice());
                    self.dep_output = chars_to_strings(&lines);
                }
                self.set_status(StatusKind::Error, String::from_str("Install failed"));
            },
        }
    }
}

} // verus!

verus! {

/// A key press, as the terminal loop reports it.
#[derive(Clone, Copy, Debug, PartialEq, Eq, Structural)]
pub enum Key {
    F1,
    Esc,
    Enter,
    Tab,
    Up,
    Down,
    Left,
    Right,
    Backspace,
    Char(char),
    Other,
}

/// What the terminal loop does after a key: nothing, quit, fetch the
/// versions of a mod, check a mod for an update, install dependencies,
/// write a mod's record, remove a mod, open the description editor with
/// the given lines, hand the key to the open editor, or close the editor
/// (reading its lines back with [`ManageApp::confirm_edit_description`]).
pub enum Effect {
    Nothing,
    Quit,
    FetchVersions(usize),
    CheckUpdate(usize),
    InstallDeps(Vec<(String, ModSource)>),
    Save(usize, SavedChange),
    Remove(usize),
    OpenEditor(Vec<String>),
    EditorKey,
    CloseEditor,
}

/// The version fetch that follows opening the version list: for the
/// selected mod while a fetch is pending.
pub open spec fn fetch_effect(post: ManageApp, eff: Effect) -> bool {
    match (post.pending_async, post.selected_spec()) {
        (Some(AsyncOp::FetchVersions), Some(i)) => eff == Effect::FetchVersions(i),
        _ => eff is Nothing,
    }
}

/// The update check that follows opening the update dialog.
pub open spec fn check_effect(post: ManageApp, eff: Effect) -> bool {
    match (post.pending_async, post.selected_spec()) {
        (Some(AsyncOp::CheckUpdate), Some(i)) => eff == Effect::CheckUpdate(i),
        _ => eff is Nothing,
    }
}

/// The detail row under the cursor.
pub open spec fn selected_field_spec(app: ManageApp) -> DetailField {
    if app.detail_selected < DETAIL_FIELD_COUNT {
        field_at(app.detail_selected as int)
    } else {
        DetailField::Version
    }
}

/// Acting on a detail row.
pub open spec fn activate_post(pre: ManageApp, post: ManageApp, field: DetailField, eff: Effect) -> bool {
    match field {
        DetailField::Version => start_edit_version_post(pre, post) && fetch_effect(post, eff),
        DetailField::Env => start_edit_env_post(pre, post) && eff is Nothing,
        DetailField::Description => match eff {
            Effect::OpenEditor(l) => start_edit_description_post(pre, post, Some(l)),
            Effect::Nothing => start_edit_description_post(pre, post, None),
            _ => false,
        },
        DetailField::Categories => start_edit_categories_post(pre, post) && eff is Nothing,
        DetailField::DepTree => start_dep_tree_post(pre, post) && eff is Nothing,
        DetailField::Remove => start_remove_post(pre, post) && eff is Nothing,
        DetailField::UpdateCheck => start_update_check_post(pre, post) && check_effect(post, eff),
    }
}

/// A key on the mod list.
pub open spec fn mod_list_key_post(pre: ManageApp, post: ManageApp, key: Key, eff: Effect) -> bool {
    match key {
        Key::Esc => post == (ManageApp { should_quit: true, ..pre }) && eff is Quit,
        Key::Tab => refiltered(
            ManageApp { category_filter: crate::manage::next_filter(pre.category_filter, pre.cats().len()), ..pre },
            post,
        ) && eff is Nothing,
        Key::Up => mod_list_move_up_post(pre, post) && eff is Nothing,
        Key::Down => mod_list_move_down_post(pre, post) && eff is Nothing,
        Key::Enter => switch_to_detail_post(pre, post) && eff is Nothing,
        Key::Right => switch_to_detail_post(pre, post) && eff is Nothing,
        Key::Backspace => {
            &&& post.query@ == if pre.query@.len() > 0 {
                pre.query@.drop_last()
            } else {
                pre.query@
            }
            &&& refiltered(ManageApp { query: post.query, ..pre }, post)
            &&& eff is Nothing
        },
        Key::Char(c) => {
            &&& post.query@ == pre.query@.push(c)
            &&& refiltered(ManageApp { query: post.query, ..pre }, post)
            &&& eff is Nothing
        },
        _ => post == pre && eff is Nothing,
    }
}

/// The detail row a shortcut letter acts on.
pub open spec fn shortcut_field(c: char) -> Option<DetailField> {
    if c == 'v' {
        Some(DetailField::Version)
    } else if c == 'e' {
        Some(DetailField::Env)
    } else if c == 'd' {
        Some(DetailField::Description)
    } else if c == 'c' {
        Some(DetailField::Categories)
    } else if c == 't' {
        Some(DetailField::DepTree)
    } else if c == 'r' {
        Some(DetailField::Remove)
    } else if c == 'u' {
        Some(DetailField::UpdateCheck)
    } else {
        None
    }
}

/// A key on the detail pane.
pub open spec fn detail_key_post(pre: ManageApp, post: ManageApp, key: Key, eff: Effect) -> bool {
    match key {
        Key::Up => detail_move_up_post(pre, post) && eff is Nothing,
        Key::Down => detail_move_down_post(pre, post) && eff is Nothing,
        Key::Enter => activate_post(pre, post, selected_field_spec(pre), eff),
        Key::Tab => switch_to_mod_list_post(pre, post) && eff is Nothing,
        Key::Left => switch_to_mod_list_post(pre, post) && eff is Nothing,
        Key::Esc => switch_to_mod_list_post(pre, post) && eff is Nothing,
        Key::Char(c) => match shortcut_field(c) {
            Some(f) => activate_post(ManageApp { detail_selected: field_index(f), ..pre }, post, f, eff),
            None => post == pre && eff is Nothing,
        },
        _ => post == pre && eff is Nothing,
    }
}

/// A key in the side picker.
pub open spec fn env_key_post(pre: ManageApp, post: ManageApp, key: Key, eff: Effect) -> bool {
    if key == Key::Up && pre.env_picker_selected > 0 {
        post == (ManageApp { env_picker_selected: (pre.env_picker_selected - 1) as usize, ..pre }) && eff is Nothing
    } else if key == Key::Down && pre.env_picker_selected < 2 {
        post == (ManageApp { env_picker_selected: (pre.env_picker_selected + 1) as usize, ..pre }) && eff is Nothing
    } else if key == Key::Enter {
        match eff {
            Effect::Save(i, SavedChange::Env(e)) => confirm_edit_env_post(pre, post, Some(i)) && e == env_at(
                pre.env_picker_selected,
            ),
            Effect::Nothing => confirm_edit_env_post(pre, post, None),
            _ => false,
        }
    } else if key == Key::Esc {
        post == (ManageApp { mode: Mode::Normal, ..pre }) && eff is Nothing
    } else {
        post == pre && eff is Nothing
    }
}

/// A key in the version list.
pub open spec fn version_key_post(pre: ManageApp, post: ManageApp, key: Key, eff: Effect) -> bool {
    if pre.version_loading {
        post == pre && eff is Nothing
    } else if key == Key::Up && pre.version_list_selected > 0 {
        post == (ManageApp { version_list_selected: (pre.version_list_selected - 1) as usize, ..pre }) && eff is Nothing
    } else if key == Key::Down && pre.version_list_selected + 1 < pre.version_list@.len() {
        post == (ManageApp { version_list_selected: (pre.version_list_selected + 1) as usize, ..pre }) && eff is Nothing
    } else if key == Key::Enter {
        match eff {
            Effect::Save(i, SavedChange::Version(v)) => confirm_edit_version_post(pre, post, Some((i, v))),
            Effect::Nothing => confirm_edit_version_post(pre, post, None),
            _ => false,
        }
    } else if key == Key::Esc {
        post == (ManageApp { mode: Mode::Normal, version_loading: false, pending_async: None, ..pre }) && eff is Nothing
    } else {
        post == pre && eff is Nothing
    }
}

/// A key in the category picker.
pub open spec fn categories_key_post(pre: ManageApp, post: ManageApp, key: Key, eff: Effect) -> bool {
    if pre.category_new_mode {
        &&& eff is Nothing
        &&& match key {
            Key::Esc => post.category_new_input@.len() == 0 && post == (ManageApp {
                category_new_mode: false,
                category_new_input: post.category_new_input,
                ..pre
            }),
            Key::Enter => {
                &&& post.category_new_input@.len() == 0
                &&& !post.category_new_mode
                &&& add_new_category_post(
                    pre,
                    ManageApp { category_new_mode: pre.category_new_mode, category_new_input: pre.category_new_input, ..post },
                    pre.category_new_input@,
                )
            },
            Key::Backspace => {
                &&& post.category_new_input@ == if pre.category_new_input@.len() > 0 {
                    pre.category_new_input@.drop_last()
                } else {
                    pre.category_new_input@
                }
                &&& post == (ManageApp { category_new_input: post.category_new_input, ..pre })
            },
            Key::Char(c) => post.category_new_input@ == pre.category_new_input@.push(c) && post == (ManageApp {
                category_new_input: post.category_new_input,
                ..pre
            }),
            _ => post == pre,
        }
    } else {
        let n = pre.all_categories@.len();
        if key == Key::Up && pre.category_picker_selected > 0 {
            post == (ManageApp { category_picker_selected: (pre.category_picker_selected - 1) as usize, ..pre }) && eff is Nothing
        } else if key == Key::Down && pre.category_picker_selected < n {
            post == (ManageApp { category_picker_selected: (pre.category_picker_selected + 1) as usize, ..pre }) && eff is Nothing
        } else if key == Key::Enter && pre.category_picker_selected < n {
            toggle_category_for_selected_post(pre, post, pre.cats()[pre.category_picker_selected as int]) && eff is Nothing
        } else if key == Key::Enter || key == Key::Char('n') {
            post.category_new_input@.len() == 0 && post == (ManageApp {
                category_new_mode: true,
                category_new_input: post.category_new_input,
                ..pre
            }) && eff is Nothing
        } else if key == Key::Esc {
            match eff {
                Effect::Save(i, SavedChange::Categories) => confirm_edit_categories_post(pre, post, Some(i)),
                Effect::Nothing => confirm_edit_categories_post(pre, post, None),
                _ => false,
            }
        } else {
            post == pre && eff is Nothing
        }
    }
}

/// A key on the dependency tree.
pub open spec fn dep_tree_key_post(pre: ManageApp, post: ManageApp, key: Key, eff: Effect) -> bool {
    &&& eff is Nothing
    &&& match key {
        Key::Esc => post == (ManageApp { mode: Mode::Normal, ..pre }),
        Key::Up => dep_tree_move_up_post(pre, post),
        Key::Down => dep_tree_move_down_post(pre, post),
        Key::Char(c) => if c == 'i' && exists|k: int| 0 <= k < pre.dep_entries@.len() && !(#[trigger] pre.dep_entries@[k]).installed {
            start_install_deps_post(pre, post)
        } else {
            post == pre
        },
        _ => post == pre,
    }
}

/// A key on the installation progress pane.
pub open spec fn install_progress_key_post(pre: ManageApp, post: ManageApp, key: Key, eff: Effect) -> bool {
    &&& eff is Nothing
    &&& match key {
        Key::Esc => post == (ManageApp { mode: Mode::DepTree, ..pre }),
        Key::Enter => post == (ManageApp { mode: Mode::DepTree, ..pre }),
        Key::Up => post == (ManageApp {
            dep_output_scroll: if pre.dep_output_scroll > 0 {
                (pre.dep_output_scroll - 1) as usize
            } else {
                0
            },
            ..pre
        }),
        Key::Down => post == (ManageApp { dep_output_scroll: (pre.dep_output_scroll + 1) as usize, ..pre }),
        _ => post == pre,
    }
}

/// Starting the installation of the marked dependencies.
pub open spec fn start_install_post(pre: ManageApp, post: ManageApp, eff: Effect) -> bool {
    let rows = marked_rows(pre.dep_entries@, pre.dep_marks.marked_set());
    let mid = ManageApp {
        dep_installing: true,
        dep_output: post.dep_output,
        dep_output_scroll: 0,
        mode: Mode::InstallProgress,
        pending_async: Some(AsyncOp::InstallDeps),
        ..pre
    };
    &&& views_of_strings(post.dep_output@) == seq!["Installing..."@]
    &&& if rows.len() == 0 {
        post == (ManageApp { dep_installing: false, pending_async: None, ..mid }) && eff is Nothing
    } else {
        post == mid && (eff matches Effect::InstallDeps(l) && l@.map_values(|p: (String, ModSource)| (p.0@, p.1@)) == rows)
    }
}

/// A key in the list of dependencies to install.
pub open spec fn install_deps_key_post(pre: ManageApp, post: ManageApp, key: Key, eff: Effect) -> bool {
    if pre.dep_installing {
        post == pre && eff is Nothing
    } else {
        match key {
            Key::Up => dep_move_up_post(pre, post) && eff is Nothing,
            Key::Down => dep_move_down_post(pre, post) && eff is Nothing,
            Key::Char(c) => if c == ' ' {
                dep_toggle_mark_post(pre, post) && eff is Nothing
            } else if c == 'a' {
                dep_toggle_all_post(pre, post) && eff is Nothing
            } else {
                post == pre && eff is Nothing
            },
            Key::Enter => if pre.dep_marks.marked@.len() == 0 {
                post == pre && eff is Nothing
            } else {
                start_install_post(pre, post, eff)
            },
            Key::Esc => post == (ManageApp { mode: Mode::DepTree, ..pre }) && eff is Nothing,
            _ => post == pre && eff is Nothing,
        }
    }
}

/// A key in the removal dialog.
pub open spec fn remove_key_post(pre: ManageApp, post: ManageApp, key: Key, eff: Effect) -> bool {
    match key {
        Key::Enter => match eff {
            Effect::Remove(i) => confirm_remove_post(pre, post, Some(i)),
            Effect::Nothing => confirm_remove_post(pre, post, None),
            _ => false,
        },
        Key::Esc => post == (ManageApp { mode: Mode::Normal, ..pre }) && eff is Nothing,
        _ => post == pre && eff is Nothing,
    }
}

/// A key in the update dialog.
pub open spec fn update_key_post(pre: ManageApp, post: ManageApp, key: Key, eff: Effect) -> bool {
    match key {
        Key::Enter => if pre.update_result is Some {
            match eff {
                Effect::Save(i, SavedChange::Update(v)) => apply_update_post(pre, post, Some((i, v))),
                Effect::Nothing => apply_update_post(pre, post, None),
                _ => false,
            }
        } else {
            post == (ManageApp { mode: Mode::Normal, ..pre }) && eff is Nothing
        },
        Key::Esc => post == (ManageApp { mode: Mode::Normal, update_loading: false, pending_async: None, ..pre })
            && eff is Nothing,
        _ => post == pre && eff is Nothing,
    }
}

/// What a key does: F1 toggles the help overlay, which while open only
/// closes on Esc or Enter; otherwise the key goes to the pane of the mode.
pub open spec fn key_post(pre: ManageApp, post: ManageApp, key: Key, eff: Effect) -> bool {
    if key == Key::F1 {
        post == (ManageApp { show_help: !pre.show_help, ..pre }) && eff is Nothing
    } else if pre.show_help {
        post == (ManageApp { show_help: !(key == Key::Esc || key == Key::Enter), ..pre }) && eff is Nothing
    } else {
        match pre.mode {
            Mode::Normal => match pre.focus {
                Focus::ModList => mod_list_key_post(pre, post, key, eff),
                Focus::Detail => detail_key_post(pre, post, key, eff),
            },
            Mode::EditEnv => env_key_post(pre, post, key, eff),
            Mode::EditVersion => version_key_post(pre, post, key, eff),
            Mode::EditDescription => post == pre && if key == Key::Esc {
                eff is CloseEditor
            } else {
                eff is EditorKey
            },
            Mode::EditCategories => categories_key_post(pre, post, key, eff),
            Mode::DepTree => dep_tree_key_post(pre, post, key, eff),
            Mode::InstallDeps => install_deps_key_post(pre, post, key, eff),
            Mode::InstallProgress => install_progress_key_post(pre, post, key, eff),
            Mode::RemoveConfirm => remove_key_post(pre, post, key, eff),
            Mode::UpdateCheck => update_key_post(pre, post, key, eff),
        }
    }
}

} // verus!

verus! {

impl ManageApp {
    fn fetch_after_start(&self) -> (eff: Effect)
        ensures
            fetch_effect(*self, eff),
    {
        match (self.pending_async, self.selected_mod()) {
            (Some(AsyncOp::FetchVersions), Some(i)) => Effect::FetchVersions(i),
            _ => Effect::Nothing,
        }
    }

    fn check_after_start(&self) -> (eff: Effect)
        ensures
            check_effect(*self, eff),
    {
        match (self.pending_async, self.selected_mod()) {
            (Some(AsyncOp::CheckUpdate), Some(i)) => Effect::CheckUpdate(i),
            _ => Effect::Nothing,
        }
    }

    fn activate(&mut self, field: DetailField) -> (eff: Effect)
        requires
            old(self).wf(),
        ensures
            final(self).wf(),
            activate_post(*old(self), *final(self), field, eff),
    {
        match field {
            DetailField::Version => {
                self.start_edit_version();
                self.fetch_after_start()
            },
            DetailField::Env => {
                self.start_edit_env();
                Effect::Nothing
            },
            DetailField::Description => match self.start_edit_description() {
                Some(l) => Effect::OpenEditor(l),
                None => Effect::Nothing,
            },
            DetailField::Categories => {
                self.start_edit_categories();
                Effect::Nothing
            },
            DetailField::DepTree => {
                self.start_dep_tree();
                Effect::Nothing
            },
            DetailField::Remove => {
                self.start_remove();
                Effect::Nothing
            },
            DetailField::UpdateCheck => {
                self.start_update_check();
                self.check_after_start()
            },
        }
    }

    fn mod_list_key(&mut self, key: Key) -> (eff: Effect)
        requires
            old(self).wf(),
        ensures
            final(self).wf(),
            mod_list_key_post(*old(self), *final(self), key, eff),
    {
        match key {
            Key::Esc => {
                self.should_quit = true;
                Effect::Quit
            },
            Key::Tab => {
                self.cycle_category_filter();
                Effect::Nothing
            },
            Key::Up => {
                self.mod_list_move_up();
                Effect::Nothing
            },
            Key::Down => {
                self.mod_list_move_down();
                Effect::Nothing
            },
            Key::Enter => {
                self.switch_to_detail();
                Effect::Nothing
            },
            Key::Right => {
                self.switch_to_detail();
                Effect::Nothing
            },
            Key::Backspace => {
                self.search_pop_char();
                Effect::Nothing
            },
            Key::Char(c) => {
                self.search_push_char(c);
                Effect::Nothing
            },
            _ => Effect::Nothing,
        }
    }

    fn detail_key(&mut self, key: Key) -> (eff: Effect)
        requires
            old(self).wf(),
        ensures
            final(self).wf(),
            detail_key_post(*old(self), *final(self), key, eff),
    {
        match key {
            Key::Up => {
                self.detail_move_up();
                Effect::Nothing
            },
            Key::Down => {
                self.detail_move_down();
                Effect::Nothing
            },
            Key::Enter => {
                let f = self.selected_field();
                self.activate(f)
            },
            Key::Tab | Key::Left | Key::Esc => {
                self.switch_to_mod_list();
                Effect::Nothing
            },
            Key::Char(c) => {
                let f = if c == 'v' {
                    Some(DetailField::Version)
                } else if c == 'e' {
                    Some(DetailField::Env)
                } else if c == 'd' {
                    Some(DetailField::Description)
                } else if c == 'c' {
                    Some(DetailField::Categories)
                } else if c == 't' {
                    Some(DetailField::DepTree)
                } else if c == 'r' {
                    Some(DetailField::Remove)
                } else if c == 'u' {
                    Some(DetailField::UpdateCheck)
                } else {
                    None
                };
                match f {
                    Some(f) => {
                        self.activate_field(f);
                        self.activate(f)
                    },
                    None => Effect::Nothing,
                }
            },
            _ => Effect::Nothing,
        }
    }

    fn env_key(&mut self, key: Key) -> (eff: Effect)
        requires
            old(self).wf(),
        ensures
            final(self).wf(),
            env_key_post(*old(self), *final(self), key, eff),
    {
        if key == Key::Up && self.env_picker_selected > 0 {
            self.env_picker_selected -= 1;
            Effect::Nothing
        } else if key == Key::Down && self.env_picker_selected < 2 {
            self.env_picker_selected += 1;
            Effect::Nothing
        } else if key == Key::Enter {
            let env = match self.env_picker_selected {
                1 => ModEnv::Client,
                2 => ModEnv::Server,
                _ => ModEnv::Both,
            };
            match self.confirm_edit_env() {
                Some(i) => Effect::Save(i, SavedChange::Env(env)),
                None => Effect::Nothing,
            }
        } else if key == Key::Esc {
            self.mode = Mode::Normal;
            Effect::Nothing
        } else {
            Effect::Nothing
        }
    }

    fn version_key(&mut self, key: Key) -> (eff: Effect)
        requires
            old(self).wf(),
        ensures
            final(self).wf(),
            version_key_post(*old(self), *final(self), key, eff),
    {
        if self.version_loading {
            Effect::Nothing
        } else if key == Key::Up && self.version_list_selected > 0 {
            self.version_list_selected -= 1;
            Effect::Nothing
        } else if key == Key::Down && self.version_list.len() > 0 && self.version_list_selected < self.version_list.len() - 1 {
            self.version_list_selected += 1;
            Effect::Nothing
        } else if key == Key::Enter {
            match self.confirm_edit_version() {
                Some((i, v)) => Effect::Save(i, SavedChange::Version(v)),
                None => Effect::Nothing,
            }
        } else if key == Key::Esc {
            self.mode = Mode::Normal;
            self.version_loading = false;
            self.pending_async = None;
            Effect::Nothing
        } else {
            Effect::Nothing
        }
    }

    fn categories_key(&mut self, key: Key) -> (eff: Effect)
        requires
            old(self).wf(),
        ensures
            final(self).wf(),
            categories_key_post(*old(self), *final(self), key, eff),
    {
        if self.category_new_mode {
            match key {
                Key::Esc => {
                    self.category_new_mode = false;
                    self.category_new_input = String::new();
                },
                Key::Enter => {
                    let input = self.category_new_input.clone();
                    self.add_new_category(input.as_str());
                    self.category_new_mode = false;
                    self.category_new_input = String::new();
                },
                Key::Backspace => {
                    let q = chars_of(self.category_new_input.as_str());
                    if q.len() > 0 {
                        let shorter = crate::text::sub_chars(q.as_slice(), 0, q.len() - 1);
                        self.category_new_input = string_of(shorter.as_slice());
                        assert(self.category_new_input@ =~= old(self).category_new_input@.drop_last());
                    }
                },
                Key::Char(c) => {
                    push_char(&mut self.category_new_input, c);
                },
                _ => {},
            }
            return Effect::Nothing;
        }
        let n = self.all_categories.len();
        if key == Key::Up && self.category_picker_selected > 0 {
            self.category_picker_selected -= 1;
            Effect::Nothing
        } else if key == Key::Down && self.category_picker_selected < n {
            self.category_picker_selected += 1;
            Effect::Nothing
        } else if key == Key::Enter && self.category_picker_selected < n {
            let cat = self.all_categories[self.category_picker_selected].clone();
            self.toggle_category_for_selected(cat.as_str());
            Effect::Nothing
        } else if key == Key::Enter || key == Key::Char('n') {
            self.category_new_mode = true;
            self.category_new_input = String::new();
            Effect::Nothing
        } else if key == Key::Esc {
            match self.confirm_edit_categories() {
                Some(i) => Effect::Save(i, SavedChange::Categories),
                None => Effect::Nothing,
            }
        } else {
            Effect::Nothing
        }
    }

    fn dep_tree_key(&mut self, key: Key) -> (eff: Effect)
        requires
            old(self).wf(),
            old(self).dep_tree_scroll < usize::MAX,
        ensures
            final(self).wf(),
            dep_tree_key_post(*old(self), *final(self), key, eff),
    {
        match key {
            Key::Esc => {
                self.mode = Mode::Normal;
            },
            Key::Up => {
                self.dep_tree_move_up();
            },
            Key::Down => {
                self.dep_tree_move_down();
            },
            Key::Char(c) => {
                if c == 'i' {
                    let mut missing = false;
                    let mut k: usize = 0;
                    while k < self.dep_entries.len()
                        invariant
                            k <= self.dep_entries@.len(),
                            missing == exists|j: int| 0 <= j < k && !(#[trigger] self.dep_entries@[j]).installed,
                        decreases self.dep_entries@.len() - k,
                    {
                        if !self.dep_entries[k].installed {
                            missing = true;
                        }
                        k += 1;
                    }
                    if missing {
                        self.start_install_deps();
                    }
                }
            },
            _ => {},
        }
        Effect::Nothing
    }

    fn install_progress_key(&mut self, key: Key) -> (eff: Effect)
        requires
            old(self).dep_output_scroll < usize::MAX,
        ensures
            install_progress_key_post(*old(self), *final(self), key, eff),
    {
        match key {
            Key::Esc | Key::Enter => {
                self.mode = Mode::DepTree;
            },
            Key::Up => {
                if self.dep_output_scroll > 0 {
                    self.dep_output_scroll -= 1;
                }
            },
            Key::Down => {
                self.dep_output_scroll += 1;
            },
            _ => {},
        }
        Effect::Nothing
    }

    fn install_deps_key(&mut self, key: Key) -> (eff: Effect)
        requires
            old(self).wf(),
        ensures
            final(self).wf(),
            install_deps_key_post(*old(self), *final(self), key, eff),
    {
        if self.dep_installing {
            return Effect::Nothing;
        }
        match key {
            Key::Up => {
                self.dep_move_up();
                Effect::Nothing
            },
            Key::Down => {
                self.dep_move_down();
                Effect::Nothing
            },
            Key::Char(c) => {
                if c == ' ' {
                    self.dep_toggle_mark();
                } else if c == 'a' {
                    self.dep_toggle_all();
                }
                Effect::Nothing
            },
            Key::Enter => {
                if self.dep_marks.marked.len() == 0 {
                    return Effect::Nothing;
                }
                let marked = self.marked_deps();
                self.dep_installing = true;
                let mut out: Vec<String> = Vec::new();
                out.push(String::from_str("Installing..."));
                assert(views_of_strings(out@) =~= seq!["Installing..."@]);
                self.dep_output = out;
                self.dep_output_scroll = 0;
                self.mode = Mode::InstallProgress;
                self.pending_async = Some(AsyncOp::InstallDeps);
                if marked.len() == 0 {
                    self.dep_installing = false;
                    self.pending_async = None;
                    Effect::Nothing
                } else {
                    Effect::InstallDeps(marked)
                }
            },
            Key::Esc => {
                self.mode = Mode::DepTree;
                Effect::Nothing
            },
            _ => Effect::Nothing,
        }
    }

    fn remove_key(&mut self, key: Key) -> (eff: Effect)
        requires
            old(self).wf(),
        ensures
            final(self).wf(),
            remove_key_post(*old(self), *final(self), key, eff),
    {
        match key {
            Key::Enter => match self.confirm_remove() {
                Some(i) => Effect::Remove(i),
                None => Effect::Nothing,
            },
            Key::Esc => {
                self.mode = Mode::Normal;
                Effect::Nothing
            },
            _ => Effect::Nothing,
        }
    }

    fn update_key(&mut self, key: Key) -> (eff: Effect)
        requires
            old(self).wf(),
        ensures
            final(self).wf(),
            update_key_post(*old(self), *final(self), key, eff),
    {
        match key {
            Key::Enter => {
                if self.update_result.is_some() {
                    match self.apply_update() {
                        Some((i, v)) => Effect::Save(i, SavedChange::Update(v)),
                        None => Effect::Nothing,
                    }
                } else {
                    self.mode = Mode::Normal;
                    Effect::Nothing
                }
            },
            Key::Esc => {
                self.mode = Mode::Normal;
                self.update_loading = false;
                self.pending_async = None;
                Effect::Nothing
            },
            _ => Effect::Nothing,
        }
    }

    /// Handles a key press (see [`key_post`]) and says what the terminal
    /// loop is to do next.
    pub fn handle_key(&mut self, key: Key) -> (eff: Effect)
        requires
            old(self).wf(),
            old(self).dep_tree_scroll < usize::MAX,
            old(self).dep_output_scroll < usize::MAX,
        ensures
            final(self).wf(),
            key_post(*old(self), *final(self), key, eff),
    {
        if key == Key::F1 {
            self.show_help = !self.show_help;
            return Effect::Nothing;
        }
        if self.show_help {
            if key == Key::Esc || key == Key::Enter {
                self.show_help = false;
            }
            return Effect::Nothing;
        }
        match self.mode {
            Mode::Normal => match self.focus {
                Focus::ModList => self.mod_list_key(key),
                Focus::Detail => self.detail_key(key),
            },
            Mode::EditEnv => self.env_key(key),
            Mode::EditVersion => self.version_key(key),
            Mode::EditDescription => if key == Key::Esc {
                Effect::CloseEditor
            } else {
                Effect::EditorKey
            },
            Mode::EditCategories => self.categories_key(key),
            Mode::DepTree => self.dep_tree_key(key),
            Mode::InstallDeps => self.install_deps_key(key),
            Mode::InstallProgress => self.install_progress_key(key),
            Mode::RemoveConfirm => self.remove_key(key),
            Mode::UpdateCheck => self.update_key(key),
        }
    }

    /// Handles a mouse wheel step: it scrolls the dependency tree, moves the
    /// dependency cursor, or scrolls the installation output.
    pub fn handle_scroll(&mut self, up: bool)
        requires
            old(self).dep_tree_scroll < usize::MAX,
            old(self).dep_output_scroll < usize::MAX,
        ensures
            old(self).mode == Mode::DepTree ==> if up {
                dep_tree_move_up_post(*old(self), *final(self))
            } else {
                dep_tree_move_down_post(*old(self), *final(self))
            },
            old(self).mode == Mode::InstallDeps ==> if up {
                dep_move_up_post(*old(self), *final(self))
            } else {
                dep_move_down_post(*old(self), *final(self))
            },
            old(self).mode == Mode::InstallProgress ==> *final(self) == (ManageApp {
                dep_output_scroll: if up {
                    if old(self).dep_output_scroll > 0 {
                        (old(self).dep_output_scroll - 1) as usize
                    } else {
                        0
                    }
                } else {
                    (old(self).dep_output_scroll + 1) as usize
                },
                ..*old(self)
            }),
            old(self).mode != Mode::DepTree && old(self).mode != Mode::InstallDeps && old(self).mode
                != Mode::InstallProgress ==> *final(self) == *old(self),
    {
        match self.mode {
            Mode::DepTree => if up {
                self.dep_tree_move_up();
            } else {
                self.dep_tree_move_down();
            },
            Mode::InstallDeps => if up {
                self.dep_move_up();
            } else {
                self.dep_move_down();
            },
            Mode::InstallProgress => if up {
                if self.dep_output_scroll > 0 {
                    self.dep_output_scroll -= 1;
                }
            } else {
                self.dep_output_scroll += 1;
            },
            _ => {},
        }
    }
}

} // verus!
