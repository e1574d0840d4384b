//! The interactive manager's state: which pane has focus, the selection in
//! each list, the category filter, the dependencies marked for
//! installation and the transient status message.
use vstd::prelude::*;
use crate::output::views_of_strings;
use crate::text::str_eq;
use crate::types::{ModSource, SourceView};

verus! {

/// What the manager is doing.
#[derive(Clone, Copy, Debug, PartialEq, Eq, Structural)]
pub enum Mode {
    Normal,
    EditEnv,
    EditVersion,
    EditDescription,
    EditCategories,
    DepTree,
    InstallDeps,
    InstallProgress,
    RemoveConfirm,
    UpdateCheck,
}

/// Which pane has the keyboard.
#[derive(Clone, Copy, Debug, PartialEq, Eq, Structural)]
pub enum Focus {
    ModList,
    Detail,
}

/// The rows of the detail pane.
#[derive(Clone, Copy, Debug, PartialEq, Eq, Structural)]
pub enum DetailField {
    Version,
    Env,
    Description,
    Categories,
    DepTree,
    Remove,
    UpdateCheck,
}

/// The number of detail rows.
pub const DETAIL_FIELD_COUNT: usize = 7;

/// The detail row at a position, in display order.
pub open spec fn field_at(i: int) -> DetailField {
    if i == 0 {
        DetailField::Version
    } else if i == 1 {
        DetailField::Env
    } else if i == 2 {
        DetailField::Description
    } else if i == 3 {
        DetailField::Categories
    } else if i == 4 {
        DetailField::DepTree
    } else if i == 5 {
        DetailField::Remove
    } else {
        DetailField::UpdateCheck
    }
}

impl DetailField {
    /// The rows of the detail pane, in display order.
    pub fn fields() -> (v: Vec<DetailField>)
        ensures
            v@.len() == DETAIL_FIELD_COUNT,
            forall|i: int| 0 <= i < v@.len() ==> #[trigger] v@[i] == field_at(i),
    {
        let mut v: Vec<DetailField> = Vec::new();
        v.push(DetailField::Version);
        v.push(DetailField::Env);
        v.push(DetailField::Description);
        v.push(DetailField::Categories);
        v.push(DetailField::DepTree);
        v.push(DetailField::Remove);
        v.push(DetailField::UpdateCheck);
        v
    }

    /// The row's label.
    pub fn label(self) -> (s: &'static str)
        ensures
            s@ == match self {
                DetailField::Version => "Version"@,
                DetailField::Env => "Env"@,
                DetailField::Description => "Description"@,
                DetailField::Categories => "Categories"@,
                DetailField::DepTree => "Dependencies"@,
                DetailField::Remove => "Remove"@,
                DetailField::UpdateCheck => "Check update"@,
            },
    {
        match self {
            DetailField::Version => "Version",
            DetailField::Env => "Env",
            DetailField::Description => "Description",
            DetailField::Categories => "Categories",
            DetailField::DepTree => "Dependencies",
            DetailField::Remove => "Remove",
            DetailField::UpdateCheck => "Check update",
        }
    }

    /// The key that jumps to the row.
    pub fn shortcut(self) -> (c: char)
        ensures
            c == shortcut_spec(self),
    {
        match self {
            DetailField::Version => 'v',
            DetailField::Env => 'e',
            DetailField::Description => 'd',
            DetailField::Categories => 'c',
            DetailField::DepTree => 't',
            DetailField::Remove => 'r',
            DetailField::UpdateCheck => 'u',
        }
    }
}

/// The key of each detail row.
pub open spec fn shortcut_spec(f: DetailField) -> char {
    match f {
        DetailField::Version => 'v',
        DetailField::Env => 'e',
        DetailField::Description => 'd',
        DetailField::Categories => 'c',
        DetailField::DepTree => 't',
        DetailField::Remove => 'r',
        DetailField::UpdateCheck => 'u',
    }
}

/// No two detail rows share a shortcut key.
pub proof fn lemma_shortcuts_distinct(a: DetailField, b: DetailField)
    requires
        a != b,
    ensures
        shortcut_spec(a) != shortcut_spec(b),
{
}

/// The short tag of a source in lists.
pub open spec fn short_tag_spec(source: SourceView) -> Seq<char> {
    match source {
        SourceView::Modrinth(_) => "mr"@,
        SourceView::CurseForge(_) => "cf"@,
        SourceView::Url(_) => "url"@,
    }
}

/// The short tag of a source in lists (`mr`, `cf`, `url`).
pub fn source_short_tag(source: &ModSource) -> (s: &'static str)
    ensures
        s@ == short_tag_spec(source@),
{
    match source {
        ModSource::Modrinth { .. } => "mr",
        ModSource::CurseForge { .. } => "cf",
        ModSource::Url { .. } => "url",
    }
}

/// Which category the mod list is narrowed to.
#[derive(Clone, Copy, Debug, PartialEq, Eq, Structural)]
pub enum CategoryFilter {
    All,
    Category(usize),
}

/// The next filter when cycling through `count` categories: all, then each
/// category in turn, then all again.
pub open spec fn next_filter(f: CategoryFilter, count: nat) -> CategoryFilter {
    match f {
        CategoryFilter::All => if count == 0 {
            CategoryFilter::All
        } else {
            CategoryFilter::Category(0)
        },
        CategoryFilter::Category(i) => if i + 1 >= count {
            CategoryFilter::All
        } else {
            CategoryFilter::Category((i + 1) as usize)
        },
    }
}

/// The next category filter (see [`next_filter`]).
pub fn cycle_category_filter(f: CategoryFilter, category_count: usize) -> (r: CategoryFilter)
    ensures
        r == next_filter(f, category_count as nat),
{
    match f {
        CategoryFilter::All => if category_count == 0 {
            CategoryFilter::All
        } else {
            CategoryFilter::Category(0)
        },
        CategoryFilter::Category(i) => if i >= category_count || i + 1 >= category_count {
            CategoryFilter::All
        } else {
            CategoryFilter::Category(i + 1)
        },
    }
}

/// The filter after `n` steps of cycling from `f`.
pub open spec fn cycle_n(f: CategoryFilter, count: nat, n: nat) -> CategoryFilter
    decreases n,
{
    if n == 0 {
        f
    } else {
        next_filter(cycle_n(f, count, (n - 1) as nat), count)
    }
}

/// Cycling from "all" shows category `k` after `k + 1` steps and is back at
/// "all" after one step per category and one more.
pub proof fn lemma_cycle_visits_every_category(count: usize)
    ensures
        forall|k: nat| k < count ==> #[trigger] cycle_n(CategoryFilter::All, count as nat, k + 1)
            == CategoryFilter::Category(k as usize),
        cycle_n(CategoryFilter::All, count as nat, (count + 1) as nat) == CategoryFilter::All,
{
    assert forall|k: nat| k < count implies #[trigger] cycle_n(CategoryFilter::All, count as nat, k + 1)
        == CategoryFilter::Category(k as usize) by {
        lemma_cycle_prefix(count, k);
    }
    assert(cycle_n(CategoryFilter::All, count as nat, 0) == CategoryFilter::All);
    if count > 0 {
        lemma_cycle_prefix(count, (count - 1) as nat);
    }
}

proof fn lemma_cycle_prefix(count: usize, k: nat)
    requires
        k < count,
    ensures
        cycle_n(CategoryFilter::All, count as nat, k + 1) == CategoryFilter::Category(k as usize),
    decreases k,
{
    if k > 0 {
        lemma_cycle_prefix(count, (k - 1) as nat);
    } else {
        assert(cycle_n(CategoryFilter::All, count as nat, 0) == CategoryFilter::All);
    }
}

/// The selection and scroll position of the mod list, over the indices of
/// the mods that pass the filter.
pub struct ModListState {
    pub filtered_indices: Vec<usize>,
    pub selected: usize,
    pub scroll_offset: usize,
}

impl ModListState {
    /// Moves the selection up one row, stopping at the top.
    pub fn move_up(&mut self)
        ensures
            final(self).selected == if old(self).selected > 0 {
                (old(self).selected - 1) as usize
            } else {
                old(self).selected
            },
            final(self).filtered_indices == old(self).filtered_indices,
            final(self).scroll_offset == old(self).scroll_offset,
    {
        if self.selected > 0 {
            self.selected -= 1;
        }
    }

    /// Moves the selection down one row, stopping at the last.
    pub fn move_down(&mut self)
        ensures
            final(self).selected == if old(self).selected + 1 < old(self).filtered_indices@.len() {
                (old(self).selected + 1) as usize
            } else {
                old(self).selected
            },
            final(self).filtered_indices == old(self).filtered_indices,
            final(self).scroll_offset == old(self).scroll_offset,
    {
        let last = if self.filtered_indices.len() > 0 {
            self.filtered_indices.len() - 1
        } else {
            0
        };
        if self.selected < last {
            self.selected += 1;
        }
    }

    /// After the filtered list changed: keeps the selection on the list
    /// (the last row, or 0 when it is empty) and scrolls back to the top.
    pub fn clamp_after_filter(&mut self)
        ensures
            final(self).filtered_indices == old(self).filtered_indices,
            final(self).scroll_offset == 0,
            final(self).selected == if old(self).selected >= old(self).filtered_indices@.len() {
                if old(self).filtered_indices@.len() == 0 {
                    0
                } else {
                    (old(self).filtered_indices@.len() - 1) as usize
                }
            } else {
                old(self).selected
            },
    {
        if self.selected >= self.filtered_indices.len() {
            self.selected = if self.filtered_indices.len() > 0 {
                self.filtered_indices.len() - 1
            } else {
                0
            };
        }
        self.scroll_offset = 0;
    }
}

/// A selection that starts on a list stays on it however it is moved.
pub proof fn lemma_selection_stays_in_list(selected: nat, len: nat)
    requires
        selected < len,
    ensures
        (if selected > 0 {
            (selected - 1) as nat
        } else {
            selected
        }) < len,
        (if selected + 1 < len {
            selected + 1
        } else {
            selected
        }) < len,
{
}

/// The kind of a transient status message.
#[derive(Clone, Copy, Debug, PartialEq, Eq, Structural)]
pub enum StatusKind {
    Success,
    Warning,
    Error,
}

/// The number of frames a status message stays on screen.
pub const STATUS_TICKS: u8 = 60;

/// A status message with the number of frames it has left.
pub struct StatusLine {
    pub message: Option<(StatusKind, String)>,
    pub ticks: u8,
}

impl StatusLine {
    /// No message.
    pub fn new() -> (s: Self)
        ensures
            s.message is None,
            s.ticks == 0,
    {
        StatusLine { message: None, ticks: 0 }
    }

    /// Shows a message for the full number of frames.
    pub fn set_status(&mut self, kind: StatusKind, msg: String)
        ensures
            final(self).message == Some((kind, msg)),
            final(self).ticks == STATUS_TICKS,
    {
        self.message = Some((kind, msg));
        self.ticks = STATUS_TICKS;
    }

    /// One frame passes: the count goes down and the message goes when it
    /// reaches zero.
    pub fn tick_status(&mut self)
        ensures
            old(self).ticks > 0 ==> final(self).ticks == old(self).ticks - 1,
            old(self).ticks == 0 ==> final(self).ticks == 0,
            old(self).ticks == 1 ==> final(self).message is None,
            old(self).ticks != 1 ==> final(self).message == old(self).message,
    {
        if self.ticks > 0 {
            self.ticks -= 1;
            if self.ticks == 0 {
                self.message = None;
            }
        }
    }
}

proof fn lemma_push_to_set(s: Seq<Seq<char>>, x: Seq<char>)
    ensures
        s.push(x).to_set() == s.to_set().insert(x),
{
    let t = s.push(x);
    assert forall|y: Seq<char>| t.to_set().contains(y) <==> s.to_set().insert(x).contains(y) by {
        if t.contains(y) {
            let k = choose|k: int| 0 <= k < t.len() && t[k] == y;
            if k < s.len() {
                assert(s[k] == y);
            }
        }
        if s.contains(y) {
            let k = choose|k: int| 0 <= k < s.len() && s[k] == y;
            assert(t[k] == y);
        }
        if y == x {
            assert(t[s.len() as int] == x);
        }
    }
    assert(t.to_set() =~= s.to_set().insert(x));
}

proof fn lemma_push_no_duplicates(s: Seq<Seq<char>>, x: Seq<char>)
    requires
        s.no_duplicates(),
        !s.contains(x),
    ensures
        s.push(x).no_duplicates(),
{
    let t = s.push(x);
    assert forall|a: int, b: int| 0 <= a < t.len() && 0 <= b < t.len() && a != b implies t[a] != t[b] by {
        if a < s.len() && b < s.len() {
            assert(t[a] == s[a] && t[b] == s[b]);
        } else if a == s.len() {
            assert(t[b] == s[b]);
        } else {
            assert(t[a] == s[a]);
        }
    }
}

/// The dependencies marked for installation, each once.
pub struct DepMarks {
    pub marked: Vec<String>,
}

impl DepMarks {
    /// The marked ids.
    pub open spec fn marked_set(&self) -> Set<Seq<char>> {
        views_of_strings(self.marked@).to_set()
    }

    fn position(&self, id: &str) -> (r: Option<usize>)
        ensures
            match r {
                Some(i) => i < self.marked@.len() && self.marked@[i as int]@ == id@,
                None => !self.marked_set().contains(id@),
            },
    {
        let mut i: usize = 0;
        while i < self.marked.len()
            invariant
                i <= self.marked.len(),
                forall|j: int| 0 <= j < i ==> self.marked@[j]@ != id@,
            decreases self.marked.len() - i,
        {
            if str_eq(self.marked[i].as_str(), id) {
                return Some(i);
            }
            i += 1;
        }
        proof {
            if views_of_strings(self.marked@).to_set().contains(id@) {
                let j = choose|j: int| 0 <= j < self.marked@.len() && views_of_strings(self.marked@)[j] == id@;
                assert(self.marked@[j]@ == id@);
            }
        }
        None
    }

    /// Removes the mark of a dependency, if it has one.
    pub fn unmark(&mut self, id: &str)
        requires
            views_of_strings(old(self).marked@).no_duplicates(),
        ensures
            views_of_strings(final(self).marked@).no_duplicates(),
            final(self).marked_set() == old(self).marked_set().remove(id@),
    {
        let pos = self.position(id);
        if let Some(i) = pos {
            assert(self.marked_set().contains(self.marked@[i as int]@)) by {
                assert(views_of_strings(self.marked@)[i as int] == id@);
            }
            self.toggle_mark(id, false);
        } else {
            assert(self.marked_set().remove(id@) =~= self.marked_set());
        }
    }

    /// Toggles the mark of a dependency that is not installed; installed
    /// ones cannot be marked.
    pub fn toggle_mark(&mut self, id: &str, installed: bool)
        requires
            views_of_strings(old(self).marked@).no_duplicates(),
        ensures
            views_of_strings(final(self).marked@).no_duplicates(),
            installed ==> final(self).marked_set() == old(self).marked_set(),
            !installed && old(self).marked_set().contains(id@) ==> final(self).marked_set() == old(
                self,
            ).marked_set().remove(id@),
            !installed && !old(self).marked_set().contains(id@) ==> final(self).marked_set() == old(
                self,
            ).marked_set().insert(id@),
    {
        if installed {
            return;
        }
        let ghost before = views_of_strings(self.marked@);
        match self.position(id) {
            Some(i) => {
                proof {
                    assert(before[i as int] == id@);
                    assert(before.to_set().contains(id@));
                }
                let removed = self.marked.remove(i);
                proof {
                    let after = views_of_strings(self.marked@);
                    assert(after =~= before.remove(i as int));
                    assert forall|a: int, b: int| 0 <= a < after.len() && 0 <= b < after.len() && a != b implies after[a] != after[b] by {
                        let a2 = if a < i { a } else { a + 1 };
                        let b2 = if b < i { b } else { b + 1 };
                        assert(after[a] == before[a2]);
                        assert(after[b] == before[b2]);
                    }
                    assert(after.to_set() =~= before.to_set().remove(id@)) by {
                        assert forall|x: Seq<char>| after.to_set().contains(x) <==> before.to_set().remove(id@).contains(x) by {
                            if after.to_set().contains(x) {
                                let k = choose|k: int| 0 <= k < after.len() && after[k] == x;
                                let k2 = if k < i { k } else { k + 1 };
                                assert(before[k2] == x);
                                assert(k2 != i);
                                assert(before[i as int] == id@);
                            }
                            if before.to_set().remove(id@).contains(x) {
                                let k = choose|k: int| 0 <= k < before.len() && before[k] == x;
                                assert(k != i);
                                let k2 = if k < i { k } else { k - 1 };
                                assert(after[k2] == x);
                            }
                        }
                    }
                }
            },
            None => {
                self.marked.push(String::from_str(id));
                proof {
                    let after = views_of_strings(self.marked@);
                    assert(after =~= before.push(id@));
                    assert(!before.contains(id@)) by {
                        if before.contains(id@) {
                            assert(before.to_set().contains(id@));
                        }
                    }
                    lemma_push_to_set(before, id@);
                    lemma_push_no_duplicates(before, id@);
                }
            },
        }
    }

    /// Marks every dependency that is not installed, or, when all of them
    /// are marked already, clears the marks.
    pub fn toggle_all(&mut self, rows: &[(String, bool)])
        requires
            views_of_strings(old(self).marked@).no_duplicates(),
        ensures
            views_of_strings(final(self).marked@).no_duplicates(),
            (exists|i: int| 0 <= i < rows@.len() && !(#[trigger] rows@[i]).1 && !old(self).marked_set().contains(rows@[i].0@))
                ==> final(self).marked_set() == old(self).marked_set().union(
                    Set::new(|x: Seq<char>| exists|i: int| 0 <= i < rows@.len() && !(#[trigger] rows@[i]).1 && rows@[i].0@ == x),
                ),
            !(exists|i: int| 0 <= i < rows@.len() && !(#[trigger] rows@[i]).1 && !old(self).marked_set().contains(rows@[i].0@))
                ==> final(self).marked_set() == Set::<Seq<char>>::empty(),
    {
        let mut has_unmarked = false;
        let mut i: usize = 0;
        while i < rows.len()
            invariant
                i <= rows.len(),
                self.marked == old(self).marked,
                has_unmarked == exists|j: int| 0 <= j < i && !(#[trigger] rows@[j]).1 && !old(self).marked_set().contains(rows@[j].0@),
            decreases rows.len() - i,
        {
            let mut here = false;
            if !rows[i].1 {
                match self.position(rows[i].0.as_str()) {
                    None => {
                        here = true;
                    },
                    Some(j) => {
                        proof {
                            assert(views_of_strings(self.marked@)[j as int] == rows@[i as int].0@);
                            assert(old(self).marked_set().contains(rows@[i as int].0@));
                        }
                    },
                }
            }
            if here {
                has_unmarked = true;
            }
            i += 1;
        }
        if !has_unmarked {
            self.marked = Vec::new();
            assert(views_of_strings(self.marked@).to_set() =~= Set::<Seq<char>>::empty());
            return;
        }
        let ghost start = old(self).marked_set();
        let mut k: usize = 0;
        while k < rows.len()
            invariant
                k <= rows.len(),
                views_of_strings(self.marked@).no_duplicates(),
                self.marked_set() == start.union(
                    Set::new(|x: Seq<char>| exists|j: int| 0 <= j < k && !(#[trigger] rows@[j]).1 && rows@[j].0@ == x),
                ),
            decreases rows.len() - k,
        {
            let ghost before = self.marked_set();
            if !rows[k].1 {
                let pos = self.position(rows[k].0.as_str());
                if let Some(j) = pos {
                    proof {
                        assert(views_of_strings(self.marked@)[j as int] == rows@[k as int].0@);
                        assert(self.marked_set().contains(rows@[k as int].0@));
                    }
                }
                if pos.is_none() {
                    let ghost bv = views_of_strings(self.marked@);
                    self.marked.push(rows[k].0.clone());
                    proof {
                        let after = views_of_strings(self.marked@);
                        assert(after =~= bv.push(rows@[k as int].0@));
                        assert(!bv.contains(rows@[k as int].0@)) by {
                            if bv.contains(rows@[k as int].0@) {
                                assert(bv.to_set().contains(rows@[k as int].0@));
                            }
                        }
                        lemma_push_to_set(bv, rows@[k as int].0@);
                        lemma_push_no_duplicates(bv, rows@[k as int].0@);
                    }
                }
            }
            proof {
                assert(self.marked_set() =~= start.union(
                    Set::new(|x: Seq<char>| exists|j: int| 0 <= j < k + 1 && !(#[trigger] rows@[j]).1 && rows@[j].0@ == x),
                )) by {
                    assert forall|x: Seq<char>| self.marked_set().contains(x) <==> start.union(
                        Set::new(|x: Seq<char>| exists|j: int| 0 <= j < k + 1 && !(#[trigger] rows@[j]).1 && rows@[j].0@ == x),
                    ).contains(x) by {
                        if !rows@[k as int].1 && x == rows@[k as int].0@ {
                            assert(self.marked_set().contains(x));
                        }
                    }
                }
            }
            k += 1;
        }
    }
}

} // verus!
