//! What the manager's detail pane says about the selected mod: one row
//! per fact or editable field, the row under the cursor marked.
use vstd::prelude::*;
use crate::manage::{DetailField, Focus, Mode};
use crate::manage_app::{selected_field_spec, ManageApp};
use crate::output::{source_label, source_label_spec, views_of_strings};
use crate::text::{chars_of, decimal, join_with, string_of, u64_to_decimal};
use crate::types::{env_name, project_name, Dependency, DependencyKind, TrackedMod};

verus! {

/// A row of the detail pane.
pub enum DetailRow {
    Title(String),
    Blank,
    ReadOnly { label: String, value: String },
    Unresolved,
    Field { field: DetailField, value: String, highlighted: bool },
    Action { field: DetailField, label: String, highlighted: bool },
    NoSelection,
}

/// The content of a detail row.
pub enum DetailRowView {
    Title(Seq<char>),
    Blank,
    ReadOnly { label: Seq<char>, value: Seq<char> },
    Unresolved,
    Field { field: DetailField, value: Seq<char>, highlighted: bool },
    Action { field: DetailField, label: Seq<char>, highlighted: bool },
    NoSelection,
}

impl View for DetailRow {
    type V = DetailRowView;

    open spec fn view(&self) -> DetailRowView {
        match self {
            DetailRow::Title(s) => DetailRowView::Title(s@),
            DetailRow::Blank => DetailRowView::Blank,
            DetailRow::ReadOnly { label, value } => DetailRowView::ReadOnly { label: label@, value: value@ },
            DetailRow::Unresolved => DetailRowView::Unresolved,
            DetailRow::Field { field, value, highlighted } => DetailRowView::Field {
                field: *field,
                value: value@,
                highlighted: *highlighted,
            },
            DetailRow::Action { field, label, highlighted } => DetailRowView::Action {
                field: *field,
                label: label@,
                highlighted: *highlighted,
            },
            DetailRow::NoSelection => DetailRowView::NoSelection,
        }
    }
}

/// The number of required dependencies.
pub open spec fn required_count(deps: Seq<Dependency>) -> nat
    decreases deps.len(),
{
    if deps.len() == 0 {
        0
    } else {
        required_count(deps.drop_last()) + if deps.last().kind == DependencyKind::Required {
            1nat
        } else {
            0nat
        }
    }
}

/// The dependency summary of a mod.
pub open spec fn dep_label(deps: Seq<Dependency>) -> Seq<char> {
    if deps.len() > 0 {
        decimal(deps.len()) + " deps ("@ + decimal(required_count(deps)) + " required)"@
    } else {
        "No dependencies"@
    }
}

/// The first sixteen characters of a hash followed by an ellipsis.
pub open spec fn short_hash(h: Seq<char>) -> Seq<char> {
    (if h.len() <= 16 { h } else { h.take(16) }) + "\u{2026}"@
}

/// Whether the detail pane has the keyboard.
pub open spec fn detail_focused(app: ManageApp) -> bool {
    app.focus == Focus::Detail && app.mode == Mode::Normal
}

/// The first rows about a mod: its name, id, version and source, and a
/// warning when it is unresolved.
pub open spec fn rows_top(m: TrackedMod, sel: DetailField, focused: bool) -> Seq<DetailRowView> {
    seq![
        DetailRowView::Title(m.name@),
        DetailRowView::Blank,
        DetailRowView::ReadOnly { label: "ID"@, value: m.id@ },
        DetailRowView::Field { field: DetailField::Version, value: m.version@, highlighted: focused && sel == DetailField::Version },
        DetailRowView::ReadOnly { label: "Source"@, value: source_label_spec(m.source@) },
    ] + if m.unresolved {
        seq![DetailRowView::Unresolved]
    } else {
        Seq::empty()
    }
}

/// The middle rows: side, kind, description, categories, and the hash and
/// download URL when known.
pub open spec fn rows_fields(m: TrackedMod, sel: DetailField, focused: bool) -> Seq<DetailRowView> {
    seq![
        DetailRowView::Field { field: DetailField::Env, value: env_name(m.env), highlighted: focused && sel == DetailField::Env },
        DetailRowView::ReadOnly { label: "Project"@, value: project_name(m.project_type) },
        DetailRowView::Field {
            field: DetailField::Description,
            value: if m.description@.len() == 0 {
                "(empty)"@
            } else {
                m.description@
            },
            highlighted: focused && sel == DetailField::Description,
        },
        DetailRowView::Field {
            field: DetailField::Categories,
            value: if m.categories@.len() == 0 {
                "(none)"@
            } else {
                join_with(views_of_strings(m.categories@), ", "@)
            },
            highlighted: focused && sel == DetailField::Categories,
        },
    ] + (match m.hash {
        Some(h) => seq![DetailRowView::ReadOnly { label: "Hash"@, value: short_hash(h@) }],
        None => Seq::empty(),
    }) + if m.download_url@.len() > 0 {
        seq![DetailRowView::ReadOnly { label: "Download"@, value: m.download_url@ }]
    } else {
        Seq::empty()
    }
}

/// The action rows: dependencies, removal and the update check.
pub open spec fn rows_actions(m: TrackedMod, sel: DetailField, focused: bool) -> Seq<DetailRowView> {
    seq![
        DetailRowView::Blank,
        DetailRowView::Action {
            field: DetailField::DepTree,
            label: dep_label(m.dependencies@),
            highlighted: focused && sel == DetailField::DepTree,
        },
        DetailRowView::Action { field: DetailField::Remove, label: "Remove this mod"@, highlighted: focused && sel == DetailField::Remove },
        DetailRowView::Action {
            field: DetailField::UpdateCheck,
            label: "Check for updates"@,
            highlighted: focused && sel == DetailField::UpdateCheck,
        },
    ]
}

/// The rows about a mod, the cursor on `sel` when the pane is focused.
pub open spec fn mod_rows(m: TrackedMod, sel: DetailField, focused: bool) -> Seq<DetailRowView> {
    rows_top(m, sel, focused) + rows_fields(m, sel, focused) + rows_actions(m, sel, focused)
}

/// The rows of the detail pane: the selected mod's, or a placeholder.
pub open spec fn detail_rows_spec(app: ManageApp) -> Seq<DetailRowView> {
    match app.selected_spec() {
        Some(i) => mod_rows(app.mods@[i as int], selected_field_spec(app), detail_focused(app)),
        None => seq![DetailRowView::NoSelection],
    }
}

/// The views of a list of rows.
pub open spec fn row_views(v: Seq<DetailRow>) -> Seq<DetailRowView> {
    v.map_values(|r: DetailRow| r@)
}

fn push_row(v: &mut Vec<DetailRow>, r: DetailRow)
    ensures
        row_views(final(v)@) == row_views(old(v)@).push(r@),
{
    v.push(r);
    assert(row_views(v@) =~= row_views(old(v)@).push(r@));
}

fn count_required(deps: &Vec<Dependency>) -> (n: usize)
    ensures
        n == required_count(deps@),
{
    let mut n: usize = 0;
    let mut i: usize = 0;
    while i < deps.len()
        invariant
            i <= deps@.len(),
            n == required_count(deps@.take(i as int)),
            n <= i,
        decreases deps@.len() - i,
    {
        assert(deps@.take(i + 1).drop_last() =~= deps@.take(i as int));
        if deps[i].kind == DependencyKind::Required {
            n += 1;
        }
        i += 1;
    }
    assert(deps@.take(deps@.len() as int) =~= deps@);
    n
}

fn categories_text(cats: &Vec<String>) -> (s: String)
    ensures
        s@ == if cats@.len() == 0 {
            "(none)"@
        } else {
            join_with(views_of_strings(cats@), ", "@)
        },
{
    if cats.len() == 0 {
        return String::from_str("(none)");
    }
    crate::output::join_strings(cats, ", ")
}

fn short_hash_text(h: &String) -> (s: String)
    ensures
        s@ == short_hash(h@),
{
    let hc = chars_of(h.as_str());
    let k = if hc.len() <= 16 {
        hc.len()
    } else {
        16
    };
    let mut short = string_of(crate::text::sub_chars(hc.as_slice(), 0, k).as_slice());
    short.append("\u{2026}");
    proof {
        if hc@.len() <= 16 {
            assert(hc@.subrange(0, k as int) =~= hc@);
        } else {
            assert(hc@.subrange(0, 16) =~= hc@.take(16));
        }
    }
    short
}

fn dep_label_text(deps: &Vec<Dependency>) -> (s: String)
    ensures
        s@ == dep_label(deps@),
{
    let n = deps.len();
    if n > 0 {
        let req = count_required(deps);
        let mut s = u64_to_decimal(n as u64);
        s.append(" deps (");
        s.append(u64_to_decimal(req as u64).as_str());
        s.append(" required)");
        s
    } else {
        String::from_str("No dependencies")
    }
}

fn top_rows(m: &TrackedMod, sel: DetailField, focused: bool) -> (v: Vec<DetailRow>)
    ensures
        row_views(v@) == rows_top(*m, sel, focused),
{
    let mut v: Vec<DetailRow> = Vec::new();
    push_row(&mut v, DetailRow::Title(m.name.clone()));
    push_row(&mut v, DetailRow::Blank);
    push_row(&mut v, DetailRow::ReadOnly { label: String::from_str("ID"), value: m.id.clone() });
    push_row(
        &mut v,
        DetailRow::Field { field: DetailField::Version, value: m.version.clone(), highlighted: focused && sel == DetailField::Version },
    );
    push_row(&mut v, DetailRow::ReadOnly { label: String::from_str("Source"), value: String::from_str(source_label(&m.source)) });
    if m.unresolved {
        push_row(&mut v, DetailRow::Unresolved);
    }
    assert(row_views(v@) =~= rows_top(*m, sel, focused));
    v
}

fn field_rows(m: &TrackedMod, sel: DetailField, focused: bool) -> (v: Vec<DetailRow>)
    ensures
        row_views(v@) == rows_fields(*m, sel, focused),
{
    let mut v: Vec<DetailRow> = Vec::new();
    push_row(
        &mut v,
        DetailRow::Field { field: DetailField::Env, value: String::from_str(m.env.as_str()), highlighted: focused && sel == DetailField::Env },
    );
    push_row(&mut v, DetailRow::ReadOnly { label: String::from_str("Project"), value: String::from_str(m.project_type.as_str()) });
    let desc = if m.description.as_str().is_empty() {
        String::from_str("(empty)")
    } else {
        m.description.clone()
    };
    push_row(&mut v, DetailRow::Field { field: DetailField::Description, value: desc, highlighted: focused && sel == DetailField::Description });
    push_row(
        &mut v,
        DetailRow::Field { field: DetailField::Categories, value: categories_text(&m.categories), highlighted: focused && sel == DetailField::Categories },
    );
    match &m.hash {
        Some(h) => {
            push_row(&mut v, DetailRow::ReadOnly { label: String::from_str("Hash"), value: short_hash_text(h) });
        },
        None => {},
    }
    if !m.download_url.as_str().is_empty() {
        push_row(&mut v, DetailRow::ReadOnly { label: String::from_str("Download"), value: m.download_url.clone() });
    }
    assert(row_views(v@) =~= rows_fields(*m, sel, focused));
    v
}

fn action_rows(m: &TrackedMod, sel: DetailField, focused: bool) -> (v: Vec<DetailRow>)
    ensures
        row_views(v@) == rows_actions(*m, sel, focused),
{
    let mut v: Vec<DetailRow> = Vec::new();
    push_row(&mut v, DetailRow::Blank);
    push_row(&mut v, DetailRow::Action { field: DetailField::DepTree, label: dep_label_text(&m.dependencies), highlighted: focused && sel == DetailField::DepTree });
    push_row(&mut v, DetailRow::Action { field: DetailField::Remove, label: String::from_str("Remove this mod"), highlighted: focused && sel == DetailField::Remove });
    push_row(
        &mut v,
        DetailRow::Action { field: DetailField::UpdateCheck, label: String::from_str("Check for updates"), highlighted: focused && sel == DetailField::UpdateCheck },
    );
    assert(row_views(v@) =~= rows_actions(*m, sel, focused));
    v
}

fn rows_for_mod(m: &TrackedMod, sel: DetailField, focused: bool) -> (v: Vec<DetailRow>)
    ensures
        row_views(v@) == mod_rows(*m, sel, focused),
{
    let mut v = top_rows(m, sel, focused);
    let mut b = field_rows(m, sel, focused);
    let mut c = action_rows(m, sel, focused);
    let ghost (va, vb, vc) = (v@, b@, c@);
    v.append(&mut b);
    v.append(&mut c);
    assert(v@ == va + vb + vc);
    assert(row_views(v@) =~= row_views(va) + row_views(vb) + row_views(vc));
    v
}

/// The rows of the detail pane (see [`detail_rows_spec`]).
pub fn detail_rows(app: &ManageApp) -> (v: Vec<DetailRow>)
    requires
        app.wf(),
    ensures
        row_views(v@) == detail_rows_spec(*app),
{
    let focused = app.focus == Focus::Detail && app.mode == Mode::Normal;
    match app.selected_mod() {
        Some(i) => rows_for_mod(&app.mods[i], app.selected_field(), focused),
        None => {
            let mut v: Vec<DetailRow> = Vec::new();
            push_row(&mut v, DetailRow::NoSelection);
            assert(row_views(v@) =~= seq![DetailRowView::NoSelection]);
            v
        },
    }
}

/// The title of the detail pane.
pub fn detail_title(app: &ManageApp) -> (s: &'static str)
    ensures
        s@ == if detail_focused(*app) {
            " Details (focused) "@
        } else {
            " Details "@
        },
{
    if app.focus == Focus::Detail && app.mode == Mode::Normal {
        " Details (focused) "
    } else {
        " Details "
    }
}

} // verus!

verus! {

/// The first row of a window of `height` rows that shows the cursor: the
/// window moves up to the cursor, or down until the cursor is its last row.
pub open spec fn follow_cursor_spec(selected: usize, scroll: usize, height: usize) -> usize {
    let s1 = if selected < scroll {
        selected
    } else {
        scroll
    };
    if selected >= s1 + height {
        (selected - height + 1) as usize
    } else {
        s1
    }
}

/// Moves a window so that it shows the cursor (see [`follow_cursor_spec`]).
pub fn follow_cursor(selected: usize, scroll: usize, height: usize) -> (s: usize)
    requires
        scroll + height <= usize::MAX,
        height > 0 || selected < usize::MAX,
    ensures
        s == follow_cursor_spec(selected, scroll, height),
        height > 0 ==> s <= selected < s + height,
{
    let mut s = scroll;
    if selected < s {
        s = selected;
    }
    if selected >= s + height {
        s = selected - height + 1;
    }
    s
}

/// A scroll position clamped so that the last line is not scrolled past.
pub fn clamp_scroll(scroll: usize, lines: usize, visible: usize) -> (s: usize)
    ensures
        s == if scroll > lines - visible && lines >= visible {
            (lines - visible) as usize
        } else if lines < visible {
            0
        } else {
            scroll
        },
{
    let max = lines.saturating_sub(visible);
    if scroll > max {
        max
    } else {
        scroll
    }
}

/// A row of the mod list: the name, the source's short tag, whether the
/// mod is unresolved, and whether the cursor is on it.
pub struct ModRow {
    pub name: String,
    pub tag: String,
    pub unresolved: bool,
    pub selected: bool,
}

/// The rows of the mod list shown in a window of `height` rows from
/// `scroll`: one per listed mod in the window, in order.
pub fn visible_mod_rows(app: &ManageApp, scroll: usize, height: usize) -> (rows: Vec<ModRow>)
    requires
        app.wf(),
        scroll + height <= usize::MAX,
    ensures
        ({
            let l = app.mod_list.filtered_indices@;
            let end = if scroll + height < l.len() { scroll + height } else { l.len() as int };
            &&& rows@.len() == if scroll < end { end - scroll } else { 0 }
            &&& forall|k: int| 0 <= k < rows@.len() ==> {
                let m = app.mods@[l[scroll + k] as int];
                &&& (#[trigger] rows@[k]).name@ == m.name@
                &&& rows@[k].tag@ == crate::manage::short_tag_spec(m.source@)
                &&& rows@[k].unresolved == m.unresolved
                &&& rows@[k].selected == (scroll + k == app.mod_list.selected)
            }
        }),
{
    let l = &app.mod_list.filtered_indices;
    let end = if scroll + height < l.len() {
        scroll + height
    } else {
        l.len()
    };
    let mut rows: Vec<ModRow> = Vec::new();
    if end <= scroll {
        return rows;
    }
    let mut k: usize = scroll;
    while k < end
        invariant
            scroll <= k <= end,
            end <= l@.len(),
            app.wf(),
            l == &app.mod_list.filtered_indices,
            rows@.len() == k - scroll,
            forall|t: int| 0 <= t < rows@.len() ==> {
                let m = app.mods@[l@[scroll + t] as int];
                &&& (#[trigger] rows@[t]).name@ == m.name@
                &&& rows@[t].tag@ == crate::manage::short_tag_spec(m.source@)
                &&& rows@[t].unresolved == m.unresolved
                &&& rows@[t].selected == (scroll + t == app.mod_list.selected)
            },
        decreases end - k,
    {
        let m = &app.mods[l[k]];
        let ghost before = rows@;
        rows.push(ModRow {
            name: m.name.clone(),
            tag: String::from_str(crate::manage::source_short_tag(&m.source)),
            unresolved: m.unresolved,
            selected: k == app.mod_list.selected,
        });
        assert forall|t: int| 0 <= t < rows@.len() implies {
            let m = app.mods@[l@[scroll + t] as int];
            &&& (#[trigger] rows@[t]).name@ == m.name@
            &&& rows@[t].tag@ == crate::manage::short_tag_spec(m.source@)
            &&& rows@[t].unresolved == m.unresolved
            &&& rows@[t].selected == (scroll + t == app.mod_list.selected)
        } by {
            if t < before.len() {
                assert(rows@[t] == before[t]);
            }
        }
        k += 1;
    }
    rows
}

/// The title of the mod list: how many mods are shown out of how many.
pub fn mod_list_title(app: &ManageApp) -> (s: String)
    ensures
        s@ == " Mods ("@ + decimal(app.mod_list.filtered_indices@.len()) + "/"@ + decimal(app.mods@.len()) + ") "@,
{
    let mut s = String::from_str(" Mods (");
    s.append(u64_to_decimal(app.mod_list.filtered_indices.len() as u64).as_str());
    s.append("/");
    s.append(u64_to_decimal(app.mods.len() as u64).as_str());
    s.append(") ");
    s
}

/// A row of the dependency lists: the indentation level, the mark box
/// (empty for installed dependencies), the name, the version and kind
/// notes, and whether it is installed and under the cursor.
pub struct DepRow {
    pub indent: usize,
    pub marker: String,
    pub name: String,
    pub version_note: String,
    pub kind_note: String,
    pub installed: bool,
    pub selected: bool,
}

/// The version note of a row: ` v<version>`, or nothing.
pub open spec fn version_note(v: Seq<char>) -> Seq<char> {
    if v.len() == 0 {
        Seq::empty()
    } else {
        " v"@ + v
    }
}

/// The kind note of a row: ` (<kind>)`, or nothing for the root.
pub open spec fn kind_note(k: Option<DependencyKind>) -> Seq<char> {
    match k {
        Some(k) => " ("@ + crate::types::dependency_kind_name(k) + ")"@,
        None => Seq::empty(),
    }
}

/// The mark box of a row.
pub open spec fn marker_spec(installed: bool, marked: bool) -> Seq<char> {
    if installed {
        Seq::empty()
    } else if marked {
        "[x] "@
    } else {
        "[ ] "@
    }
}

fn dep_row(e: &crate::deps::DepEntry, marked: bool, selected: bool) -> (r: DepRow)
    ensures
        r.indent == e.indent,
        r.marker@ == marker_spec(e.installed, marked),
        r.name@ == e.name@,
        r.version_note@ == version_note(e.version@),
        r.kind_note@ == kind_note(e.kind),
        r.installed == e.installed,
        r.selected == selected,
{
    let marker = if e.installed {
        String::new()
    } else if marked {
        String::from_str("[x] ")
    } else {
        String::from_str("[ ] ")
    };
    let version_note = if e.version.as_str().is_empty() {
        String::new()
    } else {
        let mut s = String::from_str(" v");
        s.append(e.version.as_str());
        s
    };
    let kind_note = match e.kind {
        Some(k) => {
            let mut s = String::from_str(" (");
            s.append(k.as_str());
            s.append(")");
            s
        },
        None => String::new(),
    };
    DepRow {
        indent: e.indent,
        marker,
        name: e.name.clone(),
        version_note,
        kind_note,
        installed: e.installed,
        selected,
    }
}

/// The rows of the install list in a window of `height` rows from
/// `scroll`, each with its mark.
pub fn visible_dep_rows(app: &ManageApp, scroll: usize, height: usize) -> (rows: Vec<DepRow>)
    requires
        scroll + height <= usize::MAX,
    ensures
        ({
            let es = app.dep_entries@;
            let end = if scroll + height < es.len() { scroll + height } else { es.len() as int };
            &&& rows@.len() == if scroll < end { end - scroll } else { 0 }
            &&& forall|k: int| 0 <= k < rows@.len() ==> {
                let e = es[scroll + k];
                &&& (#[trigger] rows@[k]).indent == e.indent
                &&& rows@[k].marker@ == marker_spec(e.installed, app.dep_marks.marked_set().contains(e.mod_id@))
                &&& rows@[k].name@ == e.name@
                &&& rows@[k].version_note@ == version_note(e.version@)
                &&& rows@[k].kind_note@ == kind_note(e.kind)
                &&& rows@[k].installed == e.installed
                &&& rows@[k].selected == (scroll + k == app.dep_selected)
            }
        }),
{
    let es = &app.dep_entries;
    let end = if scroll + height < es.len() {
        scroll + height
    } else {
        es.len()
    };
    let mut rows: Vec<DepRow> = Vec::new();
    if end <= scroll {
        return rows;
    }
    let mut k: usize = scroll;
    while k < end
        invariant
            scroll <= k <= end,
            end <= es@.len(),
            es == &app.dep_entries,
            rows@.len() == k - scroll,
            forall|t: int| 0 <= t < rows@.len() ==> {
                let e = es@[scroll + t];
                &&& (#[trigger] rows@[t]).indent == e.indent
                &&& rows@[t].marker@ == marker_spec(e.installed, app.dep_marks.marked_set().contains(e.mod_id@))
                &&& rows@[t].name@ == e.name@
                &&& rows@[t].version_note@ == version_note(e.version@)
                &&& rows@[t].kind_note@ == kind_note(e.kind)
                &&& rows@[t].installed == e.installed
                &&& rows@[t].selected == (scroll + t == app.dep_selected)
            },
        decreases end - k,
    {
        let marked = crate::manage_app::contains_text(&app.dep_marks.marked, es[k].mod_id.as_str());
        let ghost before = rows@;
        rows.push(dep_row(&es[k], marked, k == app.dep_selected));
        assert forall|t: int| 0 <= t < rows@.len() implies {
            let e = es@[scroll + t];
            &&& (#[trigger] rows@[t]).indent == e.indent
            &&& rows@[t].marker@ == marker_spec(e.installed, app.dep_marks.marked_set().contains(e.mod_id@))
            &&& rows@[t].name@ == e.name@
            &&& rows@[t].version_note@ == version_note(e.version@)
            &&& rows@[t].kind_note@ == kind_note(e.kind)
            &&& rows@[t].installed == e.installed
            &&& rows@[t].selected == (scroll + t == app.dep_selected)
        } by {
            if t < before.len() {
                assert(rows@[t] == before[t]);
            }
        }
        k += 1;
    }
    rows
}

/// The footer of the install list: a note while installing, else the keys
/// with the number of marked dependencies when there are any.
pub fn install_footer(app: &ManageApp) -> (s: String)
    ensures
        s@ == if app.dep_installing {
            "Installing..."@
        } else {
            "Space: toggle \u{2502} a: toggle all \u{2502} Enter: install "@ + (if app.dep_marks.marked@.len() > 0 {
                "("@ + decimal(app.dep_marks.marked@.len()) + " selected)"@
            } else {
                Seq::empty()
            }) + " \u{2502} Esc: back"@
        },
{
    if app.dep_installing {
        return String::from_str("Installing...");
    }
    let mut s = String::from_str("Space: toggle \u{2502} a: toggle all \u{2502} Enter: install ");
    let n = app.dep_marks.marked.len();
    if n > 0 {
        s.append("(");
        s.append(u64_to_decimal(n as u64).as_str());
        s.append(" selected)");
    }
    s.append(" \u{2502} Esc: back");
    s
}

/// The number of dependency rows that are not installed.
pub open spec fn missing_count(es: Seq<crate::deps::DepEntry>) -> nat
    decreases es.len(),
{
    if es.len() == 0 {
        0
    } else {
        missing_count(es.drop_last()) + if es.last().installed {
            0nat
        } else {
            1nat
        }
    }
}

/// The note under the dependency tree about the missing dependencies, if
/// there are any.
pub fn missing_note(app: &ManageApp) -> (s: Option<String>)
    ensures
        missing_count(app.dep_entries@) == 0 ==> s is None,
        missing_count(app.dep_entries@) > 0 ==> (s matches Some(t) && t@ == decimal(missing_count(app.dep_entries@))
            + " missing dep(s) \u{2014} press 'i' to install"@),
{
    let mut n: usize = 0;
    let mut i: usize = 0;
    while i < app.dep_entries.len()
        invariant
            i <= app.dep_entries@.len(),
            n == missing_count(app.dep_entries@.take(i as int)),
            n <= i,
        decreases app.dep_entries@.len() - i,
    {
        assert(app.dep_entries@.take(i + 1).drop_last() =~= app.dep_entries@.take(i as int));
        if !app.dep_entries[i].installed {
            n += 1;
        }
        i += 1;
    }
    assert(app.dep_entries@.take(app.dep_entries@.len() as int) =~= app.dep_entries@);
    if n == 0 {
        None
    } else {
        let mut s = u64_to_decimal(n as u64);
        s.append(" missing dep(s) \u{2014} press 'i' to install");
        Some(s)
    }
}

/// The lines under the tree naming the mods that depend on the shown one.
pub fn reverse_lines(app: &ManageApp) -> (lines: Vec<String>)
    ensures
        lines@.len() == app.dep_reverse@.len(),
        forall|k: int| 0 <= k < lines@.len() ==> (#[trigger] lines@[k])@ == "  \u{2022} "@ + app.dep_reverse@[k].1@ + " ("@
            + app.dep_reverse@[k].0@ + ")"@,
{
    let mut lines: Vec<String> = Vec::new();
    let mut i: usize = 0;
    while i < app.dep_reverse.len()
        invariant
            i <= app.dep_reverse@.len(),
            lines@.len() == i,
            forall|k: int| 0 <= k < i ==> (#[trigger] lines@[k])@ == "  \u{2022} "@ + app.dep_reverse@[k].1@ + " ("@
                + app.dep_reverse@[k].0@ + ")"@,
        decreases app.dep_reverse@.len() - i,
    {
        let mut s = String::from_str("  \u{2022} ");
        s.append(app.dep_reverse[i].1.as_str());
        s.append(" (");
        s.append(app.dep_reverse[i].0.as_str());
        s.append(")");
        lines.push(s);
        i += 1;
    }
    lines
}

} // verus!
