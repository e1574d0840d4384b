//! The keybinding help of the two terminal interfaces: which lines the
//! overlay shows in each mode, how a key is laid out in its column, and
//! where a centered popup goes.
use vstd::prelude::*;
use crate::manage::{Focus, Mode};

verus! {

/// A line of the help overlay: a section title, a key with what it does
/// (dimmed for hints), an empty line, or a closing note.
pub enum HelpLine {
    Section(String),
    Binding { key: String, desc: String, dim: bool },
    Blank,
    Note(String),
}

/// The content of a help line.
pub enum HelpLineView {
    Section(Seq<char>),
    Binding { key: Seq<char>, desc: Seq<char>, dim: bool },
    Blank,
    Note(Seq<char>),
}

impl View for HelpLine {
    type V = HelpLineView;

    open spec fn view(&self) -> HelpLineView {
        match self {
            HelpLine::Section(s) => HelpLineView::Section(s@),
            HelpLine::Binding { key, desc, dim } => HelpLineView::Binding { key: key@, desc: desc@, dim: *dim },
            HelpLine::Blank => HelpLineView::Blank,
            HelpLine::Note(s) => HelpLineView::Note(s@),
        }
    }
}

/// A key binding line.
pub open spec fn kv(key: Seq<char>, desc: Seq<char>) -> HelpLineView {
    HelpLineView::Binding { key, desc, dim: false }
}

/// The lines of the manager's help for a mode: the global keys, the keys
/// of the pane or dialog, and how to close the overlay.
pub open spec fn manage_help_spec(mode: Mode, focus: Focus) -> Seq<HelpLineView> {
    let head = seq![
        HelpLineView::Section("Global"@),
        kv("F1"@, "Toggle this help"@),
        kv("Esc"@, "Back / Quit / Cancel"@),
        HelpLineView::Blank,
    ];
    let body = match mode {
        Mode::Normal => match focus {
            Focus::ModList => seq![
                HelpLineView::Section("Mod List"@),
                kv("Up/Down"@, "Navigate"@),
                kv("Tab"@, "Cycle category filter"@),
                kv("Enter/Right"@, "Switch to detail"@),
                kv("Backspace"@, "Delete search char"@),
                HelpLineView::Binding { key: "type"@, desc: "Filter mods by name"@, dim: true },
            ],
            Focus::Detail => seq![
                HelpLineView::Section("Detail Pane"@),
                kv("Up/Down"@, "Move between fields"@),
                kv("Enter"@, "Activate selected field"@),
                kv("Tab/Left"@, "Back to mod list"@),
                HelpLineView::Blank,
                HelpLineView::Section("Quick Shortcuts"@),
                kv("v"@, "Version"@),
                kv("e"@, "Environment"@),
                kv("d"@, "Description"@),
                kv("c"@, "Categories"@),
                kv("t"@, "Dependency tree"@),
                kv("r"@, "Remove mod"@),
                kv("u"@, "Check for updates"@),
            ],
        },
        Mode::EditEnv => seq![kv("Up/Down"@, "Select"@), kv("Enter"@, "Confirm"@), kv("Esc"@, "Cancel"@)],
        Mode::EditVersion => seq![kv("Up/Down"@, "Select"@), kv("Enter"@, "Confirm"@), kv("Esc"@, "Cancel"@)],
        Mode::EditDescription => seq![
            kv("Esc"@, "Save and close"@),
            kv("Ctrl+Shift+V"@, "Paste from clipboard"@),
            kv("Ctrl+Shift+C"@, "Copy to clipboard"@),
        ],
        Mode::EditCategories => seq![
            kv("Up/Down/Enter"@, "Toggle category"@),
            kv("n"@, "New category"@),
            kv("Esc"@, "Done"@),
        ],
        Mode::DepTree => seq![kv("Up/Down"@, "Scroll"@), kv("i"@, "Install missing deps"@), kv("Esc"@, "Back"@)],
        Mode::InstallDeps => seq![
            kv("Up/Down"@, "Navigate"@),
            kv("Space"@, "Toggle mark"@),
            kv("a"@, "Toggle all"@),
            kv("Enter"@, "Install marked"@),
            kv("Esc"@, "Back"@),
        ],
        Mode::InstallProgress => seq![kv("Up/Down"@, "Scroll"@), kv("Esc/Enter"@, "Close"@)],
        Mode::RemoveConfirm => seq![kv("Enter"@, "Confirm remove"@), kv("Esc"@, "Cancel"@)],
        Mode::UpdateCheck => seq![kv("Enter"@, "Apply update"@), kv("Esc"@, "Cancel"@)],
    };
    head + body + seq![HelpLineView::Blank, HelpLineView::Note("Press Esc or Enter to close"@)]
}

/// The lines of the organizer's help for a mode.
pub open spec fn organize_help_spec(mode: crate::organize_app::Mode) -> Seq<HelpLineView> {
    let body = match mode {
        crate::organize_app::Mode::ModSelect => seq![
            HelpLineView::Section("Mod Select"@),
            kv("Up/Down"@, "Navigate filtered list"@),
            kv("Enter"@, "Select mod"@),
            kv("Esc"@, "Skip config"@),
            kv("q"@, "Quit (when search empty)"@),
            HelpLineView::Binding { key: "type"@, desc: "Filter mods by name"@, dim: true },
            kv("Backspace"@, "Delete search char"@),
        ],
        crate::organize_app::Mode::DestSelect => seq![
            HelpLineView::Section("Destination Select"@),
            kv("Up/Down"@, "Navigate options"@),
            kv("Enter"@, "Confirm assignment"@),
            kv("Esc"@, "Back"@),
        ],
    };
    body + seq![HelpLineView::Blank, HelpLineView::Note("Press Esc or Enter to close"@)]
}

/// The views of a list of help lines.
pub open spec fn help_views(v: Seq<HelpLine>) -> Seq<HelpLineView> {
    v.map_values(|l: HelpLine| l@)
}

fn push_line(v: &mut Vec<HelpLine>, l: HelpLine)
    ensures
        help_views(final(v)@) == help_views(old(v)@).push(l@),
{
    v.push(l);
    assert(help_views(v@) =~= help_views(old(v)@).push(l@));
}

fn push_kv(v: &mut Vec<HelpLine>, key: &str, desc: &str)
    ensures
        help_views(final(v)@) == help_views(old(v)@).push(kv(key@, desc@)),
{
    push_line(v, HelpLine::Binding { key: String::from_str(key), desc: String::from_str(desc), dim: false });
}

/// The manager's help lines for a mode (see [`manage_help_spec`]).
pub fn build_help_lines(mode: Mode, focus: Focus) -> (lines: Vec<HelpLine>)
    ensures
        help_views(lines@) == manage_help_spec(mode, focus),
{
    let mut v: Vec<HelpLine> = Vec::new();
    push_line(&mut v, HelpLine::Section(String::from_str("Global")));
    push_kv(&mut v, "F1", "Toggle this help");
    push_kv(&mut v, "Esc", "Back / Quit / Cancel");
    push_line(&mut v, HelpLine::Blank);
    let ghost head = help_views(v@);
    match mode {
        Mode::Normal => match focus {
            Focus::ModList => {
                push_line(&mut v, HelpLine::Section(String::from_str("Mod List")));
                push_kv(&mut v, "Up/Down", "Navigate");
                push_kv(&mut v, "Tab", "Cycle category filter");
                push_kv(&mut v, "Enter/Right", "Switch to detail");
                push_kv(&mut v, "Backspace", "Delete search char");
                push_line(
                    &mut v,
                    HelpLine::Binding { key: String::from_str("type"), desc: String::from_str("Filter mods by name"), dim: true },
                );
            },
            Focus::Detail => {
                push_line(&mut v, HelpLine::Section(String::from_str("Detail Pane")));
                push_kv(&mut v, "Up/Down", "Move between fields");
                push_kv(&mut v, "Enter", "Activate selected field");
                push_kv(&mut v, "Tab/Left", "Back to mod list");
                push_line(&mut v, HelpLine::Blank);
                push_line(&mut v, HelpLine::Section(String::from_str("Quick Shortcuts")));
                push_kv(&mut v, "v", "Version");
                push_kv(&mut v, "e", "Environment");
                push_kv(&mut v, "d", "Description");
                push_kv(&mut v, "c", "Categories");
                push_kv(&mut v, "t", "Dependency tree");
                push_kv(&mut v, "r", "Remove mod");
                push_kv(&mut v, "u", "Check for updates");
            },
        },
        Mode::EditEnv | Mode::EditVersion => {
            push_kv(&mut v, "Up/Down", "Select");
            push_kv(&mut v, "Enter", "Confirm");
            push_kv(&mut v, "Esc", "Cancel");
        },
        Mode::EditDescription => {
            push_kv(&mut v, "Esc", "Save and close");
            push_kv(&mut v, "Ctrl+Shift+V", "Paste from clipboard");
            push_kv(&mut v, "Ctrl+Shift+C", "Copy to clipboard");
        },
        Mode::EditCategories => {
            push_kv(&mut v, "Up/Down/Enter", "Toggle category");
            push_kv(&mut v, "n", "New category");
            push_kv(&mut v, "Esc", "Done");
        },
        Mode::DepTree => {
            push_kv(&mut v, "Up/Down", "Scroll");
            push_kv(&mut v, "i", "Install missing deps");
            push_kv(&mut v, "Esc", "Back");
        },
        Mode::InstallDeps => {
            push_kv(&mut v, "Up/Down", "Navigate");
            push_kv(&mut v, "Space", "Toggle mark");
            push_kv(&mut v, "a", "Toggle all");
            push_kv(&mut v, "Enter", "Install marked");
            push_kv(&mut v, "Esc", "Back");
        },
        Mode::InstallProgress => {
            push_kv(&mut v, "Up/Down", "Scroll");
            push_kv(&mut v, "Esc/Enter", "Close");
        },
        Mode::RemoveConfirm => {
            push_kv(&mut v, "Enter", "Confirm remove");
            push_kv(&mut v, "Esc", "Cancel");
        },
        Mode::UpdateCheck => {
            push_kv(&mut v, "Enter", "Apply update");
            push_kv(&mut v, "Esc", "Cancel");
        },
    }
    push_line(&mut v, HelpLine::Blank);
    push_line(&mut v, HelpLine::Note(String::from_str("Press Esc or Enter to close")));
    assert(help_views(v@) =~= manage_help_spec(mode, focus));
    v
}

/// The organizer's help lines for a mode (see [`organize_help_spec`]).
pub fn organize_help_lines(mode: crate::organize_app::Mode) -> (lines: Vec<HelpLine>)
    ensures
        help_views(lines@) == organize_help_spec(mode),
{
    let mut v: Vec<HelpLine> = Vec::new();
    assert(help_views(v@) =~= Seq::<HelpLineView>::empty());
    match mode {
        crate::organize_app::Mode::ModSelect => {
            push_line(&mut v, HelpLine::Section(String::from_str("Mod Select")));
            push_kv(&mut v, "Up/Down", "Navigate filtered list");
            push_kv(&mut v, "Enter", "Select mod");
            push_kv(&mut v, "Esc", "Skip config");
            push_kv(&mut v, "q", "Quit (when search empty)");
            push_line(
                &mut v,
                HelpLine::Binding { key: String::from_str("type"), desc: String::from_str("Filter mods by name"), dim: true },
            );
            push_kv(&mut v, "Backspace", "Delete search char");
        },
        crate::organize_app::Mode::DestSelect => {
            push_line(&mut v, HelpLine::Section(String::from_str("Destination Select")));
            push_kv(&mut v, "Up/Down", "Navigate options");
            push_kv(&mut v, "Enter", "Confirm assignment");
            push_kv(&mut v, "Esc", "Back");
        },
    }
    push_line(&mut v, HelpLine::Blank);
    push_line(&mut v, HelpLine::Note(String::from_str("Press Esc or Enter to close")));
    assert(help_views(v@) =~= organize_help_spec(mode));
    v
}

/// The key column of a binding line: two spaces, then the key padded with
/// spaces to 18 characters.
pub open spec fn key_column_spec(key: Seq<char>) -> Seq<char> {
    "  "@ + key + Seq::new(if key.len() < 18 { (18 - key.len()) as nat } else { 0 }, |i: int| ' ')
}

/// Lays out a key for its column (see [`key_column_spec`]).
pub fn key_column(key: &str) -> (s: String)
    ensures
        s@ == key_column_spec(key@),
{
    let mut s = String::from_str("  ");
    s.append(key);
    let n = crate::text::chars_of(key).len();
    let ghost start = s@;
    let mut k: usize = n;
    while k < 18
        invariant
            n == key@.len(),
            n <= k <= 18 || (n > 18 && k == n),
            s@ == start + Seq::new((k - n) as nat, |i: int| ' '),
        decreases 18 - k,
    {
        crate::text::push_char(&mut s, ' ');
        assert(s@ =~= start + Seq::new((k + 1 - n) as nat, |i: int| ' '));
        k += 1;
    }
    proof {
        reveal_strlit("  ");
        assert(s@ =~= key_column_spec(key@));
    }
    s
}

/// A rectangle on the terminal: column, row, width and height.
pub struct Area {
    pub x: u16,
    pub y: u16,
    pub width: u16,
    pub height: u16,
}

/// A popup `percent_x` percent as wide as `r` and `height` rows high,
/// centered in `r` and clipped to it.
pub fn centered_rect(percent_x: u16, height: u16, r: &Area) -> (a: Area)
    requires
        r.width * percent_x <= u16::MAX,
        r.x + r.width <= u16::MAX,
        r.y + r.height <= u16::MAX,
    ensures
        ({
            let w = r.width * percent_x / 100;
            let x = (if r.width >= w { r.width - w } else { 0 }) / 2;
            let y = (if r.height >= height { r.height - height } else { 0 }) / 2;
            &&& a.x == r.x + x
            &&& a.y == r.y + y
            &&& a.width == if w < r.width { w } else { r.width as int }
            &&& a.height == if height < r.height { height } else { r.height }
        }),
{
    let w = r.width * percent_x / 100;
    let x = r.width.saturating_sub(w) / 2;
    let y = r.height.saturating_sub(height) / 2;
    Area {
        x: r.x + x,
        y: r.y + y,
        width: if w < r.width { w } else { r.width },
        height: if height < r.height { height } else { r.height },
    }
}

/// The height of the help overlay: its lines plus the border, at most the
/// terminal's height less four rows.
pub fn overlay_height(lines: usize, area_height: u16) -> (h: u16)
    requires
        lines + 2 <= u16::MAX,
    ensures
        ({
            let limit = if area_height >= 4 { area_height - 4 } else { 0 };
            h == if lines + 2 <= limit { lines + 2 } else { limit }
        }),
{
    let limit = area_height.saturating_sub(4);
    let want = (lines + 2) as u16;
    if want <= limit {
        want
    } else {
        limit
    }
}

} // verus!
