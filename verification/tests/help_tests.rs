use yammm::help::{build_help_lines, centered_rect, key_column, organize_help_lines, overlay_height, Area, HelpLine};
use yammm::manage::{Focus, Mode};

fn text(l: &HelpLine) -> String {
    match l {
        HelpLine::Section(s) => format!("[{}]", s),
        HelpLine::Binding { key, desc, dim } => format!("{}={}{}", key, desc, if *dim { " (dim)" } else { "" }),
        HelpLine::Blank => String::new(),
        HelpLine::Note(s) => format!("({})", s),
    }
}

#[test]
fn mod_list_help() {
    let lines: Vec<String> = build_help_lines(Mode::Normal, Focus::ModList).iter().map(text).collect();
    assert_eq!(
        lines,
        vec![
            "[Global]",
            "F1=Toggle this help",
            "Esc=Back / Quit / Cancel",
            "",
            "[Mod List]",
            "Up/Down=Navigate",
            "Tab=Cycle category filter",
            "Enter/Right=Switch to detail",
            "Backspace=Delete search char",
            "type=Filter mods by name (dim)",
            "",
            "(Press Esc or Enter to close)",
        ]
    );
}

#[test]
fn detail_help_lists_every_shortcut() {
    let lines: Vec<String> = build_help_lines(Mode::Normal, Focus::Detail).iter().map(text).collect();
    assert_eq!(lines.len(), 19);
    assert_eq!(lines[9], "[Quick Shortcuts]");
    assert_eq!(lines[16], "u=Check for updates");
}

#[test]
fn dialog_help() {
    let lines: Vec<String> = build_help_lines(Mode::InstallDeps, Focus::Detail).iter().map(text).collect();
    assert_eq!(&lines[4..9], &["Up/Down=Navigate", "Space=Toggle mark", "a=Toggle all", "Enter=Install marked", "Esc=Back"]);
    let lines: Vec<String> = build_help_lines(Mode::EditVersion, Focus::ModList).iter().map(text).collect();
    assert_eq!(&lines[4..7], &["Up/Down=Select", "Enter=Confirm", "Esc=Cancel"]);
}

#[test]
fn organizer_help() {
    let lines: Vec<String> = organize_help_lines(yammm::organize_app::Mode::DestSelect).iter().map(text).collect();
    assert_eq!(
        lines,
        vec![
            "[Destination Select]",
            "Up/Down=Navigate options",
            "Enter=Confirm assignment",
            "Esc=Back",
            "",
            "(Press Esc or Enter to close)",
        ]
    );
    assert_eq!(organize_help_lines(yammm::organize_app::Mode::ModSelect).len(), 9);
}

#[test]
fn key_column_pads_to_eighteen() {
    assert_eq!(key_column("F1"), format!("  {:<18}", "F1"));
    assert_eq!(key_column("Up/Down/Enter"), format!("  {:<18}", "Up/Down/Enter"));
    let long = "a-very-long-key-name-here";
    assert_eq!(key_column(long), format!("  {}", long));
}

#[test]
fn popup_is_centered_and_clipped() {
    let r = Area { x: 0, y: 0, width: 100, height: 40 };
    let a = centered_rect(70, 20, &r);
    assert_eq!((a.x, a.y, a.width, a.height), (15, 10, 70, 20));
    let a = centered_rect(60, 50, &Area { x: 2, y: 1, width: 10, height: 8 });
    assert_eq!((a.x, a.y, a.width, a.height), (4, 1, 6, 8));
    assert_eq!(overlay_height(12, 40), 14);
    assert_eq!(overlay_height(12, 10), 6);
    assert_eq!(overlay_height(12, 3), 0);
}
