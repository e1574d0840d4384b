use yammm::manage::DetailField;
use yammm::manage_app::{Key, ManageApp};
use yammm::manage_view::{
    clamp_scroll, detail_rows, detail_title, follow_cursor, install_footer, missing_note, mod_list_title,
    reverse_lines, visible_dep_rows, visible_mod_rows, DetailRow,
};
use yammm::types::{Dependency, DependencyKind, HashType, ModEnv, ModSource, ProjectType, TrackedMod};

fn record() -> TrackedMod {
    TrackedMod {
        id: "sodium".to_string(),
        name: "Sodium".to_string(),
        description: String::new(),
        version: "0.5.3".to_string(),
        source: ModSource::modrinth("sodium"),
        dependencies: vec![
            Dependency { mod_id: "fabric-api".to_string(), source: ModSource::modrinth("fabric-api"), kind: DependencyKind::Required },
            Dependency { mod_id: "iris".to_string(), source: ModSource::modrinth("iris"), kind: DependencyKind::Optional },
        ],
        url: String::new(),
        download_url: "https://cdn/sodium.jar".to_string(),
        hash: Some("0123456789abcdef0123".to_string()),
        hash_type: HashType::Sha1,
        project_type: ProjectType::Mod,
        env: ModEnv::Client,
        categories: vec!["performance".to_string(), "client".to_string()],
        filename: None,
        unresolved: true,
        connector_compat: false,
    }
}

fn line(r: &DetailRow) -> String {
    match r {
        DetailRow::Title(t) => format!("# {}", t),
        DetailRow::Blank => String::new(),
        DetailRow::ReadOnly { label, value } => format!("{}: {}", label, value),
        DetailRow::Unresolved => "Unresolved: Yes".to_string(),
        DetailRow::Field { field, value, highlighted } => {
            format!("{}{}: {}", if *highlighted { ">" } else { "" }, field.label(), value)
        },
        DetailRow::Action { field, label, highlighted } => {
            format!("{}{} [{}]", if *highlighted { ">" } else { "" }, label, field.shortcut())
        },
        DetailRow::NoSelection => "No mod selected".to_string(),
    }
}

#[test]
fn detail_rows_describe_the_selected_mod() {
    let mut a = ManageApp::new(vec![record()], String::new(), String::new(), String::new());
    let rows: Vec<String> = detail_rows(&a).iter().map(line).collect();
    assert_eq!(
        rows,
        vec![
            "# Sodium",
            "",
            "ID: sodium",
            "Version: 0.5.3",
            "Source: Modrinth",
            "Unresolved: Yes",
            "Env: client",
            "Project: mod",
            "Description: (empty)",
            "Categories: performance, client",
            "Hash: 0123456789abcdef\u{2026}",
            "Download: https://cdn/sodium.jar",
            "",
            "2 deps (1 required) [t]",
            "Remove this mod [r]",
            "Check for updates [u]",
        ]
    );
    assert_eq!(detail_title(&a), " Details ");
    a.handle_key(Key::Right);
    a.handle_key(Key::Down);
    assert_eq!(a.selected_field(), DetailField::Env);
    let rows: Vec<String> = detail_rows(&a).iter().map(line).collect();
    assert_eq!(rows[6], ">Env: client");
    assert_eq!(detail_title(&a), " Details (focused) ");
}

#[test]
fn no_selection_has_a_placeholder() {
    let a = ManageApp::new(vec![], String::new(), String::new(), String::new());
    let rows: Vec<String> = detail_rows(&a).iter().map(line).collect();
    assert_eq!(rows, vec!["No mod selected"]);
}

fn named(id: &str, name: &str) -> TrackedMod {
    let mut m = record();
    m.id = id.to_string();
    m.name = name.to_string();
    m.unresolved = false;
    m.source = ModSource::curseforge(id);
    m.dependencies = vec![];
    m
}

#[test]
fn window_follows_the_cursor() {
    assert_eq!(follow_cursor(2, 5, 4), 2);
    assert_eq!(follow_cursor(9, 2, 4), 6);
    assert_eq!(follow_cursor(4, 2, 4), 2);
    assert_eq!(follow_cursor(3, 3, 0), 4);
    assert_eq!(clamp_scroll(10, 12, 5), 7);
    assert_eq!(clamp_scroll(3, 12, 5), 3);
    assert_eq!(clamp_scroll(3, 2, 5), 0);
}

#[test]
fn mod_list_rows_in_window() {
    let mut mods = vec![named("a", "Alpha"), named("b", "Beta"), named("c", "Gamma")];
    mods[1].unresolved = true;
    let mut app = ManageApp::new(mods, String::new(), String::new(), String::new());
    app.handle_key(Key::Down);
    let rows = visible_mod_rows(&app, 1, 5);
    assert_eq!(rows.len(), 2);
    assert_eq!(rows[0].name, "Beta");
    assert_eq!(rows[0].tag, "cf");
    assert!(rows[0].unresolved && rows[0].selected);
    assert!(!rows[1].selected);
    assert!(visible_mod_rows(&app, 3, 5).is_empty());
    assert_eq!(mod_list_title(&app), " Mods (3/3) ");
    app.handle_key(Key::Char('g'));
    app.handle_key(Key::Char('a'));
    app.handle_key(Key::Char('m'));
    assert_eq!(mod_list_title(&app), " Mods (1/3) ");
}

#[test]
fn install_list_rows_and_footer() {
    let mut root = named("iris", "Iris");
    root.dependencies = vec![
        Dependency { mod_id: "sodium".to_string(), source: ModSource::modrinth("sodium"), kind: DependencyKind::Required },
        Dependency { mod_id: "indium".to_string(), source: ModSource::modrinth("indium"), kind: DependencyKind::Optional },
    ];
    let mut sodium = named("sodium", "Sodium");
    sodium.source = ModSource::modrinth("sodium");
    root.source = ModSource::modrinth("iris");
    let mut app = ManageApp::new(vec![root, sodium], String::new(), String::new(), String::new());
    app.handle_key(Key::Right);
    app.handle_key(Key::Char('t'));
    assert_eq!(missing_note(&app).as_deref(), Some("1 missing dep(s) \u{2014} press 'i' to install"));
    assert!(reverse_lines(&app).is_empty());
    app.handle_key(Key::Char('i'));
    app.handle_key(Key::Down);
    app.handle_key(Key::Down);
    app.handle_key(Key::Char(' '));
    let rows = visible_dep_rows(&app, 0, 10);
    assert_eq!(rows.len(), 3);
    assert_eq!((rows[0].marker.as_str(), rows[0].indent, rows[0].kind_note.as_str()), ("", 0, ""));
    assert_eq!(rows[1].version_note, " v0.5.3");
    assert_eq!(rows[1].kind_note, " (required)");
    assert_eq!((rows[2].marker.as_str(), rows[2].indent, rows[2].name.as_str()), ("[x] ", 1, "indium"));
    assert!(rows[2].selected && !rows[2].installed);
    assert_eq!(install_footer(&app), "Space: toggle \u{2502} a: toggle all \u{2502} Enter: install (1 selected) \u{2502} Esc: back");
}

#[test]
fn reverse_dependents_are_listed() {
    let mut iris = named("iris", "Iris");
    iris.dependencies = vec![Dependency { mod_id: "sodium".to_string(), source: ModSource::curseforge("sodium"), kind: DependencyKind::Required }];
    let app0 = ManageApp::new(vec![named("sodium", "Sodium"), iris], String::new(), String::new(), String::new());
    let mut app = app0;
    app.handle_key(Key::Right);
    app.handle_key(Key::Char('t'));
    assert_eq!(reverse_lines(&app), vec!["  \u{2022} Iris (iris)"]);
}
