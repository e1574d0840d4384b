use yammm::manage::{CategoryFilter, DetailField, Focus, Mode, StatusKind};
use yammm::manage_app::{
    AsyncOp, AsyncResult, Effect, Key, ManageApp, SaveOutcome, SavedChange,
};
use yammm::types::{
    Dependency, DependencyKind, HashType, ModEnv, ModSource, ModVersion, ProjectType, TrackedMod,
};
use yammm::update::ModUpdate;

fn entry(id: &str, name: &str, cats: &[&str], deps: Vec<Dependency>) -> TrackedMod {
    TrackedMod {
        id: id.to_string(),
        name: name.to_string(),
        description: String::new(),
        version: "1.0".to_string(),
        source: ModSource::modrinth(id),
        dependencies: deps,
        url: String::new(),
        download_url: String::new(),
        hash: None,
        hash_type: HashType::Sha1,
        project_type: ProjectType::Mod,
        env: ModEnv::Both,
        categories: cats.iter().map(|c| c.to_string()).collect(),
        filename: None,
        unresolved: false,
        connector_compat: false,
    }
}

fn needs(id: &str) -> Dependency {
    Dependency {
        mod_id: id.to_string(),
        source: ModSource::modrinth(id),
        kind: DependencyKind::Required,
    }
}

fn app() -> ManageApp {
    ManageApp::new(
        vec![
            entry("sodium", "Sodium", &["performance", "client"], vec![]),
            entry("lithium", "lithium", &["performance"], vec![]),
            entry("iris", "Iris Shaders", &["client"], vec![needs("sodium")]),
        ],
        "Pack".to_string(),
        "1.20.1".to_string(),
        "fabric 0.15".to_string(),
    )
}

fn shown(a: &ManageApp) -> Vec<usize> {
    a.mod_list.filtered_indices.clone()
}

#[test]
fn new_collects_sorted_categories_and_lists_every_mod() {
    let a = app();
    assert_eq!(a.all_categories, vec!["client", "performance"]);
    assert_eq!(shown(&a), vec![0, 1, 2]);
    assert_eq!(a.mode, Mode::Normal);
    assert_eq!(a.focus, Focus::ModList);
    assert_eq!(a.selected_mod(), Some(0));
}

#[test]
fn typing_narrows_and_backspace_sorts_by_lowercase_name() {
    let mut a = app();
    assert!(matches!(a.handle_key(Key::Char('s')), Effect::Nothing));
    assert!(a.mod_list.filtered_indices.contains(&0));
    a.handle_key(Key::Char('o'));
    a.handle_key(Key::Char('d'));
    assert_eq!(a.query, "sod");
    assert_eq!(shown(&a), vec![0]);
    a.handle_key(Key::Backspace);
    a.handle_key(Key::Backspace);
    a.handle_key(Key::Backspace);
    assert_eq!(a.query, "");
    // Iris Shaders, lithium, Sodium
    assert_eq!(shown(&a), vec![2, 1, 0]);
}

#[test]
fn tab_cycles_category_filter() {
    let mut a = app();
    a.handle_key(Key::Tab);
    assert_eq!(a.category_filter, CategoryFilter::Category(0));
    assert_eq!(a.category_filter_label(), "client");
    assert_eq!(shown(&a), vec![2, 0]);
    a.handle_key(Key::Tab);
    assert_eq!(a.category_filter_label(), "performance");
    assert_eq!(shown(&a), vec![1, 0]);
    a.handle_key(Key::Tab);
    assert_eq!(a.category_filter, CategoryFilter::All);
    assert_eq!(a.category_filter_label(), "all");
    assert_eq!(shown(&a).len(), 3);
}

#[test]
fn escape_on_list_quits_and_f1_toggles_help() {
    let mut a = app();
    a.handle_key(Key::F1);
    assert!(a.show_help);
    assert!(matches!(a.handle_key(Key::Esc), Effect::Nothing));
    assert!(!a.show_help);
    assert!(!a.should_quit);
    assert!(matches!(a.handle_key(Key::Esc), Effect::Quit));
    assert!(a.should_quit);
}

#[test]
fn env_edit_saves_the_picked_side() {
    let mut a = app();
    a.handle_key(Key::Enter);
    assert_eq!(a.focus, Focus::Detail);
    a.handle_key(Key::Char('e'));
    assert_eq!(a.mode, Mode::EditEnv);
    assert_eq!(a.selected_field(), DetailField::Env);
    assert_eq!(a.env_picker_selected, 0);
    a.handle_key(Key::Down);
    a.handle_key(Key::Down);
    a.handle_key(Key::Down);
    assert_eq!(a.env_picker_selected, 2);
    let eff = a.handle_key(Key::Enter);
    assert!(matches!(eff, Effect::Save(0, SavedChange::Env(ModEnv::Server))));
    assert_eq!(a.mods[0].env, ModEnv::Server);
    assert_eq!(a.mode, Mode::Normal);
    if let Effect::Save(_, change) = eff {
        a.finish_save(&change, SaveOutcome::Saved);
        let (kind, msg) = a.status.message.clone().unwrap();
        assert_eq!(kind, StatusKind::Success);
        assert_eq!(msg, "Env updated to server");
        a.finish_save(&change, SaveOutcome::Failed("disk full".to_string()));
        let (kind, msg) = a.status.message.clone().unwrap();
        assert_eq!(kind, StatusKind::Error);
        assert_eq!(msg, "Failed to save: disk full");
    }
}

#[test]
fn version_edit_fetches_then_saves() {
    let mut a = app();
    a.handle_key(Key::Right);
    let eff = a.handle_key(Key::Char('v'));
    assert!(matches!(eff, Effect::FetchVersions(0)));
    assert_eq!(a.mode, Mode::EditVersion);
    assert_eq!(a.pending_async, Some(AsyncOp::FetchVersions));
    assert!(matches!(a.handle_key(Key::Enter), Effect::Nothing));
    assert_eq!(a.mode, Mode::EditVersion);
    a.handle_async_result(AsyncResult::Versions(Ok(vec![
        ModVersion {
            version: "2.0".to_string(),
            download_url: "https://x/2.jar".to_string(),
            hash: Some("abc".to_string()),
            hash_type: HashType::Sha512,
        },
        ModVersion {
            version: "1.5".to_string(),
            download_url: "https://x/15.jar".to_string(),
            hash: None,
            hash_type: HashType::Sha1,
        },
    ])));
    assert!(!a.version_loading);
    a.handle_key(Key::Down);
    a.handle_key(Key::Down);
    assert_eq!(a.version_list_selected, 1);
    let eff = a.handle_key(Key::Enter);
    assert!(matches!(eff, Effect::Save(0, SavedChange::Version(ref v)) if v == "1.5"));
    assert_eq!(a.mods[0].version, "1.5");
    assert_eq!(a.mods[0].download_url, "https://x/15.jar");
    assert_eq!(a.mode, Mode::Normal);
    assert!(a.pending_async.is_none());
}

#[test]
fn version_fetch_failure_closes_the_list() {
    let mut a = app();
    a.handle_key(Key::Right);
    a.handle_key(Key::Char('v'));
    a.handle_async_result(AsyncResult::Versions(Err("offline".to_string())));
    assert_eq!(a.mode, Mode::Normal);
    let (kind, msg) = a.status.message.clone().unwrap();
    assert_eq!(kind, StatusKind::Error);
    assert_eq!(msg, "Failed to fetch versions: offline");
}

#[test]
fn url_and_unresolved_mods_cannot_change_version() {
    let mut mods = vec![entry("a", "A", &[], vec![])];
    mods[0].source = ModSource::url("https://example.com/a.jar");
    let mut a = ManageApp::new(mods, String::new(), String::new(), String::new());
    a.handle_key(Key::Right);
    assert!(matches!(a.handle_key(Key::Char('v')), Effect::Nothing));
    assert_eq!(a.mode, Mode::Normal);
    assert_eq!(a.status.message.clone().unwrap().1, "Cannot change version for URL-sourced mods");
    a.mods[0].unresolved = true;
    a.handle_key(Key::Char('u'));
    assert_eq!(a.status.message.clone().unwrap().1, "Cannot check updates for unresolved mods");
}

#[test]
fn description_editor_round_trip() {
    let mut a = app();
    a.mods[0].description = "line one\nline two".to_string();
    a.handle_key(Key::Right);
    let eff = a.handle_key(Key::Char('d'));
    match eff {
        Effect::OpenEditor(lines) => assert_eq!(lines, vec!["line one", "line two"]),
        _ => panic!("editor not opened"),
    }
    assert_eq!(a.mode, Mode::EditDescription);
    assert!(matches!(a.handle_key(Key::Char('x')), Effect::EditorKey));
    assert!(matches!(a.handle_key(Key::Esc), Effect::CloseEditor));
    let r = a.confirm_edit_description(&vec!["new".to_string(), "text".to_string()]);
    assert_eq!(r, Some(0));
    assert_eq!(a.mods[0].description, "new\ntext");
    assert_eq!(a.mode, Mode::Normal);
}

#[test]
fn empty_description_opens_one_blank_line() {
    let mut a = app();
    assert_eq!(a.start_edit_description(), Some(vec![String::new()]));
}

#[test]
fn categories_toggle_and_new() {
    let mut a = app();
    a.handle_key(Key::Right);
    a.handle_key(Key::Char('c'));
    assert_eq!(a.mode, Mode::EditCategories);
    // "client" is the first category: Sodium has it, so it is removed
    a.handle_key(Key::Enter);
    assert_eq!(a.mods[0].categories, vec!["performance"]);
    a.handle_key(Key::Enter);
    assert_eq!(a.mods[0].categories, vec!["client", "performance"]);
    a.handle_key(Key::Char('n'));
    assert!(a.category_new_mode);
    for c in "  utility ".chars() {
        a.handle_key(Key::Char(c));
    }
    a.handle_key(Key::Enter);
    assert!(!a.category_new_mode);
    assert_eq!(a.category_new_input, "");
    assert_eq!(a.mods[0].categories, vec!["client", "performance", "utility"]);
    assert_eq!(a.all_categories, vec!["client", "performance", "utility"]);
    let eff = a.handle_key(Key::Esc);
    assert!(matches!(eff, Effect::Save(0, SavedChange::Categories)));
    assert_eq!(a.mode, Mode::Normal);
}

#[test]
fn dependency_tree_and_install_flow() {
    let mut a = ManageApp::new(
        vec![
            entry("iris", "Iris", &[], vec![needs("sodium"), needs("indium")]),
            entry("sodium", "Sodium", &[], vec![]),
        ],
        String::new(),
        String::new(),
        String::new(),
    );
    a.handle_key(Key::Right);
    a.handle_key(Key::Char('t'));
    assert_eq!(a.mode, Mode::DepTree);
    assert_eq!(a.dep_entries.len(), 3);
    assert_eq!(a.dep_entries[0].mod_id, "iris");
    assert_eq!(a.dep_entries[2].mod_id, "indium");
    assert!(!a.dep_entries[2].installed);
    a.handle_key(Key::Char('i'));
    assert_eq!(a.mode, Mode::InstallDeps);
    // nothing marked: Enter does nothing
    assert!(matches!(a.handle_key(Key::Enter), Effect::Nothing));
    a.handle_key(Key::Char('a'));
    assert_eq!(a.dep_marks.marked, vec!["indium"]);
    let eff = a.handle_key(Key::Enter);
    match eff {
        Effect::InstallDeps(list) => {
            assert_eq!(list.len(), 1);
            assert_eq!(list[0].0, "indium");
        },
        _ => panic!("no install"),
    }
    assert_eq!(a.mode, Mode::InstallProgress);
    assert_eq!(a.dep_output, vec!["Installing..."]);
    a.handle_async_result(AsyncResult::InstallDeps(Ok(vec!["indium".to_string()])));
    assert!(a.dep_marks.marked.is_empty());
    assert_eq!(a.dep_output, vec!["Successfully installed 1 dep(s)."]);
    assert_eq!(a.status.message.clone().unwrap().1, "Installed 1 dep(s)");
    a.handle_key(Key::Enter);
    assert_eq!(a.mode, Mode::DepTree);
}

#[test]
fn install_failure_shows_the_output() {
    let mut a = app();
    a.mode = Mode::InstallProgress;
    a.handle_async_result(AsyncResult::InstallDeps(Err("a: boom\nb: bust".to_string())));
    assert_eq!(a.dep_output, vec!["a: boom", "b: bust"]);
    a.mode = Mode::InstallProgress;
    a.handle_async_result(AsyncResult::InstallDeps(Err(String::new())));
    assert_eq!(a.dep_output, vec!["Install failed."]);
    assert_eq!(a.status.message.clone().unwrap().1, "Install failed");
}

#[test]
fn remove_flow_lists_dependents_and_drops_the_mod() {
    let mut a = app();
    a.handle_key(Key::Right);
    a.handle_key(Key::Char('r'));
    assert_eq!(a.mode, Mode::RemoveConfirm);
    assert_eq!(
        a.remove_dependents,
        vec![("iris".to_string(), "Iris Shaders".to_string())]
    );
    let eff = a.handle_key(Key::Enter);
    assert!(matches!(eff, Effect::Remove(0)));
    assert!(a.finish_remove(0, true));
    assert_eq!(a.mods.len(), 2);
    assert!(a.mods.iter().all(|m| m.id != "sodium"));
    assert_eq!(a.mode, Mode::Normal);
    assert_eq!(a.focus, Focus::ModList);
    assert_eq!(a.status.message.clone().unwrap().1, "Removed Sodium");
    // lithium, Iris Shaders: shown alphabetically
    assert_eq!(shown(&a), vec![1, 0]);
}

#[test]
fn failed_removal_is_reported() {
    let mut a = app();
    a.mode = Mode::RemoveConfirm;
    assert!(!a.finish_remove(1, false));
    assert_eq!(a.mods.len(), 3);
    assert_eq!(a.mode, Mode::Normal);
    assert_eq!(a.status.message.clone().unwrap(), (StatusKind::Error, "Failed to remove mod".to_string()));
}

#[test]
fn update_check_then_apply() {
    let mut a = app();
    a.handle_key(Key::Right);
    let eff = a.handle_key(Key::Char('u'));
    assert!(matches!(eff, Effect::CheckUpdate(0)));
    assert_eq!(a.mode, Mode::UpdateCheck);
    a.handle_async_result(AsyncResult::UpdateCheck(Ok(Some(ModUpdate {
        id: "sodium".to_string(),
        name: "Sodium".to_string(),
        current_version: "1.0".to_string(),
        latest_version: "1.1".to_string(),
        download_url: "https://x/11.jar".to_string(),
        hash: Some("h".to_string()),
        hash_type: HashType::Sha512,
    }))));
    assert!(!a.update_loading);
    let eff = a.handle_key(Key::Enter);
    assert!(matches!(eff, Effect::Save(0, SavedChange::Update(ref v)) if v == "1.1"));
    assert_eq!(a.mods[0].version, "1.1");
    assert_eq!(a.mods[0].hash.as_deref(), Some("h"));
    assert_eq!(a.mods[0].hash_type, HashType::Sha512);
    if let Effect::Save(_, change) = eff {
        a.finish_save(&change, SaveOutcome::Saved);
        assert_eq!(a.status.message.clone().unwrap().1, "Updated to v1.1");
    }
}

#[test]
fn update_check_error_is_kept() {
    let mut a = app();
    a.handle_key(Key::Right);
    a.handle_key(Key::Char('u'));
    a.handle_async_result(AsyncResult::UpdateCheck(Err("timeout".to_string())));
    assert_eq!(a.update_error.as_deref(), Some("timeout"));
    assert!(a.pending_async.is_none());
    assert!(matches!(a.handle_key(Key::Enter), Effect::Nothing));
    assert_eq!(a.mode, Mode::Normal);
}

#[test]
fn scroll_wheel_moves_dependency_views() {
    let mut a = app();
    a.mode = Mode::InstallProgress;
    a.handle_scroll(false);
    a.handle_scroll(false);
    a.handle_scroll(true);
    assert_eq!(a.dep_output_scroll, 1);
    a.mode = Mode::Normal;
    a.handle_scroll(false);
    assert_eq!(a.dep_output_scroll, 1);
}

#[test]
fn detail_cursor_moves_within_rows() {
    let mut a = app();
    a.handle_key(Key::Right);
    for _ in 0..10 {
        a.handle_key(Key::Down);
    }
    assert_eq!(a.detail_selected, 6);
    assert_eq!(a.selected_field(), DetailField::UpdateCheck);
    for _ in 0..10 {
        a.handle_key(Key::Up);
    }
    assert_eq!(a.detail_selected, 0);
    a.handle_key(Key::Left);
    assert_eq!(a.focus, Focus::ModList);
}

#[test]
fn toggling_a_category_twice_flips_it_back() {
    let mut a = app();
    let i = a.selected_mod().unwrap();
    let had = a.mods[i].categories.contains(&"storage".to_string());
    a.toggle_category_for_selected("storage");
    assert_eq!(a.mods[i].categories.contains(&"storage".to_string()), !had);
    a.toggle_category_for_selected("storage");
    assert_eq!(a.mods[i].categories.contains(&"storage".to_string()), had);
    let before = a.mods[i].categories.clone();
    let first = before[0].clone();
    a.toggle_category_for_selected(&first);
    assert!(!a.mods[i].categories.contains(&first));
    assert_eq!(a.mods[i].categories.len(), before.len() - 1);
}
