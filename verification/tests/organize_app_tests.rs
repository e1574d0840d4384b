use yammm::manage_app::Key;
use yammm::organize::{organize_summary, plan_assignment, OrganizeResult, OrphanConfig, Side};
use yammm::errors::YammmError;
use yammm::organize_app::{Mode, OrganizeApp, Step};
use yammm::output::{OutputEvent, StatusKind};

fn orphan(rel: &str) -> OrphanConfig {
    OrphanConfig {
        path: format!("/pack/client/config/{}", rel),
        file_name: rel.rsplit('/').next().unwrap().to_string(),
        rel_path: rel.to_string(),
        content: String::new(),
    }
}

fn organizer() -> OrganizeApp {
    OrganizeApp::new(
        vec![orphan("sodium-options.json"), orphan("iris.properties"), orphan("sub/x.toml")],
        vec!["sodium".to_string(), "iris".to_string(), "lithium".to_string()],
        Side::Client,
    )
}

#[test]
fn starts_on_first_file_with_every_mod() {
    let a = organizer();
    assert_eq!(a.total_configs(), 3);
    assert_eq!(a.current_config().unwrap().rel_path, "sodium-options.json");
    assert_eq!(a.mod_list_state.filtered_indices, vec![0, 1, 2]);
    assert_eq!(a.selected_mod_name(), "sodium");
}

#[test]
fn query_narrows_the_mods() {
    let mut a = organizer();
    a.handle_key(Key::Char('i'));
    a.handle_key(Key::Char('r'));
    assert_eq!(a.query, "ir");
    assert_eq!(a.mod_list_state.filtered_indices, vec![1]);
    a.handle_key(Key::Backspace);
    a.handle_key(Key::Backspace);
    assert_eq!(a.mod_list_state.filtered_indices, vec![0, 1, 2]);
}

#[test]
fn destinations_name_the_mod_and_side() {
    let mut a = organizer();
    a.handle_key(Key::Down);
    let d = a.dest_options();
    assert_eq!(d.len(), 4);
    assert_eq!(d[0].label, "mods/iris/config/ (common)");
    assert_eq!(d[1].label, "mods/iris/client/config/ (client-only)");
    assert_eq!(d[2].label, "config/ (fallback)");
    assert_eq!(d[3].label, "Ignore (add to ignore list)");
    assert_eq!(d[3].idx, 3);
}

#[test]
fn assign_ignore_skip_and_quit() {
    let mut a = organizer();
    a.handle_key(Key::Enter);
    assert_eq!(a.mode, Mode::DestSelect);
    a.handle_key(Key::Down);
    match a.handle_key(Key::Enter) {
        Step::Assign { config, mod_name, dest } => {
            assert_eq!((config, mod_name.as_str(), dest), (0, "sodium", 1));
        },
        _ => panic!("expected an assignment"),
    }
    assert!(a.finish_assign(Ok("sodium".to_string())));
    assert_eq!(a.current_idx, 1);
    assert_eq!(a.mode, Mode::ModSelect);
    assert_eq!(a.result.assigned, vec![("sodium".to_string(), 1)]);
    // second file: ignore it
    a.handle_key(Key::Enter);
    for _ in 0..5 {
        a.handle_key(Key::Down);
    }
    assert_eq!(a.dest_list_state.selected, 3);
    assert!(matches!(a.handle_key(Key::Enter), Step::Continue));
    assert_eq!(a.result.ignored_count, 1);
    assert_eq!(a.result.ignored_new, Some(vec!["iris.properties".to_string()]));
    // third file: skip, which ends the run
    assert!(matches!(a.handle_key(Key::Esc), Step::Quit));
    assert_eq!(a.result.skipped_count, 1);
    let r = a.into_result();
    assert_eq!(r.total_assigned(), Some(1));
    assert_eq!(r.ignored_new, vec!["iris.properties"]);
}

#[test]
fn q_with_empty_query_skips_the_rest() {
    let mut a = organizer();
    assert!(matches!(a.handle_key(Key::Char('q')), Step::Quit));
    assert_eq!(a.result.skipped_count, 3);
    let mut b = organizer();
    b.handle_key(Key::Char('l'));
    assert!(matches!(b.handle_key(Key::Char('q')), Step::Continue));
    assert_eq!(b.query, "lq");
}

#[test]
fn failed_assignment_still_moves_on() {
    let mut a = organizer();
    a.handle_key(Key::Enter);
    a.handle_key(Key::Down);
    a.handle_key(Key::Down);
    assert!(matches!(a.handle_key(Key::Enter), Step::Assign { dest: 2, .. }));
    assert!(a.finish_assign(Err("denied".to_string())));
    assert!(a.result.assigned.is_empty());
    assert_eq!(a.current_idx, 1);
}

#[test]
fn escape_in_destinations_goes_back() {
    let mut a = organizer();
    a.handle_key(Key::Enter);
    a.handle_key(Key::Esc);
    assert_eq!(a.mode, Mode::ModSelect);
    assert_eq!(a.current_idx, 0);
    a.handle_key(Key::F1);
    assert!(a.show_help);
    a.handle_key(Key::Enter);
    assert!(!a.show_help);
}

#[test]
fn plans_for_each_destination() {
    let p = plan_assignment("/pack/client/config/sub/x.toml", "sodium", 0, Side::Client, "/pack").unwrap();
    assert_eq!(p.dest_dir, "/pack/mods/sodium/config");
    assert_eq!(p.dest_path, "/pack/mods/sodium/config/sub/x.toml");
    assert_eq!(p.key, "sodium");
    let p = plan_assignment("/pack/server/config/a.cfg", "sodium", 1, Side::Server, "/pack").unwrap();
    assert_eq!(p.dest_dir, "/pack/mods/sodium/server/config");
    assert_eq!(p.dest_path, "/pack/mods/sodium/server/config/a.cfg");
    let p = plan_assignment("/pack/client/config/a.cfg", "sodium", 2, Side::Client, "/pack").unwrap();
    assert_eq!(p.dest_dir, "/pack/config");
    assert_eq!(p.key, "fallback (config/)");
}

#[test]
fn plan_refuses_relative_file_under_absolute_root() {
    let r = plan_assignment("client/config/a.cfg", "m", 0, Side::Client, "/pack");
    assert!(matches!(r, Err(YammmError::ConfigError(m)) if m == "Config file outside of config dir: client/config/a.cfg"));
}

#[test]
fn summary_lists_counts_and_targets() {
    let r = OrganizeResult {
        assigned: vec![("sodium".to_string(), 2), ("fallback (config/)".to_string(), 1)],
        ignored_count: 1,
        skipped_count: 0,
        ignored_new: vec![],
    };
    let e = organize_summary(&r);
    assert_eq!(e.len(), 9);
    assert!(matches!(&e[2], OutputEvent::Status(StatusKind::Bullet, m) if m == "Assigned: 3 files"));
    assert!(matches!(&e[6], OutputEvent::Status(StatusKind::Dim, m) if m == "Files assigned to:"));
    assert!(matches!(&e[8], OutputEvent::Status(StatusKind::Bullet, m) if m == "fallback (config/): 1 configs"));
    let empty = OrganizeResult { assigned: vec![], ignored_count: 0, skipped_count: 2, ignored_new: vec![] };
    assert_eq!(organize_summary(&empty).len(), 5);
}
