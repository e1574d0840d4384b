use yammm::output::{DiagnosticKind, OutputEvent, StatusKind};
use yammm::remove::{removed_message, RemoveFlow, RemoveStep};

fn deps() -> Vec<(String, String)> {
    vec![("iris".to_string(), "Iris".to_string()), ("indium".to_string(), "Indium".to_string())]
}

fn removed(step: &RemoveStep) -> Vec<String> {
    match step {
        RemoveStep::Remove(l) => l.iter().map(|p| p.0.clone()).collect(),
        _ => panic!("not a removal"),
    }
}

#[test]
fn dependents_are_listed_and_can_be_taken_along() {
    let (mut flow, events, step) = RemoveFlow::start("sodium", "Sodium", deps(), false, false, false);
    assert_eq!(events.len(), 3);
    assert!(matches!(&events[0], OutputEvent::Diagnostic(DiagnosticKind::Warning, m) if m == "2 mods depend on Sodium:"));
    assert!(matches!(&events[2], OutputEvent::Status(StatusKind::Bullet, m) if m == "Indium"));
    assert!(matches!(&step, RemoveStep::Ask { prompt, default: false } if prompt == "Remove dependent mods as well?"));
    let step = flow.answer(true);
    assert_eq!(removed(&step), vec!["sodium", "iris", "indium"]);
}

#[test]
fn declining_twice_cancels() {
    let (mut flow, _, _) = RemoveFlow::start("sodium", "Sodium", deps(), false, false, false);
    let step = flow.answer(false);
    assert!(matches!(&step, RemoveStep::Ask { prompt, default: false } if prompt == "Proceed with removing ONLY this mod? (may break dependent mods)"));
    assert!(matches!(flow.answer(false), RemoveStep::Cancel));
    let (mut flow, _, _) = RemoveFlow::start("sodium", "Sodium", deps(), false, false, false);
    flow.answer(false);
    assert_eq!(removed(&flow.answer(true)), vec!["sodium"]);
}

#[test]
fn force_and_json_remove_only_the_mod() {
    let (_, events, step) = RemoveFlow::start("sodium", "Sodium", deps(), false, true, false);
    assert!(matches!(&events[3], OutputEvent::Status(StatusKind::Dim, m) if m == "--force used. Will remove only this mod."));
    assert_eq!(removed(&step), vec!["sodium"]);
    let (_, events, step) = RemoveFlow::start("sodium", "Sodium", deps(), false, false, true);
    assert_eq!(events.len(), 4);
    assert_eq!(removed(&step), vec!["sodium"]);
    let (_, events, step) = RemoveFlow::start("sodium", "Sodium", deps(), true, false, false);
    assert_eq!(events.len(), 3);
    assert_eq!(removed(&step), vec!["sodium"]);
}

#[test]
fn lone_mod_asks_for_confirmation() {
    let (mut flow, events, step) = RemoveFlow::start("sodium", "Sodium", vec![], false, false, false);
    assert!(events.is_empty());
    assert!(matches!(&step, RemoveStep::Ask { prompt, default: true } if prompt == "Are you sure you want to remove Sodium?"));
    assert!(matches!(flow.answer(false), RemoveStep::Cancel));
    let (_, _, step) = RemoveFlow::start("sodium", "Sodium", vec![], true, false, false);
    assert_eq!(removed(&step), vec!["sodium"]);
    assert_eq!(removed_message("Sodium"), "Removed Sodium from modpack");
}
