use yammm::errors::YammmError;
use yammm::output::{DiagnosticKind, OutputEvent, StatusKind};
use yammm::types::{DependencyKind, HashType, ModSource};
use yammm::update::{
    apply_update_fields, failed_checks_events, finish_updates, needs_update_check, plan_update, recorded_deps,
    LatestVersion, ModUpdate, ProviderDep, UpdateCheckResult, UpdatePlan, UpdateRun, UpdateStep,
};

fn latest(v: &str) -> LatestVersion {
    LatestVersion {
        version: v.to_string(),
        download_url: format!("https://dl/{}", v),
        hash: Some("h".to_string()),
        hash_type: HashType::Sha512,
    }
}

#[test]
fn only_changed_versions_are_updates() {
    let mut r = UpdateCheckResult::new();
    r.record_check_outcome("sodium", "Sodium", "1.0", Ok(latest("1.0")));
    assert!(r.updates.is_empty());
    r.record_check_outcome("sodium", "Sodium", "1.0", Ok(latest("1.1")));
    assert_eq!(r.updates.len(), 1);
    assert_eq!(r.updates[0].latest_version, "1.1");
    assert_eq!(r.updates[0].current_version, "1.0");
    r.record_check_outcome("iris", "Iris", "2.0", Err("timeout".to_string()));
    assert_eq!(r.failed_checks, vec![("Iris".to_string(), "timeout".to_string())]);
}

#[test]
fn url_and_unresolved_mods_are_not_checked() {
    let mut m = yammm::mrpack_import::imported_tracked_mod(
        &yammm::mrpack_import::unresolved_import(&[], "mods/a-1.jar", &None, &None),
        "",
        yammm::types::ProjectType::Mod,
        yammm::types::ModEnv::Both,
        None,
        false,
    );
    assert!(!needs_update_check(&m));
    m.unresolved = false;
    assert!(needs_update_check(&m));
    m.source = ModSource::url("https://x/a.jar");
    assert!(!needs_update_check(&m));
    let u = ModUpdate {
        id: "a".to_string(),
        name: "A".to_string(),
        current_version: "1".to_string(),
        latest_version: "2".to_string(),
        download_url: "https://x/a-2.jar".to_string(),
        hash: None,
        hash_type: HashType::Sha1,
    };
    apply_update_fields(&mut m, &u, None);
    assert_eq!(m.version, "2");
    assert_eq!(m.download_url, "https://x/a-2.jar");
}

#[test]
fn report_of_failed_checks() {
    let events = failed_checks_events(&[("Iris".to_string(), "timeout".to_string())]);
    assert_eq!(events.len(), 3);
    assert!(matches!(events[0], OutputEvent::BlankLine));
    match &events[1] {
        OutputEvent::Diagnostic(DiagnosticKind::Warning, m) => {
            assert_eq!(m, "1 mod(s) could not be checked for updates:")
        }
        _ => panic!("expected warning"),
    }
    match &events[2] {
        OutputEvent::Status(StatusKind::Bullet, m) => assert_eq!(m, "Iris: timeout"),
        _ => panic!("expected bullet"),
    }
    assert!(failed_checks_events(&[]).is_empty());
}

#[test]
fn summary_line() {
    let (e, err) = finish_updates(3, 0);
    assert!(matches!(e, OutputEvent::Status(StatusKind::Success, ref m) if m == "3 updated, 0 failed"));
    assert!(err.is_none());
    let (e, err) = finish_updates(1, 2);
    assert!(matches!(e, OutputEvent::Diagnostic(DiagnosticKind::Warning, ref m) if m == "1 updated, 2 failed"));
    assert!(matches!(err, Some(YammmError::DownloadFailed(ref m)) if m == "2 update(s) failed"));
}

fn offered(name: &str, from: &str, to: &str) -> yammm::update::ModUpdate {
    yammm::update::ModUpdate {
        id: name.to_lowercase(),
        name: name.to_string(),
        current_version: from.to_string(),
        latest_version: to.to_string(),
        download_url: String::new(),
        hash: None,
        hash_type: yammm::types::HashType::Sha1,
    }
}

fn texts(events: &[yammm::output::OutputEvent]) -> Vec<String> {
    events
        .iter()
        .map(|e| match e {
            OutputEvent::Status(k, m) => format!("{:?}:{}", k, m),
            OutputEvent::Diagnostic(k, m) => format!("{:?}!{}", k, m),
            OutputEvent::BlankLine => String::new(),
            _ => "?".to_string(),
        })
        .collect()
}

#[test]
fn plan_when_everything_is_current() {
    let r = UpdateCheckResult::new();
    match plan_update(&r, false, false) {
        UpdatePlan::Stop(e) => assert_eq!(texts(&e), vec!["Success:All mods, resource packs, and shader packs are up to date."]),
        _ => panic!("should stop"),
    }
    match plan_update(&r, true, false) {
        UpdatePlan::Stop(e) => assert_eq!(texts(&e), vec!["Success:All up to date."]),
        _ => panic!("should stop"),
    }
    assert!(matches!(plan_update(&r, false, true), UpdatePlan::JsonNothing));
    assert!(matches!(plan_update(&r, true, true), UpdatePlan::JsonCheckOnly));
}

#[test]
fn plan_lists_updates() {
    let mut r = UpdateCheckResult::new();
    r.updates.push(offered("Sodium", "0.5", "0.6"));
    r.failed_checks.push(("Iris".to_string(), "timeout".to_string()));
    match plan_update(&r, true, false) {
        UpdatePlan::Stop(e) => assert_eq!(
            texts(&e),
            vec![
                "".to_string(),
                "Warning!1 mod(s) could not be checked for updates:".to_string(),
                "Bullet:Iris: timeout".to_string(),
                "".to_string(),
                "Heading:1 update(s) available (not applied):".to_string(),
                "Bullet:Sodium 0.5 \u{2192} 0.6".to_string(),
            ]
        ),
        _ => panic!("should stop"),
    }
    match plan_update(&r, false, false) {
        UpdatePlan::Proceed(e) => {
            let t = texts(&e);
            assert_eq!(t[4], "Heading:1 item(s) with available updates:");
            assert_eq!(t[5], "Bullet:0.5 \u{2192} 0.6");
        },
        _ => panic!("should proceed"),
    }
}

#[test]
fn run_asks_then_counts() {
    let mut run = UpdateRun::new(vec![offered("A", "1", "2"), offered("B", "1", "3"), offered("C", "1", "4")], false);
    match run.step() {
        UpdateStep::Ask { index, prompt } => {
            assert_eq!(index, 0);
            assert_eq!(prompt, "Update A 1 \u{2192} 2?");
        },
        _ => panic!("should ask"),
    }
    let e = run.finish_apply(Ok(()));
    assert_eq!(texts(&[e]), vec!["Success:A updated to 2"]);
    run.decline();
    let e = run.finish_apply(Err("network".to_string()));
    assert_eq!(texts(&[e]), vec!["Error!C update failed: network"]);
    assert!(matches!(run.step(), UpdateStep::Done));
    assert_eq!((run.updated, run.failed), (1, 1));
    assert_eq!(run.applied[0].3, "2");
    assert_eq!(run.failed_updates[0].2, "network");
    let (summary, err) = finish_updates(run.updated, run.failed);
    assert_eq!(texts(&[summary]), vec!["Warning!1 updated, 1 failed"]);
    assert!(err.is_some());
    let auto = UpdateRun::new(vec![offered("A", "1", "2")], true);
    assert!(matches!(auto.step(), UpdateStep::Apply { index: 0 }));
}

#[test]
fn provider_deps_are_filtered() {
    let raw = vec![
        ProviderDep { mod_id: "sodium".to_string(), dep_type: DependencyKind::Required, source: None },
        ProviderDep { mod_id: "Fabric API".to_string(), dep_type: DependencyKind::Required, source: None },
        ProviderDep { mod_id: "bundled".to_string(), dep_type: DependencyKind::Embedded, source: None },
        ProviderDep { mod_id: "jei".to_string(), dep_type: DependencyKind::Optional, source: Some(ModSource::curseforge("jei")) },
    ];
    let deps = recorded_deps(&raw, "sodium", &ModSource::modrinth("sodium"));
    assert_eq!(deps.len(), 2);
    assert_eq!(deps[0].mod_id, "fabric-api");
    assert!(matches!(&deps[0].source, ModSource::Modrinth { id } if id == "sodium"));
    assert_eq!(deps[1].kind, DependencyKind::Optional);
    assert!(matches!(&deps[1].source, ModSource::CurseForge { id } if id == "jei"));
}
