use yammm::output::{source_label, version_arrow, Delivery, DownloadSummary, OutputState};
use yammm::types::ModSource;

#[test]
fn test_source_label() {
    assert_eq!(source_label(&ModSource::modrinth("x")), "Modrinth");
    assert_eq!(source_label(&ModSource::curseforge("123")), "CurseForge");
    assert_eq!(source_label(&ModSource::url("https://example.com")), "URL");
}

#[test]
fn test_download_summary_with_failures() {
    let summary = DownloadSummary {
        downloaded: 1,
        failed: vec![("mod-a".to_string(), "timeout".to_string())],
    };
    assert_eq!(summary.total(), 2);
}

#[test]
fn quiet_mode_toggle_is_observable() {
    let mut out = OutputState::new();
    let prev = out.is_quiet();
    out.set_quiet(true);
    assert!(out.is_quiet());
    out.set_quiet(false);
    assert!(!out.is_quiet());
    out.set_quiet(prev);
}

#[test]
fn captured_lines_ignore_quiet_for_visibility() {
    let mut out = OutputState::new();
    let prev = out.is_quiet();
    out.set_quiet(true);
    out.start_capture();
    out.success("captured message");
    out.bullet("captured bullet");
    let lines = out.stop_capture();
    out.set_quiet(prev);
    assert!(
        lines.iter().any(|l| l.contains("captured message")),
        "capture should record success lines even in quiet mode: {lines:?}"
    );
    assert!(
        lines.iter().any(|l| l.contains("captured bullet")),
        "capture should record bullet lines even in quiet mode: {lines:?}"
    );
}

#[test]
fn capture_records_plain_rendering_for_all_status_kinds() {
    let mut out = OutputState::new();
    out.start_capture();
    out.heading("H");
    out.info("I");
    out.dim("D");
    out.success("S");
    out.bullet("B");
    out.blank_line();
    out.raw_line("R");
    out.warning("W");
    out.error("E");
    let lines = out.stop_capture();
    assert!(lines.iter().any(|l| l == "H"));
    assert!(lines.iter().any(|l| l == "I"));
    assert!(lines.iter().any(|l| l == "D"));
    assert!(lines.iter().any(|l| l == "✓ S"));
    assert!(lines.iter().any(|l| l == "  • B"));
    assert!(lines.iter().any(|l| l.is_empty()));
    assert!(lines.iter().any(|l| l == "R"));
    assert!(lines.iter().any(|l| l == "⚠ W"));
    assert!(lines.iter().any(|l| l == "✗ E"));
}

#[test]
fn emit_json_routes_through_dispatch() {
    let mut out = OutputState::new();
    out.start_capture();
    let mut doc = serde_json::Map::new();
    doc.insert("k".to_string(), serde_json::Value::String("v".to_string()));
    let text = serde_json::to_string_pretty(&serde_json::Value::Object(doc)).unwrap();
    out.emit_json_text(&text);
    let lines = out.stop_capture();
    let joined = lines.join("\n");
    assert!(joined.contains("\"k\""));
    assert!(joined.contains("\"v\""));
}

// Own tests.

#[test]
fn quiet_silences_status_but_not_diagnostics() {
    let mut out = OutputState::new();
    out.set_quiet(true);
    assert!(matches!(out.success("done"), Delivery::Silenced));
    assert!(matches!(out.warning("careful"), Delivery::Diagnostic(_, _)));
    assert!(matches!(out.error("broken"), Delivery::Diagnostic(_, _)));
}

#[test]
fn stop_capture_drains_the_buffer() {
    let mut out = OutputState::new();
    out.start_capture();
    out.info("one");
    assert!(out.is_captured());
    assert_eq!(out.stop_capture(), vec!["one".to_string()]);
    assert!(!out.is_captured());
    out.start_capture();
    assert!(out.stop_capture().is_empty());
}

#[test]
fn uncaptured_status_is_printed() {
    let mut out = OutputState::new();
    match out.heading("Title") {
        Delivery::Status(_, msg) => assert_eq!(msg, "Title"),
        _ => panic!("expected a status line"),
    }
}

#[test]
fn json_mode_requirement() {
    let mut out = OutputState::new();
    assert!(out.require_json_support("search").is_ok());
    out.set_json_mode(true);
    assert!(out.is_json_mode());
    let err = out.require_json_support("launch").unwrap_err();
    assert!(err.to_string().contains("launch"));
}

#[test]
fn test_version_arrow() {
    let arrow = version_arrow("1.0.0", "2.0.0");
    assert!(arrow.contains("1.0.0"));
    assert!(arrow.contains("2.0.0"));
    assert_eq!(arrow, "1.0.0 \u{2192} 2.0.0");
}

#[test]
fn capture_keeps_every_event_in_order_and_stop_empties_it() {
    let mut out = OutputState::new();
    out.set_json_mode(true);
    out.start_capture();
    out.heading("H");
    out.success("S");
    out.bullet("B");
    out.blank_line();
    out.raw_line("R");
    out.raw_block("x\ny");
    out.warning("W");
    out.error("E");
    let lines = out.stop_capture();
    assert_eq!(lines, vec!["H", "✓ S", "  • B", "", "R", "x", "y", "⚠ W", "✗ E"]);
    assert!(!out.is_captured());
    assert!(out.stop_capture().is_empty());
}
