use yammm::cache::{clean_threshold_bytes, http_meta_clear_plan, parse_duration_secs, pruned_message, HttpMetaClear};
use yammm::config::GlobalConfig;
use yammm::errors::YammmError;

#[test]
fn clean_threshold_defaults_to_5000_mb() {
    let mut c = GlobalConfig::new();
    assert_eq!(clean_threshold_bytes(&c), Some(5000 * 1024 * 1024));
    c.cache_max_size_mb = Some(1);
    assert_eq!(clean_threshold_bytes(&c), Some(1048576));
    c.cache_max_size_mb = Some(u64::MAX);
    assert_eq!(clean_threshold_bytes(&c), None);
}

#[test]
fn durations() {
    assert_eq!(parse_duration_secs("30s"), Some(30));
    assert_eq!(parse_duration_secs("5m"), Some(300));
    assert_eq!(parse_duration_secs("2h"), Some(7200));
    assert_eq!(parse_duration_secs("7d"), Some(604800));
    assert_eq!(parse_duration_secs("45"), Some(45));
    assert_eq!(parse_duration_secs("0h"), None);
    assert_eq!(parse_duration_secs("h"), None);
    assert_eq!(parse_duration_secs("1w"), None);
    assert_eq!(parse_duration_secs(""), None);
}

#[test]
fn clear_plans() {
    assert_eq!(http_meta_clear_plan(false, &None).unwrap(), HttpMetaClear::All);
    assert_eq!(http_meta_clear_plan(true, &None).unwrap(), HttpMetaClear::Stale);
    assert_eq!(
        http_meta_clear_plan(true, &Some("2h".to_string())).unwrap(),
        HttpMetaClear::OlderThan(7200)
    );
    assert!(matches!(
        http_meta_clear_plan(false, &Some("soon".to_string())),
        Err(YammmError::InvalidArgs(m)) if m.starts_with("invalid --max-age 'soon'")
    ));
}

#[test]
fn pruned_messages() {
    assert_eq!(
        pruned_message(1, HttpMetaClear::Stale),
        "Pruned 1 HTTP metadata entry (stale (default 24h))."
    );
    assert_eq!(
        pruned_message(3, HttpMetaClear::OlderThan(60)),
        "Pruned 3 HTTP metadata entries (older than 60s)."
    );
}
