use yammm::errors::{chain_exit_code, ChainCause, YammmError};

fn api(exit_code: i32, retryable: bool, message: &str) -> YammmError {
    YammmError::Api {
        exit_code,
        retryable,
        message: message.to_string(),
    }
}

#[test]
fn test_exit_code_mapping() {
    assert_eq!(YammmError::General("msg".into()).exit_code(), 1);
    assert_eq!(YammmError::InvalidArgs("msg".into()).exit_code(), 2);
    assert_eq!(YammmError::ModNotFound("x".into()).exit_code(), 3);
    assert_eq!(YammmError::DownloadFailed("msg".into()).exit_code(), 4);
    assert_eq!(
        YammmError::HashMismatch {
            name: "n".into(),
            expected: "e".into(),
            actual: "a".into()
        }
        .exit_code(),
        4
    );
    assert_eq!(YammmError::ConfigError("msg".into()).exit_code(), 5);
    assert_eq!(YammmError::NetworkError("msg".into()).exit_code(), 6);
    assert_eq!(YammmError::IoError("file".into()).exit_code(), 7);
    assert_eq!(api(3, false, "not found: x").exit_code(), 3);
    assert_eq!(api(8, false, "server error").exit_code(), 8);
    assert_eq!(YammmError::VersionConflict("msg".into()).exit_code(), 9);
    assert_eq!(
        YammmError::CircularDependency {
            mod_id: "m".into(),
            chain: "c".into()
        }
        .exit_code(),
        10
    );
}

#[test]
fn test_is_retryable() {
    assert!(!YammmError::General("msg".into()).is_retryable());
    assert!(!YammmError::InvalidArgs("msg".into()).is_retryable());
    assert!(!YammmError::ModNotFound("x".into()).is_retryable());
    assert!(!YammmError::DownloadFailed("msg".into()).is_retryable());
    assert!(!YammmError::ConfigError("msg".into()).is_retryable());
    assert!(YammmError::NetworkError("msg".into()).is_retryable());
    assert!(YammmError::HashMismatch {
        name: "n".into(),
        expected: "e".into(),
        actual: "a".into()
    }
    .is_retryable());
    assert!(api(8, true, "rate limited").is_retryable());
    assert!(api(8, true, "unavailable").is_retryable());
    assert!(!api(3, false, "not found").is_retryable());
    assert!(!YammmError::VersionConflict("msg".into()).is_retryable());
    assert!(!YammmError::CircularDependency {
        mod_id: "m".into(),
        chain: "c".into()
    }
    .is_retryable());
}

#[test]
fn test_convenience_constructors() {
    assert!(matches!(YammmError::invalid_args("bad"), YammmError::InvalidArgs(s) if s == "bad"));
    assert!(matches!(YammmError::mod_not_found("x"), YammmError::ModNotFound(s) if s == "x"));
    assert!(matches!(
        YammmError::download_failed("fail"),
        YammmError::DownloadFailed(s) if s == "fail"
    ));
    assert!(matches!(YammmError::config_error("cfg"), YammmError::ConfigError(s) if s == "cfg"));
    assert!(matches!(YammmError::network_error("net"), YammmError::NetworkError(s) if s == "net"));
    assert!(matches!(
        YammmError::version_conflict("vc"),
        YammmError::VersionConflict(s) if s == "vc"
    ));
    assert!(matches!(
        YammmError::circular_dep("m", "c"),
        YammmError::CircularDependency { mod_id, chain } if mod_id == "m" && chain == "c"
    ));
    assert!(matches!(YammmError::general("gen"), YammmError::General(s) if s == "gen"));
    assert!(matches!(
        YammmError::hash_mismatch("n", "e", "a"),
        YammmError::HashMismatch { name, expected, actual }
        if name == "n" && expected == "e" && actual == "a"
    ));
}

// Own tests.

#[test]
fn network_request_retryable_only_for_transport_failures() {
    let timeout = YammmError::NetworkRequest {
        timeout: true,
        connect: false,
        request: false,
        message: "timed out".into(),
    };
    let other = YammmError::NetworkRequest {
        timeout: false,
        connect: false,
        request: false,
        message: "bad body".into(),
    };
    assert!(timeout.is_retryable());
    assert!(!other.is_retryable());
    assert_eq!(other.exit_code(), 6);
    assert_eq!(other.to_string(), "bad body");
}

#[test]
fn messages_name_the_kind() {
    assert_eq!(YammmError::mod_not_found("jei").to_string(), "mod not found: jei");
    assert_eq!(
        YammmError::hash_mismatch("a.jar", "x", "y").to_string(),
        "hash mismatch for a.jar: expected x, got y"
    );
}

#[test]
fn test_exit_code_yammm_error() {
    let chain = vec![ChainCause::Structured(YammmError::ModNotFound("test".to_string()))];
    assert_eq!(chain_exit_code(&chain), 3);
}

#[test]
fn test_exit_code_generic_error() {
    assert_eq!(chain_exit_code(&[ChainCause::Other]), 1);
}

#[test]
fn test_exit_code_wrapped_yammm_error() {
    let chain = vec![ChainCause::Other, ChainCause::Structured(YammmError::NetworkError("timeout".to_string()))];
    assert_eq!(chain_exit_code(&chain), 6);
}

#[test]
fn test_exit_code_walks_chain_for_yammm_not_found() {
    let chain = vec![
        ChainCause::Other,
        ChainCause::Other,
        ChainCause::Structured(YammmError::ModNotFound("jei".to_string())),
    ];
    assert_eq!(chain_exit_code(&chain), 3);
}

#[test]
fn test_exit_code_walks_chain_for_bare_api_error() {
    let chain = vec![ChainCause::Other, ChainCause::Api { exit_code: 3 }];
    assert_eq!(chain_exit_code(&chain), 3);
}

#[test]
fn chain_exit_code_falls_back_to_network_then_one() {
    let chain = vec![ChainCause::Other, ChainCause::Request { timeout_or_connect: true }];
    assert_eq!(chain_exit_code(&chain), 6);
    let chain = vec![ChainCause::Request { timeout_or_connect: false }, ChainCause::Other];
    assert_eq!(chain_exit_code(&chain), 1);
    let chain = vec![ChainCause::Request { timeout_or_connect: true }, ChainCause::Structured(YammmError::IoError("x".to_string()))];
    assert_eq!(chain_exit_code(&chain), 7);
}
