use web_pty_server::dashboard::cluster::validate_ui_registry;
use web_pty_server::dashboard::error::RegistryError;
use web_pty_server::dashboard::types::{App, SetupProgress, UiEntry, UiRegistry};

fn entry(id: &str, name: &str, port: u16) -> UiEntry {
    UiEntry {
        id: id.to_string(),
        name: name.to_string(),
        port,
        path: "/".to_string(),
        emoji: "*".to_string(),
        description: "d".to_string(),
    }
}

#[test]
fn registry_validation() {
    let good = UiRegistry { base_url: "http://localhost".to_string(), entries: vec![entry("a", "A", 80)] };
    assert_eq!(validate_ui_registry(&good), Ok(()));
    let empty = UiRegistry { base_url: "http://x".to_string(), entries: vec![] };
    assert_eq!(
        validate_ui_registry(&empty),
        Err(RegistryError::InvalidEntry("Registry has no entries".to_string()))
    );
    let bad_port = UiRegistry {
        base_url: "ftp://x".to_string(),
        entries: vec![entry("a", "A", 80), entry("g", "G", 0)],
    };
    assert_eq!(
        validate_ui_registry(&bad_port),
        Err(RegistryError::InvalidEntry("Invalid port 0 for g".to_string()))
    );
    let unnamed = UiRegistry { base_url: "http://x".to_string(), entries: vec![entry("a", "", 1)] };
    assert_eq!(
        validate_ui_registry(&unnamed),
        Err(RegistryError::InvalidEntry("Entry missing id or name".to_string()))
    );
    let bad_base = UiRegistry { base_url: "ftp://x".to_string(), entries: vec![entry("a", "A", 1)] };
    assert_eq!(
        validate_ui_registry(&bad_base),
        Err(RegistryError::Malformed("baseUrl must start with http: ftp://x".to_string()))
    );
}

#[test]
fn setup_events_update_progress() {
    let mut p = SetupProgress::default();
    p.record_line("{\"step\":\"deploy\"}".to_string());
    p.apply_event(Some("deploy"), Some("running"), Some("Deploying"));
    assert_eq!(p.current_step, "deploy");
    assert_eq!(p.current_status, "running");
    assert_eq!(p.message, "Deploying");
    assert!(!p.has_error);
    p.apply_event(None, Some("error"), Some("docker daemon not running"));
    assert!(p.has_error);
    assert_eq!(p.error_hint, "Docker Desktop may not be running");
    assert_eq!(p.remediation[0], "1. Open Docker Desktop");
    assert_eq!(p.log_lines.len(), 1);
}

#[test]
fn setup_finish_fills_generic_failure() {
    let mut p = SetupProgress::default();
    p.finish(Some((false, Some(2))));
    assert!(p.is_complete);
    assert!(p.has_error);
    assert_eq!(p.message, "Setup failed with exit code: Some(2)");
    assert_eq!(p.error_hint, "The setup script encountered an error");
    assert_eq!(p.remediation.len(), 3);

    let mut ok = SetupProgress::default();
    ok.finish(Some((true, Some(0))));
    assert!(ok.is_complete && !ok.has_error && ok.message.is_empty());

    let mut kept = SetupProgress::default();
    kept.apply_event(None, Some("error"), Some("port in use"));
    kept.finish(Some((false, None)));
    assert_eq!(kept.message, "port in use");
    assert_eq!(kept.error_hint, "Port conflict detected - another application may be using the port");
}

#[test]
fn alert_retry_messages() {
    let mut app = App::new("a".to_string(), "b".to_string());
    app.record_alerts_failure();
    assert_eq!(app.alert_retry_count, 1);
    assert_eq!(app.alerts_error.as_deref(), Some("Connecting to Prometheus... (attempt 1)"));
    app.record_alerts_failure();
    app.record_alerts_failure();
    assert_eq!(app.alerts_error.as_deref(), Some("Prometheus unavailable (retried 3x)"));
    app.record_alerts(vec![]);
    assert_eq!(app.alert_retry_count, 0);
    assert!(app.alerts_error.is_none());
}
