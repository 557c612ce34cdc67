use web_pty_server::config::TestMode;
use web_pty_server::pty::pty_environment;
use web_pty_server::{Config, PtySpawnError};

#[test]
fn test_pty_spawn_error_display() {
    let e = PtySpawnError::SpawnFailed("command not found".to_string());
    let s = e.to_message();
    assert!(s.contains("Failed to spawn"));
    assert!(s.contains("command not found"));
}

#[test]
fn spawn_error_messages() {
    assert_eq!(PtySpawnError::OpenFailed("x".to_string()).to_message(), "Failed to open PTY: x");
    assert_eq!(PtySpawnError::IoSetupFailed("y".to_string()).to_message(), "Failed to setup I/O: y");
}

#[test]
fn environment_pins_terminal_and_passes_urls() {
    let mut config = Config::default();
    config.read_model_url = "http://rm:1".to_string();
    config.gateway_url = "http://gw:2".to_string();
    config.test_mode = TestMode::Disabled;
    let env = pty_environment(&config);
    let pairs: Vec<(String, String)> = env.into_iter().map(|e| (e.name, e.value)).collect();
    assert_eq!(pairs[0], ("TERM".to_string(), "xterm-256color".to_string()));
    assert_eq!(pairs[4], ("ODD_DASHBOARD_SERVER_MODE".to_string(), "1".to_string()));
    assert_eq!(pairs[5], ("READ_MODEL_URL".to_string(), "http://rm:1".to_string()));
    assert_eq!(pairs[6], ("GATEWAY_URL".to_string(), "http://gw:2".to_string()));
    assert_eq!(pairs.len(), 7);
}
