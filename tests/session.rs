use web_pty_server::config::TestMode;
use web_pty_server::{ClientIp, Config, SessionError, SessionManager, SessionState};

fn test_config() -> Config {
    Config {
        ws_port: 9000,
        metrics_port: 9001,
        tui_binary_path: "echo".to_string(),
        auth_token: None,
        read_only: false,
        idle_timeout_ms: 60_000,
        per_ip_cap: 3,
        global_cap: 10,
        disconnect_grace_ms: 5_000,
        max_output_queue_bytes: 1024,
        read_model_url: "http://localhost:8080".to_string(),
        gateway_url: "http://localhost:3000".to_string(),
        token_ttl_ms: 300_000,
        ring_max_bytes: 1_048_576,
        ring_max_frames: 1000,
        test_mode: TestMode::Disabled,
    }
}

fn test_ip() -> ClientIp {
    ClientIp::v4(127, 0, 0, 1)
}

#[test]
fn test_create_session() {
    let mut manager = SessionManager::new(test_config());
    let result = manager.create_session(test_ip());
    assert!(result.is_ok());
    let (session_id, token) = result.unwrap();
    assert!(!token.is_empty());
    assert_eq!(manager.session_count(), 1);
    let session = manager.get_session(session_id).unwrap();
    assert_eq!(session.state, SessionState::Connected);
    assert_eq!(session.client_ip, test_ip());
}

#[test]
fn test_per_ip_cap() {
    let mut manager = SessionManager::new(test_config());
    let ip = test_ip();
    for _ in 0..3 {
        assert!(manager.create_session(ip).is_ok());
    }
    let result = manager.create_session(ip);
    assert_eq!(result.unwrap_err(), SessionError::PerIpCapReached);
}

#[test]
fn test_global_cap() {
    let mut config = test_config();
    config.global_cap = 2;
    let mut manager = SessionManager::new(config);
    let ip1 = ClientIp::v4(192, 168, 1, 1);
    let ip2 = ClientIp::v4(192, 168, 1, 2);
    let ip3 = ClientIp::v4(192, 168, 1, 3);
    assert!(manager.create_session(ip1).is_ok());
    assert!(manager.create_session(ip2).is_ok());
    let result = manager.create_session(ip3);
    assert_eq!(result.unwrap_err(), SessionError::GlobalCapReached);
}

#[test]
fn test_reconnect_with_valid_token() {
    let mut manager = SessionManager::new(test_config());
    let ip = test_ip();
    let (session_id, token) = manager.create_session(ip).unwrap();
    manager.disconnect_session(session_id);
    let result = manager.reconnect_session(session_id, &token, ip);
    assert!(result.is_ok());
    let new_token = result.unwrap();
    assert_ne!(new_token, token);
}

#[test]
fn test_reconnect_with_invalid_token() {
    let mut manager = SessionManager::new(test_config());
    let ip = test_ip();
    let (session_id, _token) = manager.create_session(ip).unwrap();
    let result = manager.reconnect_session(session_id, "wrong-token", ip);
    assert_eq!(result.unwrap_err(), SessionError::InvalidToken);
}

#[test]
fn test_reconnect_single_use_token() {
    let mut manager = SessionManager::new(test_config());
    let ip = test_ip();
    let (session_id, token) = manager.create_session(ip).unwrap();
    manager.disconnect_session(session_id);
    let new_token = manager.reconnect_session(session_id, &token, ip).unwrap();
    manager.disconnect_session(session_id);
    let result = manager.reconnect_session(session_id, &token, ip);
    assert_eq!(result.unwrap_err(), SessionError::InvalidToken);
    let result = manager.reconnect_session(session_id, &new_token, ip);
    assert!(result.is_ok());
}

#[test]
fn test_output_queue_backpressure() {
    let mut manager = SessionManager::new(test_config());
    let ip = test_ip();
    let (session_id, _) = manager.create_session(ip).unwrap();
    manager.queue_session_output(session_id, vec![0u8; 500]);
    let session = manager.get_session(session_id).unwrap();
    assert_eq!(session.output_queue_bytes, 500);
    assert_eq!(session.output_drops, 0);
    manager.queue_session_output(session_id, vec![0u8; 500]);
    let session = manager.get_session(session_id).unwrap();
    assert_eq!(session.output_queue_bytes, 1000);
    assert_eq!(session.output_drops, 0);
    manager.queue_session_output(session_id, vec![0u8; 500]);
    let session = manager.get_session(session_id).unwrap();
    assert!(session.output_drops > 0);
}

#[test]
fn test_read_only_notice_rate_limiting() {
    let mut manager = SessionManager::new(test_config());
    let ip = test_ip();
    let (session_id, _) = manager.create_session(ip).unwrap();
    assert!(manager.should_show_notice(session_id, "N"));
    assert!(!manager.should_show_notice(session_id, "N"));
    assert!(manager.should_show_notice(session_id, "L"));
}

#[test]
fn test_cleanup_idle_sessions() {
    let mut config = test_config();
    config.idle_timeout_ms = 1;
    let mut manager = SessionManager::new(config);
    let now = manager.now();
    let (session_id, _) = manager.create_session_at(test_ip(), now, 1, "t".to_string()).unwrap();
    // ten milliseconds later
    let stats1 = manager.cleanup_at(now + 10);
    assert_eq!(stats1.removed, 0);
    assert!(manager.get_session(session_id).is_some());
    let stats2 = manager.cleanup_at(now + 10);
    assert_eq!(stats2.removed, 1);
    assert!(manager.get_session(session_id).is_none());
}

#[test]
fn test_metrics() {
    let mut manager = SessionManager::new(test_config());
    let ip = test_ip();
    manager.create_session(ip).unwrap();
    manager.create_session(ClientIp::v4(192, 168, 1, 1)).unwrap();
    let metrics = manager.get_metrics();
    assert_eq!(metrics.active_sessions, 2);
    assert_eq!(metrics.total_output_drops, 0);
}

#[test]
fn reconnect_scenario_rotates_and_spends_token() {
    let mut manager = SessionManager::new(test_config());
    let ip = ClientIp::v4(10, 0, 0, 1);
    let (id, token) = manager.create_session_at(ip, 0, 7, "first".to_string()).unwrap();
    manager.disconnect_session_at(id, 100);
    let fresh = manager
        .reconnect_session_at(id, &token, ip, 200, "second".to_string())
        .unwrap();
    assert_eq!(fresh, "second");
    assert_ne!(fresh, token);
    manager.disconnect_session_at(id, 300);
    assert_eq!(
        manager.reconnect_session_at(id, &token, ip, 400, "third".to_string()),
        Err(SessionError::InvalidToken)
    );
    assert_eq!(
        manager.reconnect_session_at(id, "second", ip, 500, "fourth".to_string()),
        Ok("fourth".to_string())
    );
}

#[test]
fn spent_token_refused_even_if_issued_again() {
    let mut manager = SessionManager::new(test_config());
    let ip = test_ip();
    let (id, token) = manager.create_session_at(ip, 0, 1, "a".to_string()).unwrap();
    manager.disconnect_session_at(id, 1);
    manager.reconnect_session_at(id, &token, ip, 2, "a".to_string()).unwrap();
    manager.disconnect_session_at(id, 3);
    assert_eq!(
        manager.reconnect_session_at(id, "a", ip, 4, "b".to_string()),
        Err(SessionError::InvalidToken)
    );
}

#[test]
fn reconnect_errors_by_state() {
    let mut config = test_config();
    config.disconnect_grace_ms = 10;
    config.idle_timeout_ms = 10;
    let mut manager = SessionManager::new(config);
    let ip = test_ip();
    let (id, token) = manager.create_session_at(ip, 0, 1, "tok".to_string()).unwrap();
    // connected: already live
    assert_eq!(
        manager.reconnect_session_at(id, &token, ip, 1, "n".to_string()),
        Err(SessionError::InvalidToken)
    );
    manager.disconnect_session_at(id, 1);
    assert_eq!(
        manager.reconnect_session_at(id, &token, ClientIp::v4(1, 2, 3, 4), 2, "n".to_string()),
        Err(SessionError::IpMismatch)
    );
    // grace runs out: idle
    manager.cleanup_at(20);
    assert!(matches!(manager.get_session(id).unwrap().state, SessionState::Idle { since: 20 }));
    assert_eq!(
        manager.reconnect_session_at(id, &token, ip, 21, "n".to_string()),
        Err(SessionError::SessionExpired)
    );
    manager.cleanup_at(40);
    assert_eq!(manager.get_session(id).unwrap().state, SessionState::Reaping);
    assert_eq!(
        manager.reconnect_session_at(id, &token, ip, 41, "n".to_string()),
        Err(SessionError::SessionExpired)
    );
    let stats = manager.cleanup_at(42);
    assert_eq!(stats.removed, 1);
    assert_eq!(stats.active, 0);
    assert_eq!(
        manager.reconnect_session_at(id, &token, ip, 43, "n".to_string()),
        Err(SessionError::InvalidToken)
    );
}

#[test]
fn expired_token_is_invalid() {
    let mut manager = SessionManager::new(test_config());
    let ip = test_ip();
    let (id, token) = manager.create_session_at(ip, 0, 1, "tok".to_string()).unwrap();
    manager.disconnect_session_at(id, 1);
    assert_eq!(
        manager.reconnect_session_at(id, &token, ip, 300_001, "n".to_string()),
        Err(SessionError::InvalidToken)
    );
    assert!(manager.reconnect_session_at(id, &token, ip, 300_000, "n".to_string()).is_ok());
}

#[test]
fn idle_connected_session_reaped_in_two_sweeps() {
    let mut manager = SessionManager::new(test_config());
    let ip = ClientIp::v4(10, 0, 0, 1);
    manager.create_session_at(ip, 0, 1, "a".to_string()).unwrap();
    manager.create_session_at(ip, 0, 2, "b".to_string()).unwrap();
    assert_eq!(manager.ip_session_count(ip), 2);
    manager.touch_at(2, 50_000);
    let first = manager.cleanup_at(60_001);
    assert_eq!(first.removed, 0);
    assert_eq!(first.active, 2);
    assert_eq!(manager.get_session(1).unwrap().state, SessionState::Reaping);
    assert_eq!(manager.get_session(2).unwrap().state, SessionState::Connected);
    let second = manager.cleanup_at(60_002);
    assert_eq!(second.removed, 1);
    assert_eq!(second.active, 1);
    assert!(manager.get_session(1).is_none());
    assert_eq!(manager.ip_session_count(ip), 1);
}

#[test]
fn admission_caps_in_order() {
    let mut config = test_config();
    config.global_cap = 4;
    let mut manager = SessionManager::new(config);
    let ip = test_ip();
    for i in 0..3u128 {
        assert!(manager.create_session_at(ip, 0, i, "t".to_string()).is_ok());
    }
    assert_eq!(manager.can_create_session(ip), Err(SessionError::PerIpCapReached));
    assert!(manager.create_session_at(ClientIp::V6(1), 0, 9, "t".to_string()).is_ok());
    // both caps reached: the global one is reported
    assert_eq!(manager.can_create_session(ip), Err(SessionError::GlobalCapReached));
    assert_eq!(manager.session_count(), 4);
}

#[test]
fn disconnect_only_from_connected() {
    let mut manager = SessionManager::new(test_config());
    let ip = test_ip();
    manager.create_session_at(ip, 0, 1, "t".to_string()).unwrap();
    manager.disconnect_session_at(1, 5);
    manager.disconnect_session_at(1, 9);
    assert_eq!(manager.get_session(1).unwrap().state, SessionState::Disconnected { since: 5 });
    manager.disconnect_session_at(99, 9);
    assert_eq!(manager.session_count(), 1);
}

#[test]
fn session_error_messages() {
    assert_eq!(SessionError::GlobalCapReached.to_message(), "Maximum session limit reached");
    assert_eq!(
        SessionError::PtySpawnFailed("boom".to_string()).to_message(),
        "Failed to spawn PTY: boom"
    );
}

#[test]
fn state_predicates() {
    assert!(SessionState::Disconnected { since: 0 }.can_reconnect());
    assert!(!SessionState::Connected.can_reconnect());
    assert!(SessionState::Connected.can_accept_input());
    assert!(!SessionState::Idle { since: 0 }.can_accept_input());
    assert!(SessionState::Reaping.is_reaping());
    assert!(!SessionState::Connected.is_reaping());
}

#[test]
fn generated_tokens_differ() {
    let a = web_pty_server::PtySession::generate_token();
    let b = web_pty_server::PtySession::generate_token();
    assert_eq!(a.len(), 43);
    assert_ne!(a, b);
    assert!(a.chars().all(|c| c.is_ascii_alphanumeric() || c == '-' || c == '_'));
}
