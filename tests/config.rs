use web_pty_server::config::{parse_bounded, RawSettings};
use web_pty_server::{Config, TestMode};

fn with(f: impl FnOnce(&mut RawSettings)) -> Config {
    let mut raw = RawSettings::default();
    f(&mut raw);
    Config::from_settings(&raw)
}

#[test]
fn test_config_defaults() {
    let config = Config::from_settings(&RawSettings::default());
    assert_eq!(config.ws_port, 9000);
    assert_eq!(config.metrics_port, 9001);
    assert_eq!(config.idle_timeout_ms, 1_800_000);
    assert_eq!(config.per_ip_cap, 5);
    assert_eq!(config.global_cap, 50);
    assert_eq!(config.disconnect_grace_ms, 30_000);
    assert_eq!(config.max_output_queue_bytes, 1_048_576);
    assert!(!config.read_only);
    assert_eq!(config.token_ttl_ms, 300_000);
    assert_eq!(config.ring_max_bytes, 1_048_576);
    assert_eq!(config.ring_max_frames, 1000);
    assert_eq!(config.test_mode, TestMode::Disabled);
    assert_eq!(config.tui_binary_path, "odd-dashboard");
    assert!(config.auth_token.is_none());
}

#[test]
fn test_config_read_only_parsing() {
    assert!(with(|r| r.read_only = Some("true".to_string())).read_only);
    assert!(with(|r| r.read_only = Some("1".to_string())).read_only);
    assert!(!with(|r| r.read_only = Some("false".to_string())).read_only);
    assert!(!with(|r| r.read_only = Some("TRUE".to_string())).read_only);
}

#[test]
fn test_config_custom_values() {
    let config = with(|r| {
        r.ws_port = Some("8888".to_string());
        r.idle_timeout_secs = Some("3600".to_string());
        r.per_ip_cap = Some("10".to_string());
    });
    assert_eq!(config.ws_port, 8888);
    assert_eq!(config.idle_timeout_ms, 3_600_000);
    assert_eq!(config.per_ip_cap, 10);
}

#[test]
fn unparseable_values_fall_back_to_defaults() {
    let config = with(|r| {
        r.ws_port = Some("70000".to_string());
        r.metrics_port = Some("-1".to_string());
        r.global_cap = Some("".to_string());
        r.ring_max_frames = Some("12a".to_string());
        r.per_ip_cap = Some("+7".to_string());
    });
    assert_eq!(config.ws_port, 9000);
    assert_eq!(config.metrics_port, 9001);
    assert_eq!(config.global_cap, 50);
    assert_eq!(config.ring_max_frames, 1000);
    assert_eq!(config.per_ip_cap, 7);
}

#[test]
fn test_mode_settings() {
    assert_eq!(with(|r| r.test_mode = Some("FAIL".to_string())).test_mode, TestMode::FailConnection);
    assert_eq!(
        with(|r| r.test_mode = Some("delay:250".to_string())).test_mode,
        TestMode::DelayConnection(250)
    );
    assert_eq!(
        with(|r| r.test_mode = Some("Delay:delay:5".to_string())).test_mode,
        TestMode::DelayConnection(5)
    );
    assert_eq!(
        with(|r| r.test_mode = Some("delay:soon".to_string())).test_mode,
        TestMode::DelayConnection(1000)
    );
    assert_eq!(with(|r| r.test_mode = Some("other".to_string())).test_mode, TestMode::Disabled);
}

#[test]
fn parse_bounded_matches_unsigned_parsing() {
    assert_eq!(parse_bounded("0", 10), Some(0));
    assert_eq!(parse_bounded("+10", 10), Some(10));
    assert_eq!(parse_bounded("11", 10), None);
    assert_eq!(parse_bounded("+", 10), None);
    assert_eq!(parse_bounded("18446744073709551615", u64::MAX), Some(u64::MAX));
    assert_eq!(parse_bounded("18446744073709551616", u64::MAX), None);
    assert_eq!(parse_bounded(" 1", 10), None);
}

#[test]
fn huge_durations_saturate() {
    let config = with(|r| r.token_ttl_secs = Some("18446744073709551615".to_string()));
    assert_eq!(config.token_ttl_ms, u64::MAX);
}

#[test]
fn startup_log_never_shows_the_secret() {
    let config = with(|r| {
        r.auth_token = Some("topsecret".to_string());
        r.test_mode = Some("delay:20".to_string());
    });
    let lines = config.log_startup();
    assert_eq!(lines.len(), 4);
    assert_eq!(
        lines[0],
        "PTY config: ws_port=9000, metrics_port=9001, idle=1800s, per_ip=5, global=50, grace=30s, queue=1048576B, read_only=false"
    );
    assert_eq!(lines[1], "PTY ring: token_ttl=300s, ring_bytes=1048576B, ring_frames=1000");
    assert_eq!(lines[2], "PTY auth: enabled (token configured)");
    assert_eq!(lines[3], "PTY test mode: DELAY_CONNECTION (20ms delay)");
    assert!(lines.iter().all(|l| !l.contains("topsecret")));
    let open = Config::from_settings(&RawSettings::default()).log_startup();
    assert_eq!(open.len(), 3);
    assert_eq!(open[2], "PTY auth: disabled (no token configured)");
}
