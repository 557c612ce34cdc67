use web_pty_server::config::TestMode;
use web_pty_server::{authenticate, parse_auth_param, parse_reconnect_params, AuthError, AuthResult, Config};

fn config_with_token(token: Option<&str>) -> Config {
    Config {
        ws_port: 9000,
        metrics_port: 9001,
        tui_binary_path: "test".to_string(),
        auth_token: token.map(|s| s.to_string()),
        read_only: false,
        idle_timeout_ms: 60_000,
        per_ip_cap: 5,
        global_cap: 50,
        disconnect_grace_ms: 30_000,
        max_output_queue_bytes: 1024,
        read_model_url: "http://localhost:8080".to_string(),
        gateway_url: "http://localhost:3000".to_string(),
        token_ttl_ms: 300_000,
        ring_max_bytes: 1_048_576,
        ring_max_frames: 1000,
        test_mode: TestMode::Disabled,
    }
}

#[test]
fn test_auth_disabled_when_no_token_configured() {
    let config = config_with_token(None);
    let result = authenticate(&config, None, None);
    assert_eq!(result, AuthResult::NoAuthRequired);
}

#[test]
fn test_auth_success_with_valid_token() {
    let config = config_with_token(Some("secret123"));
    let result = authenticate(&config, Some("Bearer secret123"), None);
    assert_eq!(result, AuthResult::Authenticated);
}

#[test]
fn test_auth_success_with_query_token() {
    let config = config_with_token(Some("secret123"));
    let result = authenticate(&config, None, Some("secret123"));
    assert_eq!(result, AuthResult::Authenticated);
}

#[test]
fn test_auth_header_takes_precedence() {
    let config = config_with_token(Some("secret123"));
    let result = authenticate(&config, Some("Bearer secret123"), Some("wrong"));
    assert_eq!(result, AuthResult::Authenticated);
}

#[test]
fn test_auth_failure_missing_both() {
    let config = config_with_token(Some("secret123"));
    let result = authenticate(&config, None, None);
    assert_eq!(result, AuthResult::Failed(AuthError::MissingToken));
}

#[test]
fn test_auth_failure_invalid_token() {
    let config = config_with_token(Some("secret123"));
    let result = authenticate(&config, Some("Bearer wrongtoken"), None);
    assert_eq!(result, AuthResult::Failed(AuthError::InvalidToken));
}

#[test]
fn test_auth_failure_malformed_header() {
    let config = config_with_token(Some("secret123"));
    let result = authenticate(&config, Some("Basic secret123"), None);
    assert_eq!(result, AuthResult::Failed(AuthError::InvalidToken));
}

#[test]
fn test_auth_with_whitespace() {
    let config = config_with_token(Some("secret123"));
    let result = authenticate(&config, Some("Bearer   secret123  "), None);
    assert_eq!(result, AuthResult::Authenticated);
}

#[test]
fn test_parse_auth_param() {
    assert_eq!(parse_auth_param(Some("auth=secret123")), Some("secret123".to_string()));
    assert_eq!(
        parse_auth_param(Some("session=abc&auth=secret123&token=xyz")),
        Some("secret123".to_string())
    );
    assert_eq!(parse_auth_param(Some("session=abc")), None);
    assert_eq!(parse_auth_param(None), None);
}

#[test]
fn test_parse_reconnect_params_valid() {
    let result = parse_reconnect_params(Some("session=abc123&token=xyz789"));
    assert_eq!(result, Some(("abc123".to_string(), "xyz789".to_string())));
}

#[test]
fn test_parse_reconnect_params_missing_token() {
    let result = parse_reconnect_params(Some("session=abc123"));
    assert_eq!(result, None);
}

#[test]
fn test_parse_reconnect_params_missing_session() {
    let result = parse_reconnect_params(Some("token=xyz789"));
    assert_eq!(result, None);
}

#[test]
fn test_parse_reconnect_params_empty() {
    let result = parse_reconnect_params(None);
    assert_eq!(result, None);
}

#[test]
fn test_parse_reconnect_params_with_extra_params() {
    let result = parse_reconnect_params(Some("session=abc&token=xyz&other=ignored"));
    assert_eq!(result, Some(("abc".to_string(), "xyz".to_string())));
}

#[test]
fn unconfigured_secret_admits_any_request() {
    let config = config_with_token(None);
    assert_eq!(authenticate(&config, Some("Basic x"), Some("y")), AuthResult::NoAuthRequired);
    assert_eq!(authenticate(&config, Some("Bearer x"), None), AuthResult::NoAuthRequired);
    assert_eq!(authenticate(&config, None, Some("anything")), AuthResult::NoAuthRequired);
}

#[test]
fn wrong_query_token_is_invalid() {
    let config = config_with_token(Some("secret123"));
    assert_eq!(
        authenticate(&config, None, Some("secret1234")),
        AuthResult::Failed(AuthError::InvalidToken)
    );
    // the query value is compared as it stands, without trimming
    assert_eq!(
        authenticate(&config, None, Some(" secret123")),
        AuthResult::Failed(AuthError::InvalidToken)
    );
}

#[test]
fn header_decides_over_correct_query() {
    let config = config_with_token(Some("secret123"));
    assert_eq!(
        authenticate(&config, Some("Bearer wrong"), Some("secret123")),
        AuthResult::Failed(AuthError::InvalidToken)
    );
    assert_eq!(
        authenticate(&config, Some("bearer secret123"), None),
        AuthResult::Failed(AuthError::InvalidToken)
    );
}

#[test]
fn header_trims_unicode_white_space() {
    let config = config_with_token(Some("secret123"));
    assert_eq!(
        authenticate(&config, Some("Bearer \u{3000}secret123\t\n"), None),
        AuthResult::Authenticated
    );
}

#[test]
fn query_params_last_pair_wins_and_first_auth_wins() {
    assert_eq!(
        parse_reconnect_params(Some("session=a&token=b&session=c")),
        Some(("c".to_string(), "b".to_string()))
    );
    assert_eq!(parse_auth_param(Some("auth=one&auth=two")), Some("one".to_string()));
    assert_eq!(parse_auth_param(Some("auth")), None);
    assert_eq!(parse_auth_param(Some("auth=a=b")), Some("a=b".to_string()));
    assert_eq!(parse_auth_param(Some("&&auth=")), Some(String::new()));
    assert_eq!(
        parse_reconnect_params(Some("session=%41&token=x%20y")),
        Some(("%41".to_string(), "x%20y".to_string()))
    );
}
