use web_pty_server::dashboard::error::{
    get_docker_install_steps, get_error_hint, get_generic_error_steps, get_install_command,
    get_kind_install_steps, get_kubectl_install_steps, get_port_conflict_steps,
    get_pwsh_install_steps, get_remediation_steps, BrowserError, RegistryError, SubmitError,
};

#[test]
fn test_get_error_hint_docker() {
    let hint = get_error_hint("Docker daemon not running");
    assert!(hint.contains("Docker"));
}

#[test]
fn test_get_error_hint_kind() {
    let hint = get_error_hint("kind cluster creation failed");
    assert!(hint.contains("Kind") || hint.contains("cluster"));
}

#[test]
fn test_get_error_hint_kubectl() {
    let hint = get_error_hint("kubectl: command not found");
    assert!(hint.contains("kubectl"));
}

#[test]
fn test_get_error_hint_timeout() {
    let hint = get_error_hint("operation timed out");
    assert!(hint.contains("timeout") || hint.contains("timed out"));
}

#[test]
fn test_get_error_hint_port() {
    let hint = get_error_hint("address already in use: port 3000");
    assert!(hint.contains("port") || hint.contains("Port"));
}

#[test]
fn test_get_error_hint_permission() {
    let hint = get_error_hint("permission denied");
    assert!(hint.contains("ermission"));
}

#[test]
fn test_get_error_hint_unknown() {
    let hint = get_error_hint("something weird happened");
    assert!(hint.contains("unexpected"));
}

#[test]
fn test_get_remediation_steps_docker() {
    let steps = get_remediation_steps("Docker not running");
    assert!(!steps.is_empty());
    assert!(steps.iter().any(|s| s.contains("Docker")));
}

#[test]
fn test_get_remediation_steps_kind() {
    let steps = get_remediation_steps("kind: command not found");
    assert!(!steps.is_empty());
}

#[test]
fn test_get_remediation_steps_port_conflict() {
    let steps = get_remediation_steps("port 3000 already in use");
    assert!(!steps.is_empty());
}

#[test]
fn test_get_remediation_steps_generic() {
    let steps = get_remediation_steps("some random error");
    assert!(!steps.is_empty());
}

#[test]
fn test_registry_error_display() {
    let not_found = RegistryError::NotFound("file.json".to_string());
    let malformed = RegistryError::Malformed("JSON parse".to_string());
    let invalid = RegistryError::InvalidEntry("missing id".to_string());
    assert!(not_found.to_message().contains("not found"));
    assert!(malformed.to_message().contains("malformed"));
    assert!(invalid.to_message().contains("Invalid"));
}

#[test]
fn test_submit_error_display() {
    let timeout = SubmitError::Timeout;
    let conn = SubmitError::ConnectionRefused;
    let validation = SubmitError::ValidationFailed("bad input".to_string());
    let server = SubmitError::ServerError(400, "bad request".to_string());
    assert!(timeout.to_message().contains("timeout"));
    assert!(conn.to_message().contains("connect"));
    assert!(validation.to_message().contains("Validation"));
    assert!(server.to_message().contains("400"));
}

#[test]
fn test_browser_error_display() {
    let restricted = BrowserError::EnvironmentRestricted("SSH".to_string());
    let not_avail = BrowserError::NotAvailable("no browser".to_string());
    let failed = BrowserError::LaunchFailed("error".to_string());
    assert!(restricted.to_message().contains("Environment"));
    assert!(not_avail.to_message().contains("available"));
    assert!(failed.to_message().contains("failed"));
}

#[test]
fn test_get_install_command() {
    let docker_cmd = get_install_command("docker");
    assert!(docker_cmd.is_some());
    let kubectl_cmd = get_install_command("kubectl");
    assert!(kubectl_cmd.is_some());
    let unknown_cmd = get_install_command("unknown_tool");
    assert!(unknown_cmd.is_none());
}

#[test]
fn test_get_docker_install_steps() {
    let steps = get_docker_install_steps();
    assert!(!steps.is_empty());
    assert!(steps.iter().any(|s| s.to_lowercase().contains("docker")));
}

#[test]
fn test_get_pwsh_install_steps() {
    let steps = get_pwsh_install_steps();
    assert!(!steps.is_empty());
}

#[test]
fn test_get_kind_install_steps() {
    let steps = get_kind_install_steps();
    assert!(!steps.is_empty());
}

#[test]
fn test_get_kubectl_install_steps() {
    let steps = get_kubectl_install_steps();
    assert!(!steps.is_empty());
}

#[test]
fn hints_follow_keyword_order_and_ignore_case() {
    assert_eq!(get_error_hint("DOCKER and kind"), "Docker Desktop may not be running");
    assert_eq!(get_error_hint("The CLUSTER is down"), "Kind cluster tool may need to be installed");
    assert_eq!(get_error_hint("Access Denied"), "Permission issue - may need elevated privileges");
    assert_eq!(get_error_hint(""), "An unexpected error occurred");
}

#[test]
fn remediation_picks_step_lists() {
    assert_eq!(get_remediation_steps("KIND failed"), get_kind_install_steps());
    assert_eq!(get_remediation_steps("kubectl missing"), get_kubectl_install_steps());
    assert_eq!(get_remediation_steps("port busy"), get_port_conflict_steps());
    assert_eq!(get_remediation_steps("???"), get_generic_error_steps());
    assert_eq!(get_remediation_steps("docker")[0], "1. Open Docker Desktop");
}

#[test]
fn install_commands_by_lower_case_name() {
    assert_eq!(get_install_command("Docker Desktop"), Some("sudo apt-get install -y docker.io".to_string()));
    assert_eq!(get_install_command("PWSH"), Some("sudo apt-get install -y powershell".to_string()));
    assert_eq!(get_install_command("kind").unwrap().starts_with("curl"), true);
    assert_eq!(get_install_command(" docker"), None);
}

#[test]
fn server_error_message_has_code_and_body() {
    assert_eq!(
        SubmitError::ServerError(503, "busy".to_string()).to_message(),
        "Gateway returned 503: busy"
    );
    assert_eq!(SubmitError::ServerError(0, String::new()).to_message(), "Gateway returned 0: ");
}
