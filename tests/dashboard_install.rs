use web_pty_server::dashboard::install::{
    get_install_description, install_output_from, install_request, InstallOutput,
};

#[test]
fn test_install_output_default() {
    let output = InstallOutput::default();
    assert!(!output.success);
    assert!(output.lines.is_empty());
    assert!(output.error_message.is_none());
}

#[test]
fn test_install_output_with_lines() {
    let output = InstallOutput {
        success: true,
        lines: vec!["Line 1".to_string(), "Line 2".to_string()],
        error_message: None,
    };
    assert!(output.success);
    assert_eq!(output.lines.len(), 2);
    assert_eq!(output.lines[0], "Line 1");
    assert_eq!(output.lines[1], "Line 2");
}

#[test]
fn test_install_output_with_error() {
    let output = InstallOutput {
        success: false,
        lines: vec!["ERR: Something went wrong".to_string()],
        error_message: Some("Exit code: 1".to_string()),
    };
    assert!(!output.success);
    assert!(output.lines[0].starts_with("ERR:"));
    assert!(output.error_message.is_some());
    assert!(output.error_message.unwrap().contains("Exit code"));
}

#[test]
fn test_install_output_empty_lines() {
    let output = InstallOutput { success: true, lines: vec![], error_message: None };
    assert!(output.success);
    assert!(output.lines.is_empty());
}

#[test]
fn test_install_output_clone() {
    let output = InstallOutput {
        success: true,
        lines: vec!["test".to_string()],
        error_message: Some("error".to_string()),
    };
    let cloned = output.clone();
    assert_eq!(cloned.success, output.success);
    assert_eq!(cloned.lines, output.lines);
    assert_eq!(cloned.error_message, output.error_message);
}

#[test]
fn test_execute_install_unknown_prereq() {
    let output = install_request("nonexistent_tool_xyz").unwrap_err();
    assert!(!output.success);
    assert!(!output.lines.is_empty());
    assert!(output.lines[0].contains("No install command"));
    assert!(output.error_message.is_some());
}

#[test]
fn test_execute_install_returns_output_structure() {
    let output = install_request("nonexistent_prereq_xyz").unwrap_err();
    let _ = output.success;
    let _ = output.lines.len();
    let _ = output.error_message.is_some();
    assert!(!output.lines.is_empty());
}

#[test]
fn test_get_install_description_docker() {
    let desc = get_install_description("docker");
    assert!(desc.contains("Docker"));
    assert!(desc.contains("container"));
}

#[test]
fn test_get_install_description_docker_desktop() {
    let desc = get_install_description("Docker Desktop");
    assert!(desc.contains("Docker"));
}

#[test]
fn test_get_install_description_powershell() {
    let desc = get_install_description("powershell");
    assert!(desc.contains("PowerShell"));
}

#[test]
fn test_get_install_description_pwsh() {
    let desc = get_install_description("pwsh");
    assert!(desc.contains("PowerShell"));
}

#[test]
fn test_get_install_description_kubectl() {
    let desc = get_install_description("kubectl");
    assert!(desc.contains("kubectl"));
    assert!(desc.contains("Kubernetes"));
}

#[test]
fn test_get_install_description_kind() {
    let desc = get_install_description("kind");
    assert!(desc.contains("kind"));
    assert!(desc.contains("Docker") || desc.contains("Kubernetes"));
}

#[test]
fn test_get_install_description_unknown() {
    let desc = get_install_description("unknown_tool_xyz");
    assert!(desc.contains("prerequisite"));
    assert!(desc.contains("unknown_tool_xyz"));
}

#[test]
fn test_get_install_description_case_insensitive() {
    let lower = get_install_description("docker");
    let upper = get_install_description("DOCKER");
    let mixed = get_install_description("Docker");
    assert_eq!(lower, upper);
    assert_eq!(lower, mixed);
}

#[test]
fn install_request_for_known_tool() {
    assert_eq!(install_request("KUBECTL").unwrap(), "sudo snap install kubectl --classic");
    let err = install_request("x").unwrap_err();
    assert_eq!(err.lines, vec!["No install command for x".to_string()]);
    assert_eq!(err.error_message, Some("Unknown prerequisite: x".to_string()));
}

#[test]
fn install_output_keeps_last_twenty_lines() {
    let out: Vec<String> = (0..15).map(|i| format!("out {}", i)).collect();
    let err: Vec<String> = (0..10).map(|i| format!("e{}", i)).collect();
    let r = install_output_from(false, &out, &err, Some(2));
    assert!(!r.success);
    assert_eq!(r.lines.len(), 20);
    assert_eq!(r.lines[0], "out 5");
    assert_eq!(r.lines[19], "ERR: e9");
    assert_eq!(r.error_message, Some("Exit code: Some(2)".to_string()));
    let ok = install_output_from(true, &vec!["a".to_string()], &vec![], None);
    assert_eq!(ok.lines, vec!["a".to_string()]);
    assert!(ok.error_message.is_none());
    let killed = install_output_from(false, &vec![], &vec![], None);
    assert_eq!(killed.error_message, Some("Exit code: None".to_string()));
    let negative = install_output_from(false, &vec![], &vec![], Some(-3));
    assert_eq!(negative.error_message, Some("Exit code: Some(-3)".to_string()));
}
