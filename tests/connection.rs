use web_pty_server::connection::{
    admission_error_code, auth_failure_frame, filter_input, pong_overdue, InputAction,
    OutputCoalescer,
};
use web_pty_server::{error_codes, AuthError, ClientIp, Config, ServerMessage, SessionError, SessionManager};

#[test]
fn read_only_input_is_held_back_with_rate_limited_notice() {
    let mut manager = SessionManager::new(Config::default());
    let ip = ClientIp::v4(127, 0, 0, 1);
    let (id, _) = manager.create_session(ip).unwrap();
    assert!(matches!(filter_input(&mut manager, id, false, "n"), InputAction::Forward));
    assert!(matches!(filter_input(&mut manager, id, true, "q"), InputAction::Forward));
    match filter_input(&mut manager, id, true, "n") {
        InputAction::Notice(ServerMessage::Notice { message }) => {
            assert_eq!(message, "\u{26a0} Read-only mode: Task creation disabled")
        }
        other => panic!("expected a notice, got {:?}", other),
    }
    assert!(matches!(filter_input(&mut manager, id, true, "N"), InputAction::Suppress));
    match filter_input(&mut manager, id, true, "\r") {
        InputAction::Notice(ServerMessage::Notice { message }) => {
            assert!(message.contains("This action"))
        }
        other => panic!("expected a notice, got {:?}", other),
    }
}

#[test]
fn setup_failure_frames() {
    match auth_failure_frame(AuthError::MissingToken) {
        ServerMessage::Error { message, code } => {
            assert_eq!(message, "Authorization required");
            assert_eq!(code, error_codes::AUTH_REQUIRED);
        }
        _ => panic!("expected an error frame"),
    }
    match auth_failure_frame(AuthError::InvalidToken) {
        ServerMessage::Error { code, .. } => assert_eq!(code, error_codes::AUTH_FAILED),
        _ => panic!("expected an error frame"),
    }
    assert_eq!(admission_error_code(&SessionError::GlobalCapReached), error_codes::GLOBAL_CAP);
    assert_eq!(admission_error_code(&SessionError::PerIpCapReached), error_codes::PER_IP_CAP);
    assert_eq!(admission_error_code(&SessionError::IpMismatch), error_codes::INTERNAL_ERROR);
}

#[test]
fn keepalive_deadline() {
    assert!(!pong_overdue(0, 60_000));
    assert!(pong_overdue(0, 60_001));
    assert!(!pong_overdue(10, 5));
}

#[test]
fn coalescer_batches_until_flush() {
    let mut c = OutputCoalescer::new();
    assert_eq!(c.flush(), None);
    c.append(b"ab");
    c.append(b"");
    c.append(b"c");
    assert_eq!(c.flush(), Some(b"abc".to_vec()));
    assert_eq!(c.flush(), None);
}
