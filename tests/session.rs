use glass_pane::session::{RconError, RconSession, SessionAction, SessionEvent, Stage};

#[test]
fn new_session_connects_first() {
    let mut s = RconSession::new();
    assert!(s.is_idle());
    assert_eq!(s.begin(), SessionAction::Connect);
    assert_eq!(s.on_event(SessionEvent::Connected), SessionAction::Send);
    assert_eq!(
        s.on_event(SessionEvent::Replied("pong".to_string())),
        SessionAction::Finish(Ok("pong".to_string()))
    );
    assert!(s.connected);
    assert!(s.is_idle());
}

#[test]
fn live_session_reuses_connection() {
    let mut s = RconSession { connected: true, stage: Stage::Idle };
    assert_eq!(s.begin(), SessionAction::Send);
    assert_eq!(
        s.on_event(SessionEvent::Replied("ok".to_string())),
        SessionAction::Finish(Ok("ok".to_string()))
    );
}

#[test]
fn broken_connection_retried_once_then_command_error() {
    let mut s = RconSession { connected: true, stage: Stage::Idle };
    assert_eq!(s.begin(), SessionAction::Send);
    assert_eq!(s.on_event(SessionEvent::SendFailed), SessionAction::Connect);
    assert_eq!(s.on_event(SessionEvent::Connected), SessionAction::Send);
    assert_eq!(s.on_event(SessionEvent::SendFailed), SessionAction::Finish(Err(RconError::Command)));
    assert!(!s.connected);
    assert!(s.is_idle());
}

#[test]
fn broken_connection_retry_succeeds() {
    let mut s = RconSession { connected: true, stage: Stage::Idle };
    s.begin();
    assert_eq!(s.on_event(SessionEvent::SendFailed), SessionAction::Connect);
    assert_eq!(s.on_event(SessionEvent::Connected), SessionAction::Send);
    assert_eq!(
        s.on_event(SessionEvent::Replied("x".to_string())),
        SessionAction::Finish(Ok("x".to_string()))
    );
    assert!(s.connected);
}

#[test]
fn reconnect_failure_is_command_error() {
    let mut s = RconSession { connected: true, stage: Stage::Idle };
    s.begin();
    s.on_event(SessionEvent::SendFailed);
    assert_eq!(s.on_event(SessionEvent::ConnectFailed), SessionAction::Finish(Err(RconError::Command)));
    assert!(!s.connected);
}

#[test]
fn first_connect_failure_not_retried() {
    let mut s = RconSession::new();
    assert_eq!(s.begin(), SessionAction::Connect);
    assert_eq!(s.on_event(SessionEvent::ConnectFailed), SessionAction::Finish(Err(RconError::Connection)));
    assert!(!s.connected);
    assert!(s.is_idle());
}

#[test]
fn accepts_only_answers_to_last_action() {
    let mut s = RconSession::new();
    assert!(!s.accepts(&SessionEvent::Connected));
    s.begin();
    assert!(s.accepts(&SessionEvent::Connected));
    assert!(!s.accepts(&SessionEvent::SendFailed));
}

#[test]
fn disconnect_is_idempotent() {
    let mut s = RconSession { connected: true, stage: Stage::Idle };
    s.disconnect();
    s.disconnect();
    assert!(!s.connected);
    assert!(s.is_idle());
}
