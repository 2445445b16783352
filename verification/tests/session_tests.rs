use pinball::session::{
    admit_connection, is_origin_allowed, Admission, ClientMessageKind, ClientSession,
    SessionAction, SessionEvent,
};

#[test]
fn origin_allowed_when_list_is_empty() {
    assert!(is_origin_allowed(Some("https://evil.example.com"), &vec![]));
}

#[test]
fn origin_allowed_when_no_origin_header_and_list_is_empty() {
    assert!(is_origin_allowed(None, &vec![]));
}

#[test]
fn origin_allowed_when_exact_match() {
    let allowed = vec!["https://pinball.vatnar.no".to_string()];
    assert!(is_origin_allowed(Some("https://pinball.vatnar.no"), &allowed));
}

#[test]
fn origin_rejected_when_not_in_list() {
    let allowed = vec!["https://pinball.vatnar.no".to_string()];
    assert!(!is_origin_allowed(Some("https://evil.example.com"), &allowed));
}

#[test]
fn origin_allowed_when_one_of_multiple_matches() {
    let allowed = vec![
        "https://pinball.vatnar.no".to_string(),
        "https://pinballbevy.vatnar.no".to_string(),
    ];
    assert!(is_origin_allowed(Some("https://pinballbevy.vatnar.no"), &allowed));
}

#[test]
fn missing_origin_header_allowed_even_when_list_configured() {
    let allowed = vec!["https://pinball.vatnar.no".to_string()];
    assert!(is_origin_allowed(None, &allowed));
}

#[test]
fn origin_match_is_exact_not_prefix() {
    let allowed = vec!["https://pinball.vatnar.no".to_string()];
    assert!(!is_origin_allowed(
        Some("https://pinball.vatnar.no.evil.com"),
        &allowed
    ));
}

#[test]
fn origin_match_is_case_sensitive() {
    let allowed = vec!["https://pinball.vatnar.no".to_string()];
    assert!(!is_origin_allowed(Some("https://Pinball.Vatnar.No"), &allowed));
}

fn parsed(kind: ClientMessageKind) -> SessionEvent {
    SessionEvent::Parsed {
        kind,
        window_expired: false,
    }
}

#[test]
fn oversized_message_disconnects() {
    let mut s = ClientSession::new(30);
    assert_eq!(s.step(SessionEvent::Text { byte_len: 1024 }), SessionAction::Parse);
    assert_eq!(
        s.step(SessionEvent::Text { byte_len: 1025 }),
        SessionAction::Disconnect
    );
}

#[test]
fn parse_spam_disconnects_on_fifth_error() {
    let mut s = ClientSession::new(30);
    for _ in 0..4 {
        assert_eq!(s.step(SessionEvent::ParseFailed), SessionAction::Continue);
    }
    assert_eq!(s.step(SessionEvent::ParseFailed), SessionAction::Disconnect);
}

#[test]
fn successful_parse_resets_error_count() {
    let mut s = ClientSession::new(30);
    for _ in 0..4 {
        s.step(SessionEvent::ParseFailed);
    }
    assert_eq!(
        s.step(parsed(ClientMessageKind::Activity)),
        SessionAction::ForwardActivity
    );
    assert_eq!(s.parse_error_count, 0);
    for _ in 0..4 {
        assert_eq!(s.step(SessionEvent::ParseFailed), SessionAction::Continue);
    }
}

#[test]
fn escape_flood_disconnects() {
    let mut s = ClientSession::new(30);
    for _ in 0..30 {
        assert_eq!(
            s.step(parsed(ClientMessageKind::BallEscaped)),
            SessionAction::ValidateBallEscaped
        );
    }
    assert_eq!(
        s.step(parsed(ClientMessageKind::BallEscaped)),
        SessionAction::Disconnect
    );
}

#[test]
fn expired_window_restarts_escape_count() {
    let mut s = ClientSession::new(2);
    assert_eq!(s.step(parsed(ClientMessageKind::BallEscaped)), SessionAction::ValidateBallEscaped);
    assert_eq!(s.step(parsed(ClientMessageKind::BallEscaped)), SessionAction::ValidateBallEscaped);
    assert_eq!(
        s.step(SessionEvent::Parsed {
            kind: ClientMessageKind::BallEscaped,
            window_expired: true
        }),
        SessionAction::ValidateBallEscaped
    );
    assert_eq!(s.ball_escaped_count, 1);
}

#[test]
fn excess_pause_and_activity_are_dropped() {
    let mut s = ClientSession::new(30);
    for _ in 0..10 {
        assert_eq!(
            s.step(parsed(ClientMessageKind::SetPaused)),
            SessionAction::ForwardSetPaused
        );
    }
    assert_eq!(s.step(parsed(ClientMessageKind::SetPaused)), SessionAction::Continue);
    assert_eq!(
        s.step(parsed(ClientMessageKind::Activity)),
        SessionAction::ForwardActivity
    );
    assert_eq!(s.step(parsed(ClientMessageKind::Activity)), SessionAction::Continue);
}

#[test]
fn frames_and_channel_events() {
    let mut s = ClientSession::new(30);
    assert_eq!(s.step(SessionEvent::Binary), SessionAction::Disconnect);
    assert_eq!(s.step(SessionEvent::Closed), SessionAction::Disconnect);
    assert_eq!(s.step(SessionEvent::Control), SessionAction::Continue);
    assert_eq!(s.step(SessionEvent::BroadcastLagged), SessionAction::Continue);
    assert_eq!(s.step(SessionEvent::BroadcastClosed), SessionAction::Disconnect);
    assert_eq!(s.step(SessionEvent::SendFailed), SessionAction::Disconnect);
    assert_eq!(s.step(SessionEvent::ServerDisconnect), SessionAction::Disconnect);
}

#[test]
fn admission_order() {
    assert_eq!(admit_connection(false, true), Admission::Forbidden);
    assert_eq!(admit_connection(false, false), Admission::Forbidden);
    assert_eq!(admit_connection(true, false), Admission::Unavailable);
    assert_eq!(admit_connection(true, true), Admission::Upgrade);
}
