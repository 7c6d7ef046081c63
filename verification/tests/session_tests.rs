use rclaim::broadcast::Broadcaster;
use rclaim::registry::Registry;
use rclaim::session::{
    handshake, rate_limit_warning, session_close, session_step, welcome_text, SessionAction,
    SessionEvent, SessionState,
};
use rclaim::types::{AppError, BattleEvent, Location};

#[test]
fn auth_gate_rejects_before_any_record() {
    let mut registry = Registry::new();
    let mut b = Broadcaster::new(100);
    let r = handshake(None, "s3cret", &mut registry, &mut b, 0);
    assert!(matches!(r, Err(AppError::Unauthorized)));
    let r = handshake(Some("wrong"), "s3cret", &mut registry, &mut b, 0);
    assert!(matches!(r, Err(AppError::Unauthorized)));
    assert_eq!(registry.len(), 0, "no session record on a rejected handshake");
    assert_eq!(b.sub_count(), 0, "no subscription on a rejected handshake");
}

#[test]
fn auth_gate_admits_and_owes_welcome() {
    let mut registry = Registry::new();
    let mut b = Broadcaster::new(100);
    let (sid, welcome) = handshake(Some("s3cret"), "s3cret", &mut registry, &mut b, 5).unwrap();
    assert_eq!(welcome, "Connected to the notification service!");
    assert_eq!(welcome, welcome_text());
    assert!(registry.contains(&sid));
    assert_eq!(registry.len(), 1);
    assert_eq!(b.sub_count(), 1);
}

#[test]
fn inbound_messages_respect_the_quota() {
    let mut registry = Registry::new();
    let sid = "session-a".to_string();
    let t: i64 = 10_000;
    registry.register(&sid, t);
    for _ in 0..100 {
        let (state, action) =
            session_step(SessionState::Active, SessionEvent::InboundText, &mut registry, &sid, t);
        assert_eq!(state, SessionState::Active);
        assert_eq!(action, SessionAction::Proceed);
    }
    let (state, action) =
        session_step(SessionState::Active, SessionEvent::InboundText, &mut registry, &sid, t);
    assert_eq!(state, SessionState::Closed, "the session is terminated");
    assert_eq!(action, SessionAction::WarnAndClose);
    assert_eq!(
        rate_limit_warning(),
        "Rate limit exceeded. Try again later."
    );
}

#[test]
fn window_elapse_admits_a_new_message() {
    let mut registry = Registry::new();
    let sid = "session-a".to_string();
    let t: i64 = 0;
    registry.register(&sid, t);
    for _ in 0..101 {
        session_step(SessionState::Active, SessionEvent::InboundText, &mut registry, &sid, t);
    }
    let later = t + 15 * 60 * 1000;
    let (state, action) =
        session_step(SessionState::Active, SessionEvent::InboundText, &mut registry, &sid, later);
    assert_eq!(state, SessionState::Active, "the counter reset with the window");
    assert_eq!(action, SessionAction::Proceed);
}

#[test]
fn broadcast_event_becomes_notification() {
    let mut registry = Registry::new();
    let sid = "session-a".to_string();
    registry.register(&sid, 0);
    let e = BattleEvent {
        location: Location::new("X1".to_string(), "Y2".to_string()).unwrap(),
    };
    let (state, action) = session_step(
        SessionState::Active,
        SessionEvent::BroadcastReceived(e),
        &mut registry,
        &sid,
        0,
    );
    assert_eq!(state, SessionState::Active);
    match action {
        SessionAction::SendNotification(m) => {
            assert_eq!(m, "New ⚔ detected at location: X1Y2")
        }
        other => panic!("expected a notification, got {:?}", other),
    }
}

#[test]
fn close_and_errors_end_the_session() {
    let mut registry = Registry::new();
    let sid = "session-a".to_string();
    registry.register(&sid, 0);
    for event in [
        SessionEvent::InboundClose,
        SessionEvent::TransportError,
        SessionEvent::SendFailed,
    ] {
        let (state, action) =
            session_step(SessionState::Active, event, &mut registry, &sid, 0);
        assert_eq!(state, SessionState::Closed);
        assert_eq!(action, SessionAction::Close);
    }
    let (state, _) =
        session_step(SessionState::Closed, SessionEvent::InboundText, &mut registry, &sid, 0);
    assert_eq!(state, SessionState::Closed);
}

#[test]
fn teardown_removes_record_and_subscription() {
    let mut registry = Registry::new();
    let mut b = Broadcaster::new(100);
    let (sid, _) = handshake(Some("s"), "s", &mut registry, &mut b, 0).unwrap();
    session_close(&mut registry, &mut b, &sid);
    assert_eq!(registry.len(), 0);
    assert_eq!(b.sub_count(), 0);
    session_close(&mut registry, &mut b, &sid);
    assert_eq!(registry.len(), 0, "teardown is idempotent in effect");
}

#[test]
fn unknown_session_messages_are_accepted() {
    let mut registry = Registry::new();
    let sid = "ghost".to_string();
    let (state, action) =
        session_step(SessionState::Active, SessionEvent::InboundText, &mut registry, &sid, 0);
    assert_eq!(state, SessionState::Active);
    assert_eq!(action, SessionAction::Proceed);
    assert_eq!(registry.len(), 0);
}

#[test]
fn rate_limit_error_variant() {
    let e = AppError::RateLimitExceeded;
    assert!(matches!(e, AppError::RateLimitExceeded));
    let w = AppError::WebSocket("send failed".to_string());
    assert!(matches!(w, AppError::WebSocket(ref m) if m == "send failed"));
    let h = AppError::Http("status 500".to_string());
    assert!(matches!(h, AppError::Http(ref m) if m == "status 500"));
}
