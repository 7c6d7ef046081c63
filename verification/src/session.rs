//! The per-connection session machine: the authentication gate at
//! handshake, the decisions of the active select loop, and the teardown
//! that every exit path runs.

use vstd::prelude::*;
use vstd::string::StringExecFns;
use crate::auth::is_valid_client;
use crate::broadcast::Broadcaster;
use crate::rate::{spec_rate_limited, spec_rate_next, Client};
use crate::registry::Registry;
use crate::types::{AppError, BattleEvent, LocationView};

verus! {

/// The phases of one connection's lifecycle. Any error leads straight to
/// `Closed`; there is no separate error state.
#[derive(Debug, Clone, Copy, PartialEq, Eq, Structural)]
pub enum SessionState {
    Connecting,
    Active,
    Closed,
}

/// What an active session can wake up to: one of its two concurrent
/// sources is ready, or a send on its transport has failed.
#[derive(Debug, Clone)]
pub enum SessionEvent {
    InboundText,
    InboundClose,
    TransportError,
    BroadcastReceived(BattleEvent),
    SendFailed,
}

/// What the caller must do next with the connection.
#[derive(Debug, Clone, PartialEq, Eq)]
pub enum SessionAction {
    Proceed,
    SendNotification(String),
    WarnAndClose,
    Close,
}

/// The fixed welcome payload, the first thing sent on a successful
/// handshake.
pub fn welcome_text() -> (s: String)
    ensures
        s@ == "Connected to the notification service!"@,
{
    "Connected to the notification service!".to_owned()
}

/// The warning payload sent once to a session that exceeded its quota.
pub fn rate_limit_warning() -> (s: String)
    ensures
        s@ == "Rate limit exceeded. Try again later."@,
{
    "Rate limit exceeded. Try again later.".to_owned()
}

/// The notification payload announcing one event.
pub open spec fn spec_notification(loc: LocationView) -> Seq<char> {
    "New \u{2694} detected at location: "@ + loc.key()
}

/// Formats the notification payload for one event.
pub fn format_notification(event: &BattleEvent) -> (s: String)
    ensures
        s@ == spec_notification(event@),
{
    let mut s = "New \u{2694} detected at location: ".to_owned();
    let key = event.location.as_string();
    s.append(key.as_str());
    s
}

/// Relies on uuid's new_v4 and its canonical rendering for a fresh opaque
/// session identifier; nothing is promised of the value.
#[verifier::external_body]
fn fresh_session_id() -> String {
    uuid::Uuid::new_v4().to_string()
}

/// The authentication gate and session setup. A missing or mismatched
/// credential is rejected before any session record or subscription is
/// created. With the right credential, the session is registered with a
/// fresh window, subscribed to the broadcaster, and owed the fixed
/// welcome payload, returned here beside its new identifier.
pub fn handshake(
    credential: Option<&str>,
    secret: &str,
    registry: &mut Registry,
    broadcaster: &mut Broadcaster,
    now: i64,
) -> (r: Result<(String, String), AppError>)
    requires
        old(broadcaster).wf(),
    ensures
        final(broadcaster).wf(),
        final(broadcaster).capacity_spec() == old(broadcaster).capacity_spec(),
        (r is Ok) <==> (credential is Some && credential->0@ == secret@),
        r is Err ==> r->Err_0 == AppError::Unauthorized && *final(registry) == *old(registry)
            && *final(broadcaster) == *old(broadcaster),
        r is Ok ==> ({
            let sid = r->Ok_0.0@;
            &&& r->Ok_0.1@ == "Connected to the notification service!"@
            &&& final(registry).sessions() == old(registry).sessions().insert(
                sid,
                Client { request_count: 0, window_start: Some(now) },
            )
            &&& (!old(broadcaster).subscribers().contains(sid) ==> final(broadcaster).subscribers()
                == old(broadcaster).subscribers().push(sid) && final(broadcaster).queues() == old(
                broadcaster,
            ).queues().push(Seq::<LocationView>::empty()))
            &&& (old(broadcaster).subscribers().contains(sid) ==> *final(broadcaster) == *old(
                broadcaster,
            ))
        }),
{
    match is_valid_client(credential, secret) {
        Ok(()) => {
            let sid = fresh_session_id();
            registry.register(&sid, now);
            broadcaster.subscribe(&sid);
            Ok((sid, welcome_text()))
        },
        Err(_) => Err(AppError::Unauthorized),
    }
}

/// One decision of the active phase: reacts to whichever source was
/// ready. An inbound text message is charged against the session's quota
/// at instant `now`, and a violation closes the session after one
/// warning; a close frame, a transport error or a failed send closes it
/// silently; a broadcast event turns into a notification payload to send.
/// In any state but `Active` the only decision left is to close.
pub fn session_step(
    state: SessionState,
    event: SessionEvent,
    registry: &mut Registry,
    sid: &String,
    now: i64,
) -> (r: (SessionState, SessionAction))
    ensures
        !(state is Active) ==> r == (SessionState::Closed, SessionAction::Close)
            && *final(registry) == *old(registry),
        state is Active && event is InboundClose ==> r == (
            SessionState::Closed,
            SessionAction::Close,
        ) && *final(registry) == *old(registry),
        state is Active && event is TransportError ==> r == (
            SessionState::Closed,
            SessionAction::Close,
        ) && *final(registry) == *old(registry),
        state is Active && event is SendFailed ==> r == (
            SessionState::Closed,
            SessionAction::Close,
        ) && *final(registry) == *old(registry),
        state is Active ==> (event matches SessionEvent::BroadcastReceived(e) ==> (r.0
            == SessionState::Active && (r.1 matches SessionAction::SendNotification(m) && m@
            == spec_notification(e@)) && *final(registry) == *old(registry))),
        state is Active && event is InboundText && !old(registry).sessions().dom().contains(sid@)
            ==> r == (SessionState::Active, SessionAction::Proceed) && final(registry).sessions()
            == old(registry).sessions(),
        state is Active && event is InboundText && old(registry).sessions().dom().contains(sid@)
            ==> ({
            let c = old(registry).sessions()[sid@];
            &&& final(registry).sessions() == old(registry).sessions().insert(
                sid@,
                spec_rate_next(c, now),
            )
            &&& (spec_rate_limited(c, now as int) ==> r == (
                SessionState::Closed,
                SessionAction::WarnAndClose,
            ))
            &&& (!spec_rate_limited(c, now as int) ==> r == (
                SessionState::Active,
                SessionAction::Proceed,
            ))
        }),
{
    match state {
        SessionState::Active => {
            match event {
                SessionEvent::InboundText => {
                    match registry.check_and_record(sid, now) {
                        Some(true) => (SessionState::Closed, SessionAction::WarnAndClose),
                        Some(false) => (SessionState::Active, SessionAction::Proceed),
                        None => (SessionState::Active, SessionAction::Proceed),
                    }
                },
                SessionEvent::InboundClose => (SessionState::Closed, SessionAction::Close),
                SessionEvent::TransportError => (SessionState::Closed, SessionAction::Close),
                SessionEvent::BroadcastReceived(e) => {
                    (SessionState::Active, SessionAction::SendNotification(format_notification(&e)))
                },
                SessionEvent::SendFailed => (SessionState::Closed, SessionAction::Close),
            }
        },
        _ => (SessionState::Closed, SessionAction::Close),
    }
}

/// The teardown owed on every exit path, however the session ended: its
/// registry record and its subscription are dropped unconditionally.
pub fn session_close(registry: &mut Registry, broadcaster: &mut Broadcaster, sid: &String)
    requires
        old(broadcaster).wf(),
    ensures
        final(broadcaster).wf(),
        final(broadcaster).capacity_spec() == old(broadcaster).capacity_spec(),
        final(registry).sessions() == old(registry).sessions().remove(sid@),
        !old(broadcaster).subscribers().contains(sid@) ==> *final(broadcaster) == *old(
            broadcaster,
        ),
        old(broadcaster).subscribers().contains(sid@) ==> exists|k: int|
            {
                &&& 0 <= k < old(broadcaster).subscribers().len()
                &&& old(broadcaster).subscribers()[k] == sid@
                &&& final(broadcaster).subscribers() == old(broadcaster).subscribers().remove(k)
                &&& final(broadcaster).queues() == #[trigger] old(broadcaster).queues().remove(k)
            },
{
    registry.unregister(sid);
    broadcaster.unsubscribe(sid);
}

} // verus!
