use svix_cli2::tunnel::{SessionState, TunnelAction, TunnelEvent, TunnelSession};
use svix_cli2::FatalError;

fn session() -> TunnelSession {
    TunnelSession::new(b"wss://relay.example/listen".to_vec(), None, true, 4, 500, 30_000)
}

fn connect(s: &mut TunnelSession) {
    assert_eq!(s.step(TunnelEvent::StartRequested, 0), TunnelAction::OpenChannel);
    assert_eq!(s.step(TunnelEvent::ConnectSucceeded, 0), TunnelAction::Continue);
    assert_eq!(s.state, SessionState::Connected);
}

#[test]
fn debug_url_overrides_relay_url() {
    let s = TunnelSession::new(
        b"wss://relay.example/listen".to_vec(),
        Some(b"ws://localhost:9000".to_vec()),
        true,
        4,
        500,
        30_000,
    );
    assert_eq!(s.relay_url, b"ws://localhost:9000".to_vec());
    let s = session();
    assert_eq!(s.relay_url, b"wss://relay.example/listen".to_vec());
}

#[test]
fn handshake_rejection_is_fatal() {
    let mut s = session();
    assert_eq!(s.step(TunnelEvent::StartRequested, 0), TunnelAction::OpenChannel);
    assert_eq!(
        s.step(TunnelEvent::HandshakeRejected, 0),
        TunnelAction::FatalExit(FatalError::AuthRejected)
    );
    assert_eq!(s.state, SessionState::Closed);
}

#[test]
fn heartbeat_timeouts_back_off_with_nondecreasing_capped_delays() {
    let mut s = session();
    connect(&mut s);
    let mut raws: Vec<u64> = Vec::new();
    let mut last_delay: u64 = 0;
    for round in 0..12 {
        let raw = s.backoff.current_ms;
        raws.push(raw);
        let action = if round == 0 {
            s.step(TunnelEvent::HeartbeatTimedOut, round)
        } else {
            s.step(TunnelEvent::TransportFailed, round)
        };
        assert_eq!(s.state, SessionState::Reconnecting);
        match action {
            TunnelAction::RetryAfter(d) => {
                assert!(d >= raw, "jittered delay sits on the raw schedule");
                assert!(d <= raw + raw / 2, "jitter adds at most half the raw delay");
                assert!(raw >= last_delay.min(30_000));
                last_delay = raw;
            }
            other => panic!("expected a retry delay, got {other:?}"),
        }
    }
    for w in raws.windows(2) {
        assert!(w[0] <= w[1], "raw delays never decrease");
    }
    assert!(raws.iter().all(|&r| r <= 30_000), "raw delays never exceed the cap");
    assert_eq!(*raws.last().unwrap(), 30_000, "the schedule reaches the cap");
}

#[test]
fn successful_reconnection_resets_backoff() {
    let mut s = session();
    connect(&mut s);
    s.step(TunnelEvent::HeartbeatTimedOut, 1);
    s.step(TunnelEvent::TransportFailed, 2);
    assert!(s.backoff.current_ms > 500);
    assert_eq!(s.step(TunnelEvent::RetryElapsed, 0), TunnelAction::OpenChannel);
    assert_eq!(s.step(TunnelEvent::ConnectSucceeded, 0), TunnelAction::Continue);
    assert_eq!(s.state, SessionState::Connected);
    assert_eq!(s.backoff.current_ms, 500);
}

#[test]
fn jitter_varies_with_the_draw() {
    let mut a = session();
    let mut b = session();
    connect(&mut a);
    connect(&mut b);
    let da = match a.step(TunnelEvent::HeartbeatTimedOut, 0) {
        TunnelAction::RetryAfter(d) => d,
        other => panic!("unexpected {other:?}"),
    };
    let db = match b.step(TunnelEvent::HeartbeatTimedOut, 123) {
        TunnelAction::RetryAfter(d) => d,
        other => panic!("unexpected {other:?}"),
    };
    assert_ne!(da, db, "different draws give different delays");
}

#[test]
fn acknowledged_heartbeats_change_nothing() {
    let mut s = session();
    connect(&mut s);
    assert_eq!(s.step(TunnelEvent::HeartbeatAcked, 0), TunnelAction::Continue);
    assert_eq!(s.state, SessionState::Connected);
    assert_eq!(s.backoff.current_ms, 500);
}

#[test]
fn forward_outcomes_never_close_the_session() {
    let mut s = session();
    connect(&mut s);
    assert!(s.can_admit());
    s.begin_forward();
    s.begin_forward();
    assert_eq!(s.in_flight, 2);
    // However a forward ended, the session keeps accepting.
    assert_eq!(s.step(TunnelEvent::ForwardCompleted, 0), TunnelAction::Continue);
    assert_eq!(s.state, SessionState::Connected);
    assert!(s.can_admit());
    assert_eq!(s.in_flight, 1);
}

#[test]
fn concurrency_cap_blocks_admission() {
    let mut s = TunnelSession::new(b"wss://r".to_vec(), None, true, 2, 500, 30_000);
    connect(&mut s);
    s.begin_forward();
    s.begin_forward();
    assert!(!s.can_admit());
    s.step(TunnelEvent::ForwardCompleted, 0);
    assert!(s.can_admit());
}

#[test]
fn cancellation_drains_in_flight_work_before_closing() {
    let mut s = session();
    connect(&mut s);
    s.begin_forward();
    s.begin_forward();
    assert_eq!(s.step(TunnelEvent::CancelRequested, 0), TunnelAction::Continue);
    assert_eq!(s.state, SessionState::Closing);
    assert!(!s.can_admit(), "no new frames are admitted while closing");
    assert_eq!(s.step(TunnelEvent::ForwardCompleted, 0), TunnelAction::Continue);
    assert_eq!(s.state, SessionState::Closing);
    assert_eq!(s.step(TunnelEvent::ForwardCompleted, 0), TunnelAction::SendClose);
    assert_eq!(s.state, SessionState::Closed);
}

#[test]
fn cancellation_with_nothing_in_flight_closes_at_once() {
    let mut s = session();
    connect(&mut s);
    assert_eq!(s.step(TunnelEvent::CancelRequested, 0), TunnelAction::SendClose);
    assert_eq!(s.state, SessionState::Closed);
}

#[test]
fn grace_period_running_out_forces_the_close() {
    let mut s = session();
    connect(&mut s);
    s.begin_forward();
    s.begin_forward();
    assert_eq!(s.step(TunnelEvent::CancelRequested, 0), TunnelAction::Continue);
    assert_eq!(s.state, SessionState::Closing);
    assert_eq!(s.step(TunnelEvent::GraceElapsed, 0), TunnelAction::SendClose);
    assert_eq!(s.state, SessionState::Closed);
}

#[test]
fn transient_failures_never_terminate() {
    let mut s = session();
    assert_eq!(s.step(TunnelEvent::StartRequested, 0), TunnelAction::OpenChannel);
    match s.step(TunnelEvent::TransportFailed, 0) {
        TunnelAction::RetryAfter(_) => {}
        other => panic!("unexpected {other:?}"),
    }
    assert_eq!(s.state, SessionState::Reconnecting);
    for i in 0..50 {
        s.step(TunnelEvent::TransportFailed, i);
        assert_eq!(s.state, SessionState::Reconnecting);
    }
}

#[test]
fn closed_is_terminal() {
    let mut s = session();
    assert_eq!(s.step(TunnelEvent::StartRequested, 0), TunnelAction::OpenChannel);
    s.step(TunnelEvent::HandshakeRejected, 0);
    assert_eq!(s.state, SessionState::Closed);
    for ev in [
        TunnelEvent::StartRequested,
        TunnelEvent::ConnectSucceeded,
        TunnelEvent::TransportFailed,
        TunnelEvent::HeartbeatTimedOut,
        TunnelEvent::RetryElapsed,
        TunnelEvent::CancelRequested,
    ] {
        assert_eq!(s.step(ev, 0), TunnelAction::Continue);
        assert_eq!(s.state, SessionState::Closed);
    }
}

#[test]
fn fatal_error_descriptions_are_stable() {
    assert_eq!(
        FatalError::EntropyUnavailable.describe(),
        "secure random source unavailable"
    );
    assert!(FatalError::AuthRejected.describe().contains("relay rejected the token"));
}
