//! Tunnel connection: the state machine that owns the persistent channel
//! to the relay service — handshake, heartbeat, reconnection with
//! exponential backoff, cancellation, and the concurrency cap on in-flight
//! forwards.
//!
//! The machine is pure: the surrounding binary performs each returned
//! action (open the channel, sleep, send the close frame, exit) and feeds
//! the resulting event back in.

use vstd::prelude::*;
use crate::FatalError;

verus! {

/// Where the session stands. `Closed` is terminal.
#[derive(Clone, Copy, Debug, PartialEq, Eq, Structural)]
pub enum SessionState {
    Idle,
    Connecting,
    Connected,
    Reconnecting,
    Closing,
    Closed,
}

/// The longest raw backoff delay any configuration may use: one hour.
pub const BACKOFF_CAP_LIMIT_MS: u64 = 3600000;

/// Exponential backoff: a raw delay that doubles on every failure up to a
/// cap, plus bounded jitter so that independent sessions do not retry in
/// lockstep.
#[derive(Clone, Copy, Debug, PartialEq, Eq, Structural)]
pub struct Backoff {
    /// The raw delay of the first retry.
    pub base_ms: u64,
    /// The raw delay never grows beyond this.
    pub cap_ms: u64,
    /// The raw delay the next retry will use.
    pub current_ms: u64,
}

impl Backoff {
    pub open spec fn wf(&self) -> bool {
        &&& 0 < self.base_ms <= self.cap_ms <= BACKOFF_CAP_LIMIT_MS
        &&& self.base_ms <= self.current_ms <= self.cap_ms
    }

    pub fn new(base_ms: u64, cap_ms: u64) -> (r: Backoff)
        requires
            0 < base_ms <= cap_ms <= BACKOFF_CAP_LIMIT_MS,
        ensures
            r.wf(),
            r.base_ms == base_ms,
            r.cap_ms == cap_ms,
            r.current_ms == base_ms,
    {
        Backoff { base_ms, cap_ms, current_ms: base_ms }
    }
}

/// The raw delay that follows a given one: doubled, capped.
pub open spec fn next_raw(cur: u64, cap: u64) -> u64 {
    if 2 * cur <= cap {
        (2 * cur) as u64
    } else {
        cap
    }
}

/// The emitted delay for a raw delay and a jitter draw: the raw delay plus
/// up to half of it again. The draw may be anything; the bounds hold of
/// every value.
pub open spec fn jittered(cur: u64, seed: u64) -> u64 {
    (cur + seed % ((cur / 2 + 1) as u64)) as u64
}

/// The raw delay after a number of consecutive failures, starting from
/// a given delay.
pub open spec fn raw_after(n: nat, start: u64, cap: u64) -> u64
    decreases n,
{
    if n == 0 {
        start
    } else {
        next_raw(raw_after((n - 1) as nat, start, cap), cap)
    }
}

/// Across consecutive failures the raw backoff delays never decrease and
/// never exceed the cap; the emitted delay sits within half a raw delay
/// above the raw schedule, wherever the jitter draw falls.
pub proof fn lemma_backoff_monotone(n: nat, start: u64, cap: u64, seed: u64)
    requires
        0 < start <= cap <= BACKOFF_CAP_LIMIT_MS,
    ensures
        raw_after(n, start, cap) <= raw_after(n + 1, start, cap) <= cap,
        start <= raw_after(n, start, cap),
        raw_after(n, start, cap) <= jittered(raw_after(n, start, cap), seed) <= raw_after(
            n,
            start,
            cap,
        ) + raw_after(n, start, cap) / 2,
    decreases n,
{
    if n > 0 {
        lemma_backoff_monotone((n - 1) as nat, start, cap, seed);
    }
    lemma_raw_after_bounds(n, start, cap);
    lemma_jitter_bounds(raw_after(n, start, cap), seed);
}

/// The raw schedule stays between its starting delay and the cap.
pub proof fn lemma_raw_after_bounds(n: nat, start: u64, cap: u64)
    requires
        0 < start <= cap,
    ensures
        start <= raw_after(n, start, cap) <= cap,
    decreases n,
{
    if n > 0 {
        lemma_raw_after_bounds((n - 1) as nat, start, cap);
    }
}

/// The emitted delay never falls below the raw delay and never adds more
/// than half of it.
pub proof fn lemma_jitter_bounds(cur: u64, seed: u64)
    requires
        0 < cur <= BACKOFF_CAP_LIMIT_MS,
    ensures
        cur <= jittered(cur, seed) <= cur + cur / 2,
{
    let m = (cur / 2 + 1) as u64;
    assert(0 <= seed % m < m);
}

/// What the tunnel owner reports back into the machine.
#[derive(Clone, Copy, Debug, PartialEq, Eq, Structural)]
pub enum TunnelEvent {
    /// The listen operation begins.
    StartRequested,
    /// The channel opened and the relay accepted the token.
    ConnectSucceeded,
    /// The relay refused the handshake: invalid or expired token.
    HandshakeRejected,
    /// DNS, TLS or socket failure while opening the channel. Transient.
    TransportFailed,
    /// A heartbeat was acknowledged in time.
    HeartbeatAcked,
    /// No acknowledgment arrived within the heartbeat timeout.
    HeartbeatTimedOut,
    /// The backoff delay has elapsed; time to try again.
    RetryElapsed,
    /// The user interrupted the session.
    CancelRequested,
    /// One in-flight forwarding operation finished, however it ended.
    ForwardCompleted,
    /// The cancellation grace period ran out with work still in flight.
    GraceElapsed,
}

/// What the tunnel owner must do next.
#[derive(Clone, Copy, Debug, PartialEq, Eq, Structural)]
pub enum TunnelAction {
    /// Nothing; keep listening.
    Continue,
    /// Open the channel to the relay and run the handshake.
    OpenChannel,
    /// Sleep this many milliseconds, then report `RetryElapsed`.
    RetryAfter(u64),
    /// Send the close frame and release the connection.
    SendClose,
    /// Exit the process with this error.
    FatalExit(FatalError),
}

/// The active tunnel session: state, backoff, the chosen relay URL, the
/// security flag handed to delivery verification, and the in-flight forward count.
pub struct TunnelSession {
    pub state: SessionState,
    pub backoff: Backoff,
    /// The URL the channel is opened against.
    pub relay_url: Vec<u8>,
    /// Whether the security gate verifies deliveries (true unless the
    /// explicit opt-out is configured).
    pub security_enabled: bool,
    /// Forwarding operations currently in flight.
    pub in_flight: usize,
    /// At most this many forwards run concurrently.
    pub max_in_flight: usize,
}

/// The machine's next state for a state and an event. Handshake rejection
/// is fatal; transport failures and heartbeat loss lead to reconnection;
/// cancellation drains in-flight work in `Closing` before the close frame.
pub open spec fn next_state(s: SessionState, ev: TunnelEvent, in_flight: usize) -> SessionState {
    match (s, ev) {
        (SessionState::Idle, TunnelEvent::StartRequested) => SessionState::Connecting,
        (SessionState::Connecting, TunnelEvent::ConnectSucceeded) => SessionState::Connected,
        (SessionState::Connecting, TunnelEvent::HandshakeRejected) => SessionState::Closed,
        (SessionState::Connecting, TunnelEvent::TransportFailed) => SessionState::Reconnecting,
        (SessionState::Connected, TunnelEvent::HeartbeatTimedOut) => SessionState::Reconnecting,
        (SessionState::Reconnecting, TunnelEvent::RetryElapsed) => SessionState::Connecting,
        (SessionState::Reconnecting, TunnelEvent::TransportFailed) => SessionState::Reconnecting,
        (SessionState::Reconnecting, TunnelEvent::ConnectSucceeded) => SessionState::Connected,
        (SessionState::Reconnecting, TunnelEvent::HandshakeRejected) => SessionState::Closed,
        (SessionState::Connecting, TunnelEvent::CancelRequested) => if in_flight == 0 {
            SessionState::Closed
        } else {
            SessionState::Closing
        },
        (SessionState::Connected, TunnelEvent::CancelRequested) => if in_flight == 0 {
            SessionState::Closed
        } else {
            SessionState::Closing
        },
        (SessionState::Reconnecting, TunnelEvent::CancelRequested) => if in_flight == 0 {
            SessionState::Closed
        } else {
            SessionState::Closing
        },
        (SessionState::Closing, TunnelEvent::ForwardCompleted) => if in_flight <= 1 {
            SessionState::Closed
        } else {
            SessionState::Closing
        },
        (SessionState::Closing, TunnelEvent::GraceElapsed) => SessionState::Closed,
        (_, _) => s,
    }
}

/// Whether this state and event advance the backoff schedule: every lost
/// heartbeat and every failed connection attempt doubles the raw delay.
pub open spec fn advances_backoff(s: SessionState, ev: TunnelEvent) -> bool {
    ||| (s is Connected && ev is HeartbeatTimedOut)
    ||| (s is Connecting && ev is TransportFailed)
    ||| (s is Reconnecting && ev is TransportFailed)
}

/// Whether this state and event reset the backoff schedule: a successful
/// handshake starts the next outage from the base delay.
pub open spec fn resets_backoff(s: SessionState, ev: TunnelEvent) -> bool {
    (s is Connecting || s is Reconnecting) && ev is ConnectSucceeded
}

/// The action owed for a state and an event.
pub open spec fn action_spec(
    s: SessionState,
    ev: TunnelEvent,
    backoff: Backoff,
    in_flight: usize,
    seed: u64,
) -> TunnelAction {
    match (s, ev) {
        (SessionState::Idle, TunnelEvent::StartRequested) => TunnelAction::OpenChannel,
        (SessionState::Connecting, TunnelEvent::HandshakeRejected) => TunnelAction::FatalExit(
            FatalError::AuthRejected,
        ),
        (SessionState::Reconnecting, TunnelEvent::HandshakeRejected) => TunnelAction::FatalExit(
            FatalError::AuthRejected,
        ),
        (SessionState::Connecting, TunnelEvent::TransportFailed) => TunnelAction::RetryAfter(
            jittered(backoff.current_ms, seed),
        ),
        (SessionState::Reconnecting, TunnelEvent::TransportFailed) => TunnelAction::RetryAfter(
            jittered(backoff.current_ms, seed),
        ),
        (SessionState::Connected, TunnelEvent::HeartbeatTimedOut) => TunnelAction::RetryAfter(
            jittered(backoff.current_ms, seed),
        ),
        (SessionState::Reconnecting, TunnelEvent::RetryElapsed) => TunnelAction::OpenChannel,
        (SessionState::Closing, TunnelEvent::ForwardCompleted) => if in_flight <= 1 {
            TunnelAction::SendClose
        } else {
            TunnelAction::Continue
        },
        (SessionState::Closing, TunnelEvent::GraceElapsed) => TunnelAction::SendClose,
        (SessionState::Connected, TunnelEvent::CancelRequested) => if in_flight == 0 {
            TunnelAction::SendClose
        } else {
            TunnelAction::Continue
        },
        (SessionState::Connecting, TunnelEvent::CancelRequested) => if in_flight == 0 {
            TunnelAction::SendClose
        } else {
            TunnelAction::Continue
        },
        (SessionState::Reconnecting, TunnelEvent::CancelRequested) => if in_flight == 0 {
            TunnelAction::SendClose
        } else {
            TunnelAction::Continue
        },
        (_, _) => TunnelAction::Continue,
    }
}

impl TunnelSession {
    pub open spec fn wf(&self) -> bool {
        &&& self.backoff.wf()
        &&& self.in_flight <= self.max_in_flight
    }

    /// Whether new frames are admitted into the pipeline right now.
    /// Cancellation and reconnection both stop admission.
    pub open spec fn accepting(&self) -> bool {
        self.state is Connected
    }

    /// A fresh session aimed at the relay: the debug URL overrides the
    /// production URL when present.
    pub fn new(
        relay_url: Vec<u8>,
        debug_url: Option<Vec<u8>>,
        security_enabled: bool,
        max_in_flight: usize,
        base_ms: u64,
        cap_ms: u64,
    ) -> (r: TunnelSession)
        requires
            0 < base_ms <= cap_ms <= BACKOFF_CAP_LIMIT_MS,
        ensures
            r.wf(),
            r.state is Idle,
            debug_url matches Some(d) ==> r.relay_url@ == d@,
            debug_url is None ==> r.relay_url@ == relay_url@,
            r.security_enabled == security_enabled,
            r.in_flight == 0,
            r.max_in_flight == max_in_flight,
            r.backoff.base_ms == base_ms,
            r.backoff.cap_ms == cap_ms,
            r.backoff.current_ms == base_ms,
    {
        let url = match debug_url {
            Some(d) => d,
            None => relay_url,
        };
        TunnelSession {
            state: SessionState::Idle,
            backoff: Backoff::new(base_ms, cap_ms),
            relay_url: url,
            security_enabled,
            in_flight: 0,
            max_in_flight,
        }
    }

    /// Feeds one event into the machine: the state moves as `next_state`
    /// says, the backoff advances on every lost heartbeat or failed
    /// attempt and resets on a successful handshake, a completed forward
    /// is subtracted from the in-flight count, and the returned action is
    /// exactly what `action_spec` owes. The jitter seed may be any number.
    pub fn step(&mut self, ev: TunnelEvent, jitter_seed: u64) -> (a: TunnelAction)
        requires
            old(self).wf(),
        ensures
            final(self).wf(),
            final(self).state == next_state(old(self).state, ev, old(self).in_flight),
            a == action_spec(old(self).state, ev, old(self).backoff, old(self).in_flight,
                jitter_seed),
            advances_backoff(old(self).state, ev) ==> final(self).backoff.current_ms == next_raw(
                old(self).backoff.current_ms,
                old(self).backoff.cap_ms,
            ),
            resets_backoff(old(self).state, ev) ==> final(self).backoff.current_ms == old(
                self,
            ).backoff.base_ms,
            !advances_backoff(old(self).state, ev) && !resets_backoff(old(self).state, ev)
                ==> final(self).backoff == old(self).backoff,
            ev is ForwardCompleted ==> final(self).in_flight == if old(self).in_flight > 0 {
                (old(self).in_flight - 1) as usize
            } else {
                0usize
            },
            !(ev is ForwardCompleted) ==> final(self).in_flight == old(self).in_flight,
            final(self).backoff.base_ms == old(self).backoff.base_ms,
            final(self).backoff.cap_ms == old(self).backoff.cap_ms,
            final(self).relay_url == old(self).relay_url,
            final(self).security_enabled == old(self).security_enabled,
            final(self).max_in_flight == old(self).max_in_flight,
    {
        let delay = self.jittered_delay(jitter_seed);
        let action: TunnelAction = match (self.state, ev) {
            (SessionState::Idle, TunnelEvent::StartRequested) => {
                self.state = SessionState::Connecting;
                TunnelAction::OpenChannel
            },
            (SessionState::Connecting, TunnelEvent::ConnectSucceeded) => {
                self.state = SessionState::Connected;
                self.backoff.current_ms = self.backoff.base_ms;
                TunnelAction::Continue
            },
            (SessionState::Connecting, TunnelEvent::HandshakeRejected) => {
                self.state = SessionState::Closed;
                TunnelAction::FatalExit(FatalError::AuthRejected)
            },
            (SessionState::Connecting, TunnelEvent::TransportFailed) => {
                self.state = SessionState::Reconnecting;
                self.advance_backoff();
                TunnelAction::RetryAfter(delay)
            },
            (SessionState::Connected, TunnelEvent::HeartbeatTimedOut) => {
                self.state = SessionState::Reconnecting;
                self.advance_backoff();
                TunnelAction::RetryAfter(delay)
            },
            (SessionState::Reconnecting, TunnelEvent::RetryElapsed) => {
                self.state = SessionState::Connecting;
                TunnelAction::OpenChannel
            },
            (SessionState::Reconnecting, TunnelEvent::TransportFailed) => {
                self.advance_backoff();
                TunnelAction::RetryAfter(delay)
            },
            (SessionState::Reconnecting, TunnelEvent::ConnectSucceeded) => {
                self.state = SessionState::Connected;
                self.backoff.current_ms = self.backoff.base_ms;
                TunnelAction::Continue
            },
            (SessionState::Reconnecting, TunnelEvent::HandshakeRejected) => {
                self.state = SessionState::Closed;
                TunnelAction::FatalExit(FatalError::AuthRejected)
            },
            (SessionState::Connecting, TunnelEvent::CancelRequested) => self.cancel(),
            (SessionState::Connected, TunnelEvent::CancelRequested) => self.cancel(),
            (SessionState::Reconnecting, TunnelEvent::CancelRequested) => self.cancel(),
            (SessionState::Closing, TunnelEvent::ForwardCompleted) => {
                if self.in_flight <= 1 {
                    self.state = SessionState::Closed;
                    TunnelAction::SendClose
                } else {
                    TunnelAction::Continue
                }
            },
            (SessionState::Closing, TunnelEvent::GraceElapsed) => {
                self.state = SessionState::Closed;
                TunnelAction::SendClose
            },
            (_, _) => TunnelAction::Continue,
        };
        if let TunnelEvent::ForwardCompleted = ev {
            if self.in_flight > 0 {
                self.in_flight = self.in_flight - 1;
            }
        }
        action
    }

    /// Begins cancellation: the session closes at once when nothing is in
    /// flight, and otherwise drains in `Closing`.
    fn cancel(&mut self) -> (a: TunnelAction)
        ensures
            final(self).state == if old(self).in_flight == 0 {
                SessionState::Closed
            } else {
                SessionState::Closing
            },
            a == if old(self).in_flight == 0 {
                TunnelAction::SendClose
            } else {
                TunnelAction::Continue
            },
            final(self).backoff == old(self).backoff,
            final(self).relay_url == old(self).relay_url,
            final(self).security_enabled == old(self).security_enabled,
            final(self).in_flight == old(self).in_flight,
            final(self).max_in_flight == old(self).max_in_flight,
    {
        if self.in_flight == 0 {
            self.state = SessionState::Closed;
            TunnelAction::SendClose
        } else {
            self.state = SessionState::Closing;
            TunnelAction::Continue
        }
    }

    /// The emitted delay for the present raw delay and a jitter draw.
    fn jittered_delay(&self, seed: u64) -> (d: u64)
        requires
            self.backoff.wf(),
        ensures
            d == jittered(self.backoff.current_ms, seed),
    {
        self.backoff.current_ms + seed % (self.backoff.current_ms / 2 + 1)
    }

    /// Doubles the raw delay, capped.
    fn advance_backoff(&mut self)
        requires
            old(self).backoff.wf(),
        ensures
            final(self).backoff.current_ms == next_raw(
                old(self).backoff.current_ms,
                old(self).backoff.cap_ms,
            ),
            final(self).backoff.base_ms == old(self).backoff.base_ms,
            final(self).backoff.cap_ms == old(self).backoff.cap_ms,
            final(self).backoff.wf(),
            final(self).state == old(self).state,
            final(self).relay_url == old(self).relay_url,
            final(self).security_enabled == old(self).security_enabled,
            final(self).in_flight == old(self).in_flight,
            final(self).max_in_flight == old(self).max_in_flight,
    {
        if self.backoff.current_ms <= self.backoff.cap_ms / 2 {
            self.backoff.current_ms = 2 * self.backoff.current_ms;
        } else {
            self.backoff.current_ms = self.backoff.cap_ms;
        }
    }

    /// Accounts for one forwarding operation leaving for the local URL.
    /// Admission requires a connected session with room under the cap.
    pub fn begin_forward(&mut self)
        requires
            old(self).wf(),
            old(self).accepting(),
            old(self).in_flight < old(self).max_in_flight,
        ensures
            final(self).wf(),
            final(self).in_flight == old(self).in_flight + 1,
            final(self).state == old(self).state,
            final(self).backoff == old(self).backoff,
            final(self).relay_url == old(self).relay_url,
            final(self).security_enabled == old(self).security_enabled,
            final(self).max_in_flight == old(self).max_in_flight,
    {
        self.in_flight = self.in_flight + 1;
    }

    /// Whether another forward may be admitted right now.
    pub fn can_admit(&self) -> (r: bool)
        ensures
            r == (self.accepting() && self.in_flight < self.max_in_flight),
    {
        match self.state {
            SessionState::Connected => self.in_flight < self.max_in_flight,
            _ => false,
        }
    }
}

/// A completed forward, however it ended — error, timeout, or any status —
/// never moves a connected session away from `Connected`: the pipeline
/// keeps processing subsequent deliveries.
pub proof fn lemma_forward_outcome_never_fatal(s: TunnelSession, seed: u64)
    requires
        s.state is Connected,
    ensures
        next_state(s.state, TunnelEvent::ForwardCompleted, s.in_flight) is Connected,
        action_spec(s.state, TunnelEvent::ForwardCompleted, s.backoff, s.in_flight, seed)
            is Continue,
{
}

/// Once cancellation begins nothing reopens the session: from `Closing`
/// only `Closing` and `Closed` are reachable, no frames are admitted, and
/// `Closed` is terminal under every event.
pub proof fn lemma_closing_is_one_way(s: TunnelSession, ev: TunnelEvent, in_flight: usize)
    ensures
        s.state is Closing ==> !s.accepting(),
        s.state is Closed ==> !s.accepting(),
        s.state is Closing ==> (next_state(s.state, ev, in_flight) is Closing || next_state(
            s.state,
            ev,
            in_flight,
        ) is Closed),
        s.state is Closed ==> next_state(s.state, ev, in_flight) is Closed,
{
}

/// Only a rejected handshake or missing entropy end the session; every
/// transport failure and every lost heartbeat leads back through
/// `Reconnecting`, never to `Closed`.
pub proof fn lemma_transient_failures_never_close(s: SessionState, in_flight: usize)
    requires
        !(s is Closing),
        !(s is Closed),
    ensures
        !(next_state(s, TunnelEvent::TransportFailed, in_flight) is Closed),
        !(next_state(s, TunnelEvent::HeartbeatTimedOut, in_flight) is Closed),
{
}

} // verus!
