//! The relay clients: long-lived connections to another server, to push
//! local streams there or to pull streams from there.
//!
//! What is here is the policy of the reconnect loop. The host connects,
//! runs a session over the connection, waits and reports; the relay says
//! what to do next. A relay that fails affects nothing but itself: it has
//! no way to ask anything of the hub.
//!
//! The wait before a retry is one second after the first failure and
//! doubles with each further one, up to thirty seconds. A connection that
//! was established starts the count anew.

use vstd::prelude::*;
use vstd::string::*;
use crate::amf0::text;
use crate::channels::{SessionHandle, StreamKey};
use crate::command::MAX_STRING;
use crate::chunk::wire::{put_range, put_slice};
use crate::session::{Role, RtmpSession, SessionState, SessionView};

verus! {

/// The wait before the first retry, in milliseconds.
pub const RETRY_BASE_MS: u64 = 1000;

/// The longest wait before a retry, in milliseconds.
pub const RETRY_CAP_MS: u64 = 30_000;

/// Where a relay stands.
#[derive(Debug, Copy, Clone, PartialEq, Eq, Structural)]
pub enum RelayState {
    /// Made, and not switched on.
    Disabled,
    /// Switched on, and not started.
    Idle,
    /// The host is trying to connect.
    Connecting,
    /// A session runs over the connection.
    Running,
    /// The host waits before the next attempt.
    Waiting,
    /// The process shuts down.
    Stopped,
}

/// What the host reports to a relay.
#[derive(Debug, Copy, Clone, PartialEq, Eq, Structural)]
pub enum RelayEvent {
    /// The relay is to begin.
    Start,
    /// The connection is established.
    Connected,
    /// A relay connect failure: the connection was refused or reset
    /// before it was established.
    ConnectFailed,
    /// The session over the connection has ended, for whatever reason.
    SessionClosed,
    /// The wait is over.
    TimerFired,
    /// The process shuts down.
    Shutdown,
}

/// What the host is to do for a relay.
#[derive(Debug, Copy, Clone, PartialEq, Eq, Structural)]
pub enum RelayAction {
    Nothing,
    /// Connect to the relay's address, and report `Connected` or
    /// `ConnectFailed`.
    Connect,
    /// Wait this many milliseconds, and report `TimerFired`.
    Wait(u64),
}

/// The wait before the retry that follows the given number of failures in
/// a row: 1000 ms doubled for each failure after the first, at most
/// 30000 ms.
pub open spec fn backoff(failures: nat) -> nat
    decreases failures,
{
    if failures == 0 {
        RETRY_BASE_MS as nat
    } else if 2 * backoff((failures - 1) as nat) >= RETRY_CAP_MS {
        RETRY_CAP_MS as nat
    } else {
        2 * backoff((failures - 1) as nat)
    }
}

/// The policy of one relay.
pub ghost struct RelayView {
    pub state: RelayState,
    /// How many attempts have failed in a row.
    pub failures: u32,
}

impl RelayView {
    /// The relay after `event`, and what the host is to do.
    ///
    /// A failed attempt and an ended session both lead to a wait and then
    /// to another attempt; nothing but `Shutdown` ends that.
    pub open spec fn step(self, event: RelayEvent) -> (RelayView, RelayAction) {
        match (self.state, event) {
            (RelayState::Stopped, _) | (RelayState::Disabled, _) => (self, RelayAction::Nothing),
            (_, RelayEvent::Shutdown) => (
                RelayView { state: RelayState::Stopped, ..self },
                RelayAction::Nothing,
            ),
            (RelayState::Idle, RelayEvent::Start) => (
                RelayView { state: RelayState::Connecting, ..self },
                RelayAction::Connect,
            ),
            (RelayState::Connecting, RelayEvent::Connected) => (
                RelayView { state: RelayState::Running, failures: 0 },
                RelayAction::Nothing,
            ),
            (RelayState::Connecting, RelayEvent::ConnectFailed) | (
                RelayState::Running,
                RelayEvent::SessionClosed,
            ) => (
                RelayView {
                    state: RelayState::Waiting,
                    failures: if self.failures == u32::MAX {
                        u32::MAX
                    } else {
                        (self.failures + 1) as u32
                    },
                },
                RelayAction::Wait(backoff(self.failures as nat) as u64),
            ),
            (RelayState::Waiting, RelayEvent::TimerFired) => (
                RelayView { state: RelayState::Connecting, ..self },
                RelayAction::Connect,
            ),
            _ => (self, RelayAction::Nothing),
        }
    }
}

/// The wait never exceeds the cap, and is the cap from the fifth failure
/// in a row on.
pub proof fn backoff_is_bounded(failures: nat)
    ensures
        RETRY_BASE_MS <= backoff(failures) <= RETRY_CAP_MS,
        failures >= 5 ==> backoff(failures) == RETRY_CAP_MS,
        failures == 0 ==> backoff(failures) == 1000,
        failures == 1 ==> backoff(failures) == 2000,
        failures == 2 ==> backoff(failures) == 4000,
        failures == 3 ==> backoff(failures) == 8000,
        failures == 4 ==> backoff(failures) == 16000,
    decreases failures,
{
    if failures > 0 {
        backoff_is_bounded((failures - 1) as nat);
    }
}

/// Computes the wait before the retry that follows `failures` failures in
/// a row.
pub fn retry_delay(failures: u32) -> (ms: u64)
    ensures
        ms == backoff(failures as nat),
{
    proof {
        backoff_is_bounded(failures as nat);
    }
    if failures >= 5 {
        RETRY_CAP_MS
    } else if failures == 0 {
        1000
    } else if failures == 1 {
        2000
    } else if failures == 2 {
        4000
    } else if failures == 3 {
        8000
    } else {
        16000
    }
}

/// One relay: where it connects to, in which role, and where it stands.
pub struct RelayClient {
    push: bool,
    address: Vec<u8>,
    state: RelayState,
    failures: u32,
}

impl View for RelayClient {
    type V = RelayView;

    closed spec fn view(&self) -> RelayView {
        RelayView { state: self.state, failures: self.failures }
    }
}

/// The URL of the application `app` on the server at `address`.
pub open spec fn application_url(address: Seq<u8>, app: Seq<u8>) -> Seq<u8> {
    text("rtmp://") + address + text("/") + app
}

impl RelayClient {
    /// The role that the relay's sessions play.
    pub closed spec fn role(&self) -> Role {
        if self.push {
            Role::Push
        } else {
            Role::Pull
        }
    }

    /// The address that the relay connects to, as bytes.
    pub closed spec fn address(&self) -> Seq<u8> {
        self.address@
    }

    /// A relay that pushes local streams to the server at `address`. It is
    /// made disabled.
    pub fn push_client(address: &str) -> (relay: Self)
        ensures
            relay@ == (RelayView { state: RelayState::Disabled, failures: 0 }),
            relay.role() == Role::Push,
            relay.address() == text(address),
    {
        Self::new(true, address)
    }

    /// A relay that pulls streams from the server at `address`. It is made
    /// disabled.
    pub fn pull_client(address: &str) -> (relay: Self)
        ensures
            relay@ == (RelayView { state: RelayState::Disabled, failures: 0 }),
            relay.role() == Role::Pull,
            relay.address() == text(address),
    {
        Self::new(false, address)
    }

    fn new(push: bool, address: &str) -> (relay: Self)
        ensures
            relay@ == (RelayView { state: RelayState::Disabled, failures: 0 }),
            relay.role() == (if push {
                Role::Push
            } else {
                Role::Pull
            }),
            relay.address() == text(address),
    {
        let mut bytes: Vec<u8> = Vec::new();
        put_slice(&mut bytes, address.as_bytes());
        assert(bytes@ =~= text(address));
        RelayClient { push, address: bytes, state: RelayState::Disabled, failures: 0 }
    }

    /// Switches the relay on or off. This is for a relay that has not
    /// started: one that has is left as it is.
    pub fn set_enabled(&mut self, enabled: bool)
        ensures
            final(self).role() == old(self).role(),
            final(self).address() == old(self).address(),
            final(self)@ == (match old(self)@.state {
                RelayState::Disabled | RelayState::Idle => RelayView {
                    state: if enabled {
                        RelayState::Idle
                    } else {
                        RelayState::Disabled
                    },
                    ..old(self)@
                },
                _ => old(self)@,
            }),
    {
        match self.state {
            RelayState::Disabled | RelayState::Idle => {
                self.state = if enabled {
                    RelayState::Idle
                } else {
                    RelayState::Disabled
                };
            },
            _ => {},
        }
    }

    pub fn state(&self) -> (state: RelayState)
        ensures
            state == self@.state,
    {
        self.state
    }

    /// Takes one report of the host and returns what to do next.
    pub fn handle(&mut self, event: RelayEvent) -> (action: RelayAction)
        ensures
            final(self).role() == old(self).role(),
            final(self).address() == old(self).address(),
            final(self)@ == old(self)@.step(event).0,
            action == old(self)@.step(event).1,
    {
        match (self.state, event) {
            (RelayState::Stopped, _) | (RelayState::Disabled, _) => RelayAction::Nothing,
            (_, RelayEvent::Shutdown) => {
                self.state = RelayState::Stopped;
                RelayAction::Nothing
            },
            (RelayState::Idle, RelayEvent::Start) => {
                self.state = RelayState::Connecting;
                RelayAction::Connect
            },
            (RelayState::Connecting, RelayEvent::Connected) => {
                self.state = RelayState::Running;
                self.failures = 0;
                RelayAction::Nothing
            },
            (RelayState::Connecting, RelayEvent::ConnectFailed) | (
                RelayState::Running,
                RelayEvent::SessionClosed,
            ) => {
                let delay = retry_delay(self.failures);
                self.state = RelayState::Waiting;
                if self.failures < u32::MAX {
                    self.failures = self.failures + 1;
                }
                RelayAction::Wait(delay)
            },
            (RelayState::Waiting, RelayEvent::TimerFired) => {
                self.state = RelayState::Connecting;
                RelayAction::Connect
            },
            _ => RelayAction::Nothing,
        }
    }

    /// Makes the session that runs over a connection of this relay for the
    /// stream `key`, with the application's URL on the other server as
    /// `rtmp://address/app`.
    ///
    /// Returns nothing if a name of the key, or the URL, is longer than
    /// 65535 bytes.
    pub fn session(&self, handle: SessionHandle, key: &StreamKey, capacity: usize) -> (session:
        Option<RtmpSession>)
        ensures
            session is Some <==> key@.app_name.len() <= MAX_STRING && key@.stream_name.len()
                <= MAX_STRING && application_url(self.address(), key@.app_name).len()
                <= MAX_STRING,
            session matches Some(s) ==> s.wf() && s@ == (SessionView {
                role: self.role(),
                state: SessionState::Handshaking,
                handle,
                app_name: key@.app_name,
                stream_name: key@.stream_name,
                tc_url: application_url(self.address(), key@.app_name),
                waiting_for_hub: false,
                requested: false,
                queued: 0,
                capacity,
            }),
    {
        if key.app_name.len() > MAX_STRING || self.address.len() > MAX_STRING {
            return None;
        }
        let mut url: Vec<u8> = Vec::new();
        put_slice(&mut url, "rtmp://".as_bytes());
        put_range(&mut url, &self.address, 0, self.address.len());
        put_slice(&mut url, "/".as_bytes());
        put_range(&mut url, &key.app_name, 0, key.app_name.len());
        assert(self.address@.subrange(0, self.address@.len() as int) =~= self.address@);
        assert(key.app_name@.subrange(0, key.app_name@.len() as int) =~= key.app_name@);
        assert(url@ =~= application_url(self.address(), key@.app_name));
        let role = if self.push {
            Role::Push
        } else {
            Role::Pull
        };
        RtmpSession::client(role, handle, key, &url, capacity)
    }
}

/// The relay after `rounds` attempts that each fail and are each followed
/// by the wait running out.
pub open spec fn after_failures(relay: RelayView, rounds: nat) -> RelayView
    decreases rounds,
{
    if rounds == 0 {
        relay
    } else {
        after_failures(relay, (rounds - 1) as nat).step(RelayEvent::ConnectFailed).0.step(
            RelayEvent::TimerFired,
        ).0
    }
}

/// How long the host has waited in all over `rounds` failed attempts, in
/// milliseconds.
pub open spec fn waited(relay: RelayView, rounds: nat) -> nat
    decreases rounds,
{
    if rounds == 0 {
        0
    } else {
        waited(relay, (rounds - 1) as nat) + backoff(
            after_failures(relay, (rounds - 1) as nat).failures as nat,
        )
    }
}

/// A failed attempt is followed by a wait of at most thirty seconds and
/// then by another attempt.
pub proof fn failure_leads_to_retry(relay: RelayView)
    requires
        relay.state == RelayState::Connecting,
    ensures
        relay.step(RelayEvent::ConnectFailed).0.state == RelayState::Waiting,
        relay.step(RelayEvent::ConnectFailed).1 == RelayAction::Wait(
            backoff(relay.failures as nat) as u64,
        ),
        backoff(relay.failures as nat) <= RETRY_CAP_MS,
        relay.step(RelayEvent::ConnectFailed).0.step(RelayEvent::TimerFired).0.state
            == RelayState::Connecting,
        relay.step(RelayEvent::ConnectFailed).0.step(RelayEvent::TimerFired).1
            == RelayAction::Connect,
{
    backoff_is_bounded(relay.failures as nat);
}

/// Resilience: however often the other server refuses, the relay goes on
/// trying. After any number of failed attempts it is trying again, and
/// the waits between the attempts add up to no more than thirty seconds
/// for each.
pub proof fn relay_never_gives_up(relay: RelayView, rounds: nat)
    requires
        relay.state == RelayState::Connecting,
    ensures
        after_failures(relay, rounds).state == RelayState::Connecting,
        waited(relay, rounds) <= rounds * RETRY_CAP_MS,
    decreases rounds,
{
    if rounds > 0 {
        relay_never_gives_up(relay, (rounds - 1) as nat);
        let before = after_failures(relay, (rounds - 1) as nat);
        failure_leads_to_retry(before);
        assert(waited(relay, rounds) <= (rounds - 1) * RETRY_CAP_MS + RETRY_CAP_MS);
        assert((rounds - 1) * RETRY_CAP_MS + RETRY_CAP_MS == rounds * RETRY_CAP_MS)
            by (nonlinear_arith);
    }
}

/// The same holds of sessions that end: each is followed by a wait and
/// another attempt, and since the connection had been established, the
/// wait is the shortest one.
pub proof fn closed_session_leads_to_retry(relay: RelayView)
    requires
        relay.state == RelayState::Connecting,
    ensures
        ({
            let running = relay.step(RelayEvent::Connected).0;
            let (waiting, action) = running.step(RelayEvent::SessionClosed);
            &&& running.state == RelayState::Running
            &&& waiting.state == RelayState::Waiting
            &&& action == RelayAction::Wait(RETRY_BASE_MS)
            &&& waiting.step(RelayEvent::TimerFired) == (
                RelayView { state: RelayState::Connecting, ..waiting },
                RelayAction::Connect,
            )
        }),
{
    backoff_is_bounded(0);
}

/// Only a shutdown stops a relay that has started, and a relay that is
/// disabled never connects.
pub proof fn only_shutdown_stops(relay: RelayView, event: RelayEvent)
    ensures
        relay.step(event).0.state == RelayState::Stopped ==> relay.state == RelayState::Stopped
            || event == RelayEvent::Shutdown,
        relay.state == RelayState::Disabled ==> relay.step(event) == (relay, RelayAction::Nothing),
{
}

} // verus!
