//! The connection state machine.

use vstd::prelude::*;
use crate::common::time::{Duration, Instant};
use crate::mother::error::Error;
use crate::mother::traits::ConnectionState;

verus! {

/// What happens to a connection.
#[derive(Debug, Clone, Copy, PartialEq, Eq, Structural)]
pub enum StateEvent {
    Connect,
    HandshakeStart,
    HandshakeComplete,
    DataReceived,
    DataSent,
    Close,
    Timeout,
    Error,
}

/// The state that `event` leads to from `current`, or `None` where the
/// event is not allowed there.
pub open spec fn spec_next_state(current: ConnectionState, event: StateEvent) -> Option<ConnectionState> {
    match (current, event) {
        (ConnectionState::Closed, StateEvent::Connect) => Some(ConnectionState::Connecting),
        (ConnectionState::Connecting, StateEvent::HandshakeStart) => Some(ConnectionState::Handshake),
        (ConnectionState::Handshake, StateEvent::HandshakeComplete) => Some(ConnectionState::Established),
        (ConnectionState::Established, StateEvent::DataReceived) => Some(ConnectionState::Established),
        (ConnectionState::Established, StateEvent::DataSent) => Some(ConnectionState::Established),
        (ConnectionState::Established, StateEvent::Close) => Some(ConnectionState::Closing),
        (ConnectionState::Closing, StateEvent::Close) => Some(ConnectionState::Closed),
        (_, StateEvent::Timeout) => Some(ConnectionState::Closed),
        (_, StateEvent::Error) => Some(ConnectionState::Closed),
        _ => None,
    }
}

/// A connection's state, the time of its last transition and every state it
/// entered, with the time it did.
#[derive(Debug)]
pub struct ConnectionStateMachine {
    state: ConnectionState,
    last_event: Instant,
    state_history: Vec<(Instant, ConnectionState)>,
}

impl ConnectionStateMachine {
    /// The current state.
    pub closed spec fn spec_state(&self) -> ConnectionState {
        self.state
    }

    /// The time of the last transition (or of creation or reset).
    pub closed spec fn spec_last_event(&self) -> Instant {
        self.last_event
    }

    /// The states entered by transitions, with their times, oldest first.
    pub closed spec fn spec_history(&self) -> Seq<(Instant, ConnectionState)> {
        self.state_history@
    }

    /// A closed connection with an empty history, created at `now`.
    pub fn new_at(now: Instant) -> (m: ConnectionStateMachine)
        ensures
            m.spec_state() == ConnectionState::Closed,
            m.spec_last_event() == now,
            m.spec_history() == Seq::<(Instant, ConnectionState)>::empty(),
    {
        ConnectionStateMachine { state: ConnectionState::Closed, last_event: now, state_history: Vec::new() }
    }

    /// A closed connection with an empty history, created now.
    pub fn new() -> (m: ConnectionStateMachine)
        ensures
            m.spec_state() == ConnectionState::Closed,
            m.spec_history() == Seq::<(Instant, ConnectionState)>::empty(),
    {
        ConnectionStateMachine::new_at(Instant::now())
    }

    /// The current state.
    pub fn current_state(&self) -> (s: ConnectionState)
        ensures
            s == self.spec_state(),
    {
        self.state
    }

    /// The state that `event` leads to from `current`; `InvalidFormat` where
    /// the event is not allowed there.
    pub fn next_state(&self, current: ConnectionState, event: StateEvent) -> (r: Result<ConnectionState, Error>)
        ensures
            match spec_next_state(current, event) {
                Some(s) => r == Ok::<ConnectionState, Error>(s),
                None => r == Err::<ConnectionState, Error>(Error::InvalidFormat),
            },
    {
        match (current, event) {
            (ConnectionState::Closed, StateEvent::Connect) => Ok(ConnectionState::Connecting),
            (ConnectionState::Connecting, StateEvent::HandshakeStart) => Ok(ConnectionState::Handshake),
            (ConnectionState::Handshake, StateEvent::HandshakeComplete) => Ok(ConnectionState::Established),
            (ConnectionState::Established, StateEvent::DataReceived) => Ok(ConnectionState::Established),
            (ConnectionState::Established, StateEvent::DataSent) => Ok(ConnectionState::Established),
            (ConnectionState::Established, StateEvent::Close) => Ok(ConnectionState::Closing),
            (ConnectionState::Closing, StateEvent::Close) => Ok(ConnectionState::Closed),
            (_, StateEvent::Timeout) => Ok(ConnectionState::Closed),
            (_, StateEvent::Error) => Ok(ConnectionState::Closed),
            _ => Err(Error::InvalidFormat),
        }
    }

    /// Applies `event` at time `now`: moves to the next state, records the
    /// time and appends the new state to the history; refuses the event with
    /// `InvalidFormat`, changing nothing, where it is not allowed.
    pub fn transition_at(&mut self, event: StateEvent, now: Instant) -> (r: Result<(), Error>)
        ensures
            match spec_next_state(old(self).spec_state(), event) {
                Some(s) => {
                    &&& r == Ok::<(), Error>(())
                    &&& final(self).spec_state() == s
                    &&& final(self).spec_last_event() == now
                    &&& final(self).spec_history() == old(self).spec_history().push((now, s))
                },
                None => {
                    &&& r == Err::<(), Error>(Error::InvalidFormat)
                    &&& final(self).spec_state() == old(self).spec_state()
                    &&& final(self).spec_last_event() == old(self).spec_last_event()
                    &&& final(self).spec_history() == old(self).spec_history()
                },
            },
    {
        let current = self.current_state();
        match self.next_state(current, event) {
            Ok(new_state) => {
                self.state = new_state;
                self.last_event = now;
                self.state_history.push((now, new_state));
                Ok(())
            },
            Err(e) => Err(e),
        }
    }

    /// Applies `event` now; see `transition_at`.
    pub fn transition(&mut self, event: StateEvent) -> (r: Result<(), Error>)
        ensures
            match spec_next_state(old(self).spec_state(), event) {
                Some(s) => {
                    &&& r == Ok::<(), Error>(())
                    &&& final(self).spec_state() == s
                    &&& final(self).spec_history() == old(self).spec_history().push(
                        (final(self).spec_last_event(), s),
                    )
                },
                None => {
                    &&& r == Err::<(), Error>(Error::InvalidFormat)
                    &&& final(self).spec_state() == old(self).spec_state()
                    &&& final(self).spec_last_event() == old(self).spec_last_event()
                    &&& final(self).spec_history() == old(self).spec_history()
                },
            },
    {
        self.transition_at(event, Instant::now())
    }

    /// The time of the last transition.
    pub fn last_event_time(&self) -> (t: Instant)
        ensures
            t == self.spec_last_event(),
    {
        self.last_event
    }

    /// The time spent in the current state as of `now` (zero where `now` is
    /// earlier than the last transition).
    pub fn time_in_state_at(&self, now: Instant) -> (d: Duration)
        ensures
            d@ == if now.since_origin@ < self.spec_last_event().since_origin@ {
                0
            } else {
                now.since_origin@ - self.spec_last_event().since_origin@
            },
    {
        now.saturating_duration_since(self.last_event)
    }

    /// The time spent in the current state so far.
    pub fn time_in_state(&self) -> (d: Duration)
        ensures
            exists|now: Instant|
                #![trigger now.since_origin@]
                d@ == if now.since_origin@ < self.spec_last_event().since_origin@ {
                    0
                } else {
                    now.since_origin@ - self.spec_last_event().since_origin@
                },
    {
        self.time_in_state_at(Instant::now())
    }

    /// Whether the connection is established.
    pub fn is_established(&self) -> (b: bool)
        ensures
            b == (self.spec_state() == ConnectionState::Established),
    {
        self.state == ConnectionState::Established
    }

    /// Whether the connection is closed or closing.
    pub fn is_closed(&self) -> (b: bool)
        ensures
            b == (self.spec_state() == ConnectionState::Closed || self.spec_state()
                == ConnectionState::Closing),
    {
        match self.state {
            ConnectionState::Closed | ConnectionState::Closing => true,
            _ => false,
        }
    }

    /// Closes the connection at time `now`, keeping the history.
    pub fn reset_at(&mut self, now: Instant)
        ensures
            final(self).spec_state() == ConnectionState::Closed,
            final(self).spec_last_event() == now,
            final(self).spec_history() == old(self).spec_history(),
    {
        self.state = ConnectionState::Closed;
        self.last_event = now;
    }

    /// Closes the connection now, keeping the history.
    pub fn reset(&mut self)
        ensures
            final(self).spec_state() == ConnectionState::Closed,
            final(self).spec_history() == old(self).spec_history(),
    {
        self.reset_at(Instant::now())
    }
}

impl Default for ConnectionStateMachine {
    fn default() -> (m: ConnectionStateMachine)
        ensures
            m.spec_state() == ConnectionState::Closed,
            m.spec_history() == Seq::<(Instant, ConnectionState)>::empty(),
    {
        ConnectionStateMachine::new()
    }
}

/// A timeout or an error closes the connection from every state.
pub proof fn lemma_timeout_and_error_close(s: ConnectionState)
    ensures
        spec_next_state(s, StateEvent::Timeout) == Some(ConnectionState::Closed),
        spec_next_state(s, StateEvent::Error) == Some(ConnectionState::Closed),
{
}

/// A connection becomes established only by completing the handshake, and
/// stays established only on data traffic.
pub proof fn lemma_established_only_after_handshake(s: ConnectionState, e: StateEvent)
    requires
        spec_next_state(s, e) == Some(ConnectionState::Established),
    ensures
        (s == ConnectionState::Handshake && e == StateEvent::HandshakeComplete) || (s
            == ConnectionState::Established && (e == StateEvent::DataReceived || e
            == StateEvent::DataSent)),
{
}

/// Connecting, starting and completing the handshake, then closing twice,
/// leads from a closed connection through every state back to closed.
pub proof fn lemma_full_lifecycle()
    ensures
        spec_next_state(ConnectionState::Closed, StateEvent::Connect) == Some(ConnectionState::Connecting),
        spec_next_state(ConnectionState::Connecting, StateEvent::HandshakeStart) == Some(
            ConnectionState::Handshake,
        ),
        spec_next_state(ConnectionState::Handshake, StateEvent::HandshakeComplete) == Some(
            ConnectionState::Established,
        ),
        spec_next_state(ConnectionState::Established, StateEvent::Close) == Some(ConnectionState::Closing),
        spec_next_state(ConnectionState::Closing, StateEvent::Close) == Some(ConnectionState::Closed),
{
}

} // verus!
