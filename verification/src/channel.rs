use vstd::prelude::*;

verus! {

/// The states of a client channel's supervisor.
#[derive(Clone, Copy, Debug, PartialEq, Eq, Structural)]
pub enum SessionState {
    Disabled,
    Connecting,
    Connected,
    WaitRetry,
    Shutdown,
}

/// The events that drive the supervisor.
#[derive(Clone, Copy, Debug, PartialEq, Eq, Structural)]
pub enum SessionEvent {
    /// The channel was enabled by its owner.
    Enable,
    /// The transport handshake completed.
    ConnectSucceeded,
    /// The transport handshake failed.
    ConnectFailed,
    /// The connected transport faulted or a protocol-fatal error occurred.
    TransportFault,
    /// The retry delay elapsed.
    RetryElapsed,
    /// The channel was disabled or shut down.
    Shutdown,
}

/// The supervisor's transition relation, as a spec-level table.
pub open spec fn spec_next_state(state: SessionState, event: SessionEvent) -> SessionState {
    match event {
        SessionEvent::Shutdown => SessionState::Shutdown,
        SessionEvent::Enable => if state == SessionState::Disabled {
            SessionState::Connecting
        } else {
            state
        },
        SessionEvent::ConnectSucceeded => if state == SessionState::Connecting {
            SessionState::Connected
        } else {
            state
        },
        SessionEvent::ConnectFailed => if state == SessionState::Connecting {
            SessionState::WaitRetry
        } else {
            state
        },
        SessionEvent::TransportFault => if state == SessionState::Connected {
            SessionState::WaitRetry
        } else {
            state
        },
        SessionEvent::RetryElapsed => if state == SessionState::WaitRetry {
            SessionState::Connecting
        } else {
            state
        },
    }
}

/// Advances the supervisor one step: enabling leaves Disabled for
/// Connecting, a handshake outcome settles Connecting, a fault leaves
/// Connected for WaitRetry, the elapsed delay retries the connect, and a
/// shutdown wins from every state; any other pairing changes nothing.
pub fn next_state(state: SessionState, event: SessionEvent) -> (r: SessionState)
    ensures
        r == spec_next_state(state, event),
{
    match event {
        SessionEvent::Shutdown => SessionState::Shutdown,
        SessionEvent::Enable => if state == SessionState::Disabled {
            SessionState::Connecting
        } else {
            state
        },
        SessionEvent::ConnectSucceeded => if state == SessionState::Connecting {
            SessionState::Connected
        } else {
            state
        },
        SessionEvent::ConnectFailed => if state == SessionState::Connecting {
            SessionState::WaitRetry
        } else {
            state
        },
        SessionEvent::TransportFault => if state == SessionState::Connected {
            SessionState::WaitRetry
        } else {
            state
        },
        SessionEvent::RetryElapsed => if state == SessionState::WaitRetry {
            SessionState::Connecting
        } else {
            state
        },
    }
}

/// Law: Shutdown is absorbing, and enabling is idempotent: once out of
/// Disabled, a further Enable changes nothing.
pub proof fn lemma_session_state(state: SessionState)
    ensures
        spec_next_state(SessionState::Shutdown, SessionEvent::Enable) == SessionState::Shutdown,
        spec_next_state(state, SessionEvent::Shutdown) == SessionState::Shutdown,
        state != SessionState::Disabled ==> spec_next_state(state, SessionEvent::Enable) == state,
{
}

/// Exponential backoff between reconnect attempts: each failure doubles the
/// delay up to the maximum, and a successful connect resets it to the
/// minimum.
#[derive(Clone, Copy, Debug, PartialEq, Eq, Structural)]
pub struct RetryStrategy {
    min_delay: u64,
    max_delay: u64,
    current: u64,
}

impl RetryStrategy {
    pub closed spec fn spec_min(self) -> u64 {
        self.min_delay
    }

    pub closed spec fn spec_max(self) -> u64 {
        self.max_delay
    }

    pub closed spec fn spec_current(self) -> u64 {
        self.current
    }

    /// The next delay never leaves the configured band.
    pub open spec fn wf(self) -> bool {
        1 <= self.spec_min() <= self.spec_current() <= self.spec_max()
    }

    pub fn new(min_delay: u64, max_delay: u64) -> (r: RetryStrategy)
        requires
            1 <= min_delay <= max_delay,
        ensures
            r.wf(),
            r.spec_min() == min_delay,
            r.spec_max() == max_delay,
            r.spec_current() == min_delay,
    {
        RetryStrategy { min_delay, max_delay, current: min_delay }
    }

    /// The delay to wait before the next connect attempt; each call doubles
    /// the one after it, up to the maximum.
    pub fn next_delay(&mut self) -> (r: u64)
        requires
            old(self).wf(),
        ensures
            final(self).wf(),
            r == old(self).spec_current(),
            final(self).spec_min() == old(self).spec_min(),
            final(self).spec_max() == old(self).spec_max(),
            final(self).spec_current() == if 2 * old(self).spec_current() > old(self).spec_max() {
                old(self).spec_max()
            } else {
                (2 * old(self).spec_current()) as u64
            },
    {
        let delay = self.current;
        self.current = if self.current > self.max_delay / 2 {
            self.max_delay
        } else {
            self.current * 2
        };
        delay
    }

    /// A successful connect resets the backoff to the minimum delay.
    pub fn reset(&mut self)
        requires
            old(self).wf(),
        ensures
            final(self).wf(),
            final(self).spec_min() == old(self).spec_min(),
            final(self).spec_max() == old(self).spec_max(),
            final(self).spec_current() == old(self).spec_min(),
    {
        self.current = self.min_delay;
    }
}

} // verus!
