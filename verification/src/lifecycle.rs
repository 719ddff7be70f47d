//! Endpoint lifecycle: the state machine of a bound local socket and
//! the two-phase life of a single connection attempt.
//!
//! An endpoint moves through `Unbound -> Bound -> Draining -> Closed`.
//! While `Bound` it may own any number of outstanding connection
//! attempts; each attempt is a `PendingConnection` that resolves, at a
//! second suspension point, to an established connection or a failure.
//! The decisions here are pure functions of state and event; the
//! surrounding runtime performs the actual socket and crypto work and
//! feeds the results back in.

use vstd::prelude::*;
use crate::HandshakeError;

verus! {

/// An IPv4 socket address, as the four octets and the port.
#[derive(Clone, Copy, PartialEq, Eq, Structural, Debug)]
pub struct SockAddr {
    pub a: u8,
    pub b: u8,
    pub c: u8,
    pub d: u8,
    pub port: u16,
}

/// The remote side of an established connection.
#[derive(Clone, Copy, PartialEq, Eq, Structural, Debug)]
pub struct ConnectionInfo {
    pub remote: SockAddr,
}

/// The phases of an endpoint's life.
#[derive(Clone, Copy, PartialEq, Eq, Structural, Debug)]
pub enum EndpointPhase {
    Unbound,
    Bound,
    Draining,
    Closed,
}

/// What `wait_idle` decided: either the endpoint was already idle and
/// closed at once, or it must drain its outstanding attempts first.
#[derive(Clone, Copy, PartialEq, Eq, Structural, Debug)]
pub enum IdleWait {
    Immediate,
    MustDrain { outstanding: u64 },
}

/// The model of one endpoint: its phase and how many connection
/// attempts (accepts in flight, connects awaiting their handshake) it
/// still owns.
#[derive(Clone, Copy, PartialEq, Eq, Structural, Debug)]
pub struct EndpointState {
    pub phase: EndpointPhase,
    pub outstanding: u64,
}

impl EndpointState {
    /// A freshly bound endpoint: `Bound`, owning nothing yet. Binding
    /// itself can fail (address in use, permission denied); that
    /// failure is fatal to the endpoint and the caller never reaches
    /// this state.
    pub fn bound() -> (r: EndpointState)
        ensures
            r.phase == EndpointPhase::Bound,
            r.outstanding == 0,
    {
        EndpointState { phase: EndpointPhase::Bound, outstanding: 0 }
    }

    /// Whether the endpoint may start another accept or connect.
    pub open spec fn spec_can_start(self) -> bool {
        self.phase == EndpointPhase::Bound
    }

    /// Register one new connection attempt (an accept that resolved at
    /// the transport level, or an outbound connect). Refused unless
    /// the endpoint is `Bound`.
    pub fn begin_attempt(&mut self) -> (r: bool)
        requires
            old(self).outstanding < u64::MAX,
        ensures
            r == old(self).spec_can_start(),
            r ==> *final(self) == (EndpointState {
                outstanding: (old(self).outstanding + 1) as u64,
                ..*old(self)
            }),
            !r ==> *final(self) == *old(self),
    {
        if matches!(self.phase, EndpointPhase::Bound) {
            self.outstanding = self.outstanding + 1;
            true
        } else {
            false
        }
    }

    /// One owned attempt finished, successfully or not. A failed
    /// handshake is not fatal: the phase is untouched, so a `Bound`
    /// endpoint keeps accepting.
    pub fn attempt_finished(&mut self)
        requires
            old(self).outstanding > 0,
        ensures
            final(self).phase == old(self).phase,
            final(self).outstanding == old(self).outstanding - 1,
            final(self).spec_can_start() == old(self).spec_can_start(),
    {
        self.outstanding = self.outstanding - 1;
    }

    /// The only clean-shutdown primitive. On an endpoint with zero
    /// outstanding attempts it completes immediately — no suspension —
    /// and the endpoint is `Closed`. Otherwise the endpoint starts
    /// `Draining` and the caller must wait for the drain.
    pub fn wait_idle(&mut self) -> (r: IdleWait)
        ensures
            old(self).outstanding == 0 ==> r == IdleWait::Immediate
                && final(self).phase == EndpointPhase::Closed,
            old(self).outstanding != 0 ==> r == (IdleWait::MustDrain {
                outstanding: old(self).outstanding,
            }) && final(self).phase == EndpointPhase::Draining,
            final(self).outstanding == old(self).outstanding,
    {
        if self.outstanding == 0 {
            self.phase = EndpointPhase::Closed;
            IdleWait::Immediate
        } else {
            self.phase = EndpointPhase::Draining;
            IdleWait::MustDrain { outstanding: self.outstanding }
        }
    }

    /// A draining endpoint whose last attempt has finished is closed.
    pub fn drained(&mut self)
        requires
            old(self).phase == EndpointPhase::Draining,
            old(self).outstanding == 0,
        ensures
            final(self).phase == EndpointPhase::Closed,
            final(self).outstanding == 0,
    {
        self.phase = EndpointPhase::Closed;
    }
}

/// One connection attempt after the transport-level accept (or the
/// start of a connect) and before, or after, the completion of its
/// cryptographic handshake: two distinct suspension points.
#[derive(Clone, Copy, PartialEq, Eq, Structural, Debug)]
pub enum PendingConnection {
    AwaitingHandshake,
    Established(ConnectionInfo),
    Failed(HandshakeError),
}

impl PendingConnection {
    /// Resolve the second suspension point: the crypto layer reports
    /// either the authenticated remote address or the failure reason.
    /// An already-resolved attempt is single-shot and unchanged.
    pub fn complete_handshake(self, outcome: Result<SockAddr, HandshakeError>) -> (r:
        PendingConnection)
        ensures
            self is AwaitingHandshake && outcome is Ok ==> r == PendingConnection::Established(
                ConnectionInfo { remote: outcome.unwrap() },
            ),
            self is AwaitingHandshake && (outcome matches Err(e)) ==> r
                == PendingConnection::Failed(outcome->Err_0),
            !(self is AwaitingHandshake) ==> r == self,
    {
        match self {
            PendingConnection::AwaitingHandshake => match outcome {
                Ok(addr) => PendingConnection::Established(ConnectionInfo { remote: addr }),
                Err(e) => PendingConnection::Failed(e),
            },
            _ => self,
        }
    }

    /// The authenticated remote address — observable exactly when the
    /// handshake has been awaited and resolved successfully. Holding a
    /// pending attempt is not enough to read a remote address.
    pub fn remote_address(&self) -> (r: Option<SockAddr>)
        ensures
            r is Some <==> self is Established,
            self matches PendingConnection::Established(c) ==> r == Some(c.remote),
    {
        match self {
            PendingConnection::Established(c) => Some(c.remote),
            _ => None,
        }
    }
}

/// A failed handshake leaves its endpoint able to accept again: after
/// an attempt on a `Bound` endpoint fails and is retired, a further
/// attempt can still be registered. The server survives one client's
/// rejected handshake.
pub proof fn lemma_failed_handshake_keeps_accepting(e: EndpointState)
    requires
        e.phase == EndpointPhase::Bound,
        e.outstanding > 0,
    ensures
        (EndpointState { outstanding: (e.outstanding - 1) as u64, ..e }).spec_can_start(),
{
}

} // verus!
