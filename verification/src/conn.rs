//! The lifecycle of one accepted connection, and the acceptor's decisions.
//!
//! A connection moves from accepted, through configured, to serving, and
//! ends closed — on a failed socket configuration it closes at once and is
//! never served. Every connection-level outcome is isolated: only the
//! process-wide shutdown signal stops the acceptor from taking further
//! connections.

use vstd::prelude::*;

verus! {

/// Where one accepted connection stands.
#[derive(Clone, Copy, PartialEq, Eq, Structural, Debug)]
pub enum ConnPhase {
    /// Taken from the listener, transport options not yet applied.
    Accepted,
    /// Transport options applied, not yet handed to the protocol layer.
    Configured,
    /// Handed to the protocol layer, exchanging requests.
    Serving,
    /// Finished; nothing more happens on this connection.
    Closed,
}

/// What happened on one connection.
#[derive(Clone, Copy, PartialEq, Eq, Structural, Debug)]
pub enum ConnEvent {
    /// The socket configurator applied its options.
    OptionsApplied,
    /// The socket configurator failed; the connection is not served.
    OptionsFailed,
    /// The connection was handed to the protocol layer.
    ProtocolBound,
    /// The peer disconnected.
    PeerClosed,
    /// The protocol layer reported an error on this connection.
    ProtocolError,
    /// The process-wide shutdown let this connection finish.
    ShutdownDrained,
}

/// The next phase of one connection after an event. An event that does not
/// belong to the current phase changes nothing, and a closed connection
/// stays closed.
pub open spec fn next_phase_spec(p: ConnPhase, e: ConnEvent) -> ConnPhase {
    match (p, e) {
        (ConnPhase::Accepted, ConnEvent::OptionsApplied) => ConnPhase::Configured,
        (ConnPhase::Accepted, ConnEvent::OptionsFailed) => ConnPhase::Closed,
        (ConnPhase::Configured, ConnEvent::ProtocolBound) => ConnPhase::Serving,
        (ConnPhase::Serving, ConnEvent::PeerClosed) => ConnPhase::Closed,
        (ConnPhase::Serving, ConnEvent::ProtocolError) => ConnPhase::Closed,
        (ConnPhase::Serving, ConnEvent::ShutdownDrained) => ConnPhase::Closed,
        (_, _) => p,
    }
}

/// Advances one connection's phase.
pub fn next_phase(p: ConnPhase, e: ConnEvent) -> (r: ConnPhase)
    ensures
        r == next_phase_spec(p, e),
{
    match (p, e) {
        (ConnPhase::Accepted, ConnEvent::OptionsApplied) => ConnPhase::Configured,
        (ConnPhase::Accepted, ConnEvent::OptionsFailed) => ConnPhase::Closed,
        (ConnPhase::Configured, ConnEvent::ProtocolBound) => ConnPhase::Serving,
        (ConnPhase::Serving, ConnEvent::PeerClosed) => ConnPhase::Closed,
        (ConnPhase::Serving, ConnEvent::ProtocolError) => ConnPhase::Closed,
        (ConnPhase::Serving, ConnEvent::ShutdownDrained) => ConnPhase::Closed,
        (_, _) => p,
    }
}

/// A closed connection never comes back: no event leaves the closed phase.
pub proof fn lemma_closed_is_final(e: ConnEvent)
    ensures
        next_phase_spec(ConnPhase::Closed, e) == ConnPhase::Closed,
{
}

/// A connection never serves without its transport options: the serving
/// phase is reached only from the configured one.
pub proof fn lemma_serving_needs_configuration(p: ConnPhase, e: ConnEvent)
    requires
        next_phase_spec(p, e) == ConnPhase::Serving,
    ensures
        p == ConnPhase::Configured || p == ConnPhase::Serving,
{
}

/// Whether the acceptor keeps taking new connections after an event on one
/// connection: every connection-level outcome is isolated, only shutdown
/// stops the acceptor.
pub fn acceptor_continues(e: ConnEvent) -> (r: bool)
    ensures
        r == !(e is ShutdownDrained),
{
    match e {
        ConnEvent::ShutdownDrained => false,
        _ => true,
    }
}

} // verus!
