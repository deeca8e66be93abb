//! The connection lifecycle state machine.
//!
//! The unverified gateway drives one of these machines per connection: it
//! performs the transport work (upgrade, read, write, close) and feeds the
//! resulting events through [`lifecycle_step`], obeying the state it gets
//! back. The transition relation itself is pinned down here.

use vstd::prelude::*;

verus! {

/// Where a connection stands.
#[derive(PartialEq, Eq, Structural, Clone, Copy, Debug)]
pub enum ConnState {
    /// Upgrade accepted; identity and target document being resolved.
    Connecting,
    /// Registered in the session registry; edits flow both ways.
    Active,
    /// No new inbound operations are accepted; queued outbound broadcasts
    /// may still drain.
    Closing,
    /// Unregistered and finished. Terminal: a closed connection is never
    /// reused.
    Closed,
}

/// What can happen to a connection.
#[derive(PartialEq, Eq, Structural, Clone, Copy, Debug)]
pub enum ConnEvent {
    /// Identity could not be resolved, or the target document was not
    /// found, before the session was registered.
    SetupFailed,
    /// The session was registered in the session registry.
    Registered,
    /// The peer sent a close frame, or the transport failed.
    CloseSignal,
    /// The outbound queue finished draining.
    Drained,
}

/// The transition relation. Events that cannot occur in a state leave it
/// unchanged; nothing is ever accepted by a fallback arm.
pub open spec fn spec_step(s: ConnState, e: ConnEvent) -> ConnState {
    match (s, e) {
        (ConnState::Connecting, ConnEvent::SetupFailed) => ConnState::Closed,
        (ConnState::Connecting, ConnEvent::Registered) => ConnState::Active,
        (ConnState::Connecting, ConnEvent::CloseSignal) => ConnState::Closed,
        (ConnState::Connecting, ConnEvent::Drained) => ConnState::Connecting,
        (ConnState::Active, ConnEvent::SetupFailed) => ConnState::Active,
        (ConnState::Active, ConnEvent::Registered) => ConnState::Active,
        (ConnState::Active, ConnEvent::CloseSignal) => ConnState::Closing,
        (ConnState::Active, ConnEvent::Drained) => ConnState::Active,
        (ConnState::Closing, ConnEvent::SetupFailed) => ConnState::Closing,
        (ConnState::Closing, ConnEvent::Registered) => ConnState::Closing,
        (ConnState::Closing, ConnEvent::CloseSignal) => ConnState::Closing,
        (ConnState::Closing, ConnEvent::Drained) => ConnState::Closed,
        (ConnState::Closed, _) => ConnState::Closed,
    }
}

/// Advances a connection by one event.
pub fn lifecycle_step(s: ConnState, e: ConnEvent) -> (r: ConnState)
    ensures
        r == spec_step(s, e),
{
    match (s, e) {
        (ConnState::Connecting, ConnEvent::SetupFailed) => ConnState::Closed,
        (ConnState::Connecting, ConnEvent::Registered) => ConnState::Active,
        (ConnState::Connecting, ConnEvent::CloseSignal) => ConnState::Closed,
        (ConnState::Connecting, ConnEvent::Drained) => ConnState::Connecting,
        (ConnState::Active, ConnEvent::SetupFailed) => ConnState::Active,
        (ConnState::Active, ConnEvent::Registered) => ConnState::Active,
        (ConnState::Active, ConnEvent::CloseSignal) => ConnState::Closing,
        (ConnState::Active, ConnEvent::Drained) => ConnState::Active,
        (ConnState::Closing, ConnEvent::SetupFailed) => ConnState::Closing,
        (ConnState::Closing, ConnEvent::Registered) => ConnState::Closing,
        (ConnState::Closing, ConnEvent::CloseSignal) => ConnState::Closing,
        (ConnState::Closing, ConnEvent::Drained) => ConnState::Closed,
        (ConnState::Closed, _) => ConnState::Closed,
    }
}

/// Law: `Closed` is terminal — no event leaves it.
pub proof fn lemma_closed_terminal(e: ConnEvent)
    ensures
        spec_step(ConnState::Closed, e) == ConnState::Closed,
{
}

/// Law: `Active` is entered only from `Connecting`, and only by
/// registration; a failed setup goes straight to `Closed` without ever
/// touching the registry.
pub proof fn lemma_active_needs_registration(s: ConnState, e: ConnEvent)
    ensures
        spec_step(s, e) == ConnState::Active ==> s == ConnState::Active || (s
            == ConnState::Connecting && e == ConnEvent::Registered),
        s == ConnState::Connecting && e == ConnEvent::SetupFailed ==> spec_step(s, e)
            == ConnState::Closed,
{
}

} // verus!
