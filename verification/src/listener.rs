//! The daemon's accept loop, as a state machine that a transport drives.
//!
//! The daemon owns one local endpoint. It clears what a crashed daemon may have
//! left there, binds, and then accepts connections for as long as it runs.
//! Failing to bind is fatal; failing to accept one connection is not.

use vstd::prelude::*;

verus! {

/// What the driver has to do next for the listener.
#[derive(Debug, Clone, Copy, PartialEq, Eq, Structural)]
pub enum ListenerAction {
    /// Remove a stale endpoint, if there is one, and report that it is clear.
    ClearEndpoint,
    /// Bind the endpoint and report the outcome.
    Bind,
    /// Wait for a connection and report the outcome.
    Accept,
    /// Give up: the daemon cannot serve.
    Exit,
}

/// What the driver reports of the endpoint.
#[derive(Debug, Clone, Copy, PartialEq, Eq, Structural)]
pub enum ListenerEvent {
    /// No stale endpoint is in the way (any more).
    Cleared,
    /// The endpoint is bound.
    Bound,
    /// The endpoint could not be bound.
    BindFailed,
    /// A connection was accepted and handed to a handler of its own.
    Accepted,
    /// Accepting a connection failed.
    AcceptFailed,
}

/// The state of the accept loop.
#[derive(Debug, Clone, Copy, PartialEq, Eq, Structural)]
pub enum Listener {
    /// Nothing was done yet.
    Starting,
    /// The endpoint is clear and waits to be bound.
    Binding,
    /// The endpoint is bound; connections are accepted.
    Accepting,
    /// The endpoint could not be acquired.
    Failed,
}

impl Listener {
    /// What the driver has to do next.
    pub open spec fn spec_pending(self) -> ListenerAction {
        match self {
            Listener::Starting => ListenerAction::ClearEndpoint,
            Listener::Binding => ListenerAction::Bind,
            Listener::Accepting => ListenerAction::Accept,
            Listener::Failed => ListenerAction::Exit,
        }
    }

    /// The listener after the driver reported `event`.
    ///
    /// Once bound, the listener accepts whatever the outcome of the last
    /// accept was. Before that, only the outcome it waits for moves it on; a
    /// failed bind, or an event that it was not waiting for, makes it fail.
    /// A failed listener stays failed.
    pub open spec fn spec_on_event(self, event: ListenerEvent) -> Listener {
        match (self, event) {
            (Listener::Starting, ListenerEvent::Cleared) => Listener::Binding,
            (Listener::Binding, ListenerEvent::Bound) => Listener::Accepting,
            (Listener::Accepting, ListenerEvent::Accepted) => Listener::Accepting,
            (Listener::Accepting, ListenerEvent::AcceptFailed) => Listener::Accepting,
            _ => Listener::Failed,
        }
    }

    /// A listener that has done nothing yet.
    pub fn new() -> (listener: Listener)
        ensures
            listener == Listener::Starting,
    {
        Listener::Starting
    }

    /// What the driver has to do next.
    #[verifier::when_used_as_spec(spec_pending)]
    pub fn pending(self) -> (action: ListenerAction)
        ensures
            action == self.spec_pending(),
    {
        match self {
            Listener::Starting => ListenerAction::ClearEndpoint,
            Listener::Binding => ListenerAction::Bind,
            Listener::Accepting => ListenerAction::Accept,
            Listener::Failed => ListenerAction::Exit,
        }
    }

    /// Takes note of what the driver reports of the endpoint.
    #[verifier::when_used_as_spec(spec_on_event)]
    pub fn on_event(self, event: ListenerEvent) -> (next: Listener)
        ensures
            next == self.spec_on_event(event),
    {
        match (self, event) {
            (Listener::Starting, ListenerEvent::Cleared) => Listener::Binding,
            (Listener::Binding, ListenerEvent::Bound) => Listener::Accepting,
            (Listener::Accepting, ListenerEvent::Accepted) => Listener::Accepting,
            (Listener::Accepting, ListenerEvent::AcceptFailed) => Listener::Accepting,
            _ => Listener::Failed,
        }
    }
}

/// Binding comes only after the endpoint was cleared, and accepting only
/// after it was bound.
pub proof fn endpoint_is_cleared_then_bound(before: Listener, event: ListenerEvent)
    ensures
        before.on_event(event) == Listener::Binding ==> before == Listener::Starting && event
            == ListenerEvent::Cleared,
        before.on_event(event) == Listener::Accepting && before != Listener::Accepting ==> before
            == Listener::Binding && event == ListenerEvent::Bound,
{
}

/// No outcome of an accept stops a bound listener: it goes on accepting
/// whether the last accept succeeded or failed.
pub proof fn accept_failure_is_not_fatal(event: ListenerEvent)
    requires
        event == ListenerEvent::Accepted || event == ListenerEvent::AcceptFailed,
    ensures
        Listener::Accepting.on_event(event) == Listener::Accepting,
        Listener::Accepting.on_event(event).pending() == ListenerAction::Accept,
{
}

/// A bind failure is fatal: the listener exits and nothing revives it.
pub proof fn bind_failure_is_fatal(event: ListenerEvent)
    ensures
        Listener::Binding.on_event(ListenerEvent::BindFailed) == Listener::Failed,
        Listener::Failed.on_event(event) == Listener::Failed,
        Listener::Failed.pending() == ListenerAction::Exit,
{
}

} // verus!
