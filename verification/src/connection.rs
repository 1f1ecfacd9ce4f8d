//! The life of one connection, as a state machine that a transport drives.
//!
//! The driver asks the connection what it waits for, does that on the
//! transport or with the store, and reports what happened. The connection
//! never touches the transport itself.

use crate::model::StoreModel;
use crate::protocol::{Request, RequestModel};
use crate::server::{handle_request_at, response_to, store_after};
use crate::store::SecretStore;
use vstd::prelude::*;

verus! {

/// What the driver has to do next for a connection.
#[derive(Debug, Clone, Copy, PartialEq, Eq)]
pub enum Action {
    /// Read from the peer and report what came.
    Read,
    /// Hand the connection to the store.
    Dispatch,
    /// Write the outgoing bytes to the peer and report the outcome.
    Write,
    /// Close the transport; nothing more happens.
    Close,
}

/// What the driver reports of the transport.
#[derive(Debug)]
pub enum Event {
    /// The peer sent these bytes.
    Received(Vec<u8>),
    /// The peer has finished sending.
    EndOfInput,
    /// The outgoing bytes were written in full.
    Written,
    /// Reading or writing failed.
    Failed,
}

/// Mathematical model of an [`Event`].
pub enum EventModel {
    Received(Seq<u8>),
    EndOfInput,
    Written,
    Failed,
}

impl View for Event {
    type V = EventModel;

    open spec fn view(&self) -> EventModel {
        match *self {
            Event::Received(bytes) => EventModel::Received(bytes@),
            Event::EndOfInput => EventModel::EndOfInput,
            Event::Written => EventModel::Written,
            Event::Failed => EventModel::Failed,
        }
    }
}

/// Mathematical model of a [`Connection`].
pub enum ConnectionModel {
    /// Collecting the request; `received` is what the peer has sent so far.
    Reading { received: Seq<u8> },
    /// A request was decoded and waits for the store.
    Dispatching { request: RequestModel },
    /// The encoded response waits to be written.
    Writing { response: Seq<u8> },
    /// The connection is over.
    Closed,
}

impl ConnectionModel {
    /// What the driver has to do next.
    pub open spec fn pending(self) -> Action {
        match self {
            ConnectionModel::Reading { .. } => Action::Read,
            ConnectionModel::Dispatching { .. } => Action::Dispatch,
            ConnectionModel::Writing { .. } => Action::Write,
            ConnectionModel::Closed => Action::Close,
        }
    }

    /// The bytes to write, while the connection waits for them to be written.
    pub open spec fn outgoing(self) -> Option<Seq<u8>> {
        match self {
            ConnectionModel::Writing { response } => Some(response),
            _ => None,
        }
    }

    /// The connection after the driver reported `event`.
    ///
    /// While reading, bytes accumulate; at the end of input they must start
    /// with a request, or the connection closes unanswered. A completed write
    /// ends the connection. A failure, or an event that the connection was
    /// not waiting for, closes it.
    pub open spec fn on_event(self, event: EventModel) -> ConnectionModel {
        match (self, event) {
            (ConnectionModel::Reading { received }, EventModel::Received(bytes)) => {
                ConnectionModel::Reading { received: received + bytes }
            },
            (ConnectionModel::Reading { received }, EventModel::EndOfInput) => {
                match RequestModel::parse(received) {
                    Some(request) => ConnectionModel::Dispatching { request },
                    None => ConnectionModel::Closed,
                }
            },
            _ => ConnectionModel::Closed,
        }
    }

    /// The connection after `store` answered at tick `now`: a decoded request
    /// becomes the encoded response to it; any other state is left alone.
    pub open spec fn dispatched(self, store: StoreModel, now: nat) -> ConnectionModel {
        match self {
            ConnectionModel::Dispatching { request } => ConnectionModel::Writing {
                response: response_to(store, request, now).wire(),
            },
            _ => self,
        }
    }

    /// The store after it answered the connection at tick `now`.
    pub open spec fn store_dispatched(self, store: StoreModel, now: nat) -> StoreModel {
        match self {
            ConnectionModel::Dispatching { request } => store_after(store, request, now),
            _ => store,
        }
    }
}

/// Input that does not start with a request is never answered: at the end
/// of such input the connection closes, and it has nothing to write.
pub proof fn malformed_input_is_unanswered(received: Seq<u8>)
    requires
        RequestModel::parse(received) is None,
    ensures
        (ConnectionModel::Reading { received }).on_event(EventModel::EndOfInput)
            == ConnectionModel::Closed,
        ConnectionModel::Closed.pending() == Action::Close,
        ConnectionModel::Closed.outgoing() is None,
{
}

/// Nothing that happens on the transport gives a connection bytes to write:
/// only the store's answer to a decoded request does.
pub proof fn only_dispatch_answers(before: ConnectionModel, event: EventModel)
    ensures
        before.on_event(event).outgoing() is None,
        before.on_event(event).pending() != Action::Write,
{
}

/// A connection carries one request and one response: once the response is
/// written, or anything has failed, it is closed for good.
pub proof fn closed_is_final(before: ConnectionModel, event: EventModel, store: StoreModel, now: nat)
    ensures
        before is Writing ==> before.on_event(event) == ConnectionModel::Closed,
        event is Failed ==> before.on_event(event) == ConnectionModel::Closed,
        ConnectionModel::Closed.on_event(event) == ConnectionModel::Closed,
        ConnectionModel::Closed.dispatched(store, now) == ConnectionModel::Closed,
        ConnectionModel::Closed.store_dispatched(store, now) == store,
{
}

enum State {
    Reading { received: Vec<u8> },
    Dispatching { request: Request },
    Writing { response: Vec<u8> },
    Closed,
}

/// One connection of the daemon.
pub struct Connection {
    state: State,
}

impl View for Connection {
    type V = ConnectionModel;

    closed spec fn view(&self) -> ConnectionModel {
        match self.state {
            State::Reading { received } => ConnectionModel::Reading { received: received@ },
            State::Dispatching { request } => ConnectionModel::Dispatching { request: request@ },
            State::Writing { response } => ConnectionModel::Writing { response: response@ },
            State::Closed => ConnectionModel::Closed,
        }
    }
}

impl Connection {
    /// A connection that was just accepted: it has read nothing yet.
    pub fn new() -> (connection: Connection)
        ensures
            connection@ == (ConnectionModel::Reading { received: Seq::empty() }),
    {
        Connection { state: State::Reading { received: Vec::new() } }
    }

    /// What the driver has to do next.
    pub fn pending(&self) -> (action: Action)
        ensures
            action == self@.pending(),
    {
        match &self.state {
            State::Reading { .. } => Action::Read,
            State::Dispatching { .. } => Action::Dispatch,
            State::Writing { .. } => Action::Write,
            State::Closed => Action::Close,
        }
    }

    /// The bytes to write, while the connection waits for them to be written.
    pub fn outgoing(&self) -> (bytes: Option<&Vec<u8>>)
        ensures
            match bytes {
                Some(bytes) => self@.outgoing() == Some(bytes@),
                None => self@.outgoing() is None,
            },
    {
        match &self.state {
            State::Writing { response } => Some(response),
            _ => None,
        }
    }

    /// Takes note of what the driver reports of the transport.
    pub fn on_event(self, event: Event) -> (next: Connection)
        ensures
            next@ == self@.on_event(event@),
    {
        match self.state {
            State::Reading { received } => match event {
                Event::Received(bytes) => {
                    let mut received = received;
                    let mut bytes = bytes;
                    received.append(&mut bytes);
                    Connection { state: State::Reading { received } }
                },
                Event::EndOfInput => match Request::decode(received.as_slice()) {
                    Ok(request) => Connection { state: State::Dispatching { request } },
                    Err(_) => Connection { state: State::Closed },
                },
                _ => Connection { state: State::Closed },
            },
            _ => Connection { state: State::Closed },
        }
    }

    /// Lets `store` answer at tick `now` if a request waits for it.
    pub fn dispatch_at(self, store: &mut SecretStore, now: u64) -> (next: Connection)
        ensures
            next@ == self@.dispatched(old(store)@, now as nat),
            final(store)@ == self@.store_dispatched(old(store)@, now as nat),
    {
        match self.state {
            State::Dispatching { request } => {
                let response = handle_request_at(request, store, now);
                Connection { state: State::Writing { response: response.encode() } }
            },
            state => Connection { state },
        }
    }

    /// Lets `store` answer at the current tick of its clock if a request waits
    /// for it.
    pub fn dispatch(self, store: &mut SecretStore) -> (next: Connection)
        ensures
            exists|now: nat|
                {
                    &&& next@ == #[trigger] self@.dispatched(old(store)@, now)
                    &&& final(store)@ == self@.store_dispatched(old(store)@, now)
                },
    {
        let now = store.now();
        self.dispatch_at(store, now)
    }
}

} // verus!
