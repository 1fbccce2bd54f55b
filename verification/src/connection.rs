//! One proxied connection, as a state machine.
//!
//! A connection goes through four phases: it scans the client's bytes for
//! the `Host` field, has the host resolved, has the upstream connection
//! opened, and relays. The machine decides; its driver acts. The driver
//! hands in what happened as an [`Event`], gets back an [`Action`], performs
//! it, and hands in what came of it. Each connection has a machine of its
//! own, and no machine shares anything with another.

use vstd::prelude::*;
use vstd::slice::slice_to_vec;
use vstd::utf8::decode_utf8;
use crate::bytes::{position, COLON};
use crate::error::Error;
use crate::host::{find_host, host_from, HostModel, HostScan};
use crate::resolve::{planned, server_name_valid, target_for, Address, Target, TargetModel};
use crate::scanner::HeaderScanner;

verus! {

/// What the driver reports to the machine.
#[derive(Clone, Debug, PartialEq, Eq)]
pub enum Event {
    /// Bytes were read from the client.
    ClientData(Vec<u8>),
    /// The client closed its side.
    ClientClosed,
    /// The lookup of the host returned these addresses.
    Resolved(Vec<Address>),
    /// The lookup of the host failed.
    ResolveFailed,
    /// The upstream connection is open and its handshake is done.
    Connected,
    /// The transport connection to the target could not be opened.
    ConnectFailed,
    /// The handshake failed, or the certificate was not accepted.
    HandshakeFailed,
    /// Bytes were read from the upstream.
    UpstreamData(Vec<u8>),
    /// The upstream closed its side.
    UpstreamClosed,
    /// A read or a write on a socket failed.
    IoFailed,
}

/// What the machine asks of the driver.
#[derive(Clone, Debug, PartialEq, Eq)]
pub enum Action {
    /// Read from the client, and report `ClientData` or `ClientClosed`.
    ReadClient,
    /// Look this host up, and report `Resolved` or `ResolveFailed`.
    Resolve(String),
    /// Open an encrypted connection to the target, and report `Connected`,
    /// `ConnectFailed` or `HandshakeFailed`.
    Connect(Target),
    /// Write to the upstream first `header`, the bytes that were scanned,
    /// then `leftover`, the bytes that were read behind them. From then on
    /// read from both sides, and report what arrives.
    Replay { header: Vec<u8>, leftover: Vec<u8> },
    /// Write these bytes to the upstream.
    ToUpstream(Vec<u8>),
    /// Write these bytes to the client.
    ToClient(Vec<u8>),
    /// Close both sockets. The connection is over: in order, or with the
    /// error given.
    Close(Option<Error>),
}

/// An event, as the values it holds.
pub enum EventModel {
    ClientData(Seq<u8>),
    ClientClosed,
    Resolved(Seq<Address>),
    ResolveFailed,
    Connected,
    ConnectFailed,
    HandshakeFailed,
    UpstreamData(Seq<u8>),
    UpstreamClosed,
    IoFailed,
}

/// An action, as the values it holds.
pub enum ActionModel {
    ReadClient,
    Resolve(Seq<char>),
    Connect(TargetModel),
    Replay { header: Seq<u8>, leftover: Seq<u8> },
    ToUpstream(Seq<u8>),
    ToClient(Seq<u8>),
    Close(Option<Error>),
}

impl View for Event {
    type V = EventModel;

    open spec fn view(&self) -> EventModel {
        match self {
            Event::ClientData(bytes) => EventModel::ClientData(bytes@),
            Event::ClientClosed => EventModel::ClientClosed,
            Event::Resolved(addresses) => EventModel::Resolved(addresses@),
            Event::ResolveFailed => EventModel::ResolveFailed,
            Event::Connected => EventModel::Connected,
            Event::ConnectFailed => EventModel::ConnectFailed,
            Event::HandshakeFailed => EventModel::HandshakeFailed,
            Event::UpstreamData(bytes) => EventModel::UpstreamData(bytes@),
            Event::UpstreamClosed => EventModel::UpstreamClosed,
            Event::IoFailed => EventModel::IoFailed,
        }
    }
}

impl View for Action {
    type V = ActionModel;

    open spec fn view(&self) -> ActionModel {
        match self {
            Action::ReadClient => ActionModel::ReadClient,
            Action::Resolve(host) => ActionModel::Resolve(host@),
            Action::Connect(target) => ActionModel::Connect(target@),
            Action::Replay { header, leftover } => ActionModel::Replay {
                header: header@,
                leftover: leftover@,
            },
            Action::ToUpstream(bytes) => ActionModel::ToUpstream(bytes@),
            Action::ToClient(bytes) => ActionModel::ToClient(bytes@),
            Action::Close(outcome) => ActionModel::Close(*outcome),
        }
    }
}

/// The state of a connection.
pub enum State {
    /// The client's bytes are scanned for the `Host` field. `buffer` holds
    /// all that was read, `cursor` is where the fields found so far end.
    Scanning { buffer: Seq<u8>, cursor: int },
    /// The `Host` field ends at `cursor`, and `host` is being looked up.
    Resolving { buffer: Seq<u8>, cursor: int, host: Seq<char> },
    /// The upstream connection is being opened.
    Connecting { buffer: Seq<u8>, cursor: int },
    /// Bytes pass in both directions.
    Relaying,
    /// The connection is over.
    Closed { outcome: Option<Error> },
}

impl State {
    /// The state of a connection that was just accepted.
    pub open spec fn initial() -> State {
        State::Scanning { buffer: Seq::empty(), cursor: 0 }
    }

    /// The cursor stands inside the buffer.
    pub open spec fn wf(self) -> bool {
        match self {
            State::Scanning { buffer, cursor } => 0 <= cursor <= buffer.len(),
            State::Resolving { buffer, cursor, .. } => 0 <= cursor <= buffer.len(),
            State::Connecting { buffer, cursor } => 0 <= cursor <= buffer.len(),
            _ => true,
        }
    }
}

/// The end of a connection.
pub open spec fn closed(outcome: Option<Error>) -> (State, ActionModel) {
    (State::Closed { outcome }, ActionModel::Close(outcome))
}

/// The error of a client that closed while its bytes were scanned: in the
/// middle of a field where a name has ended at or behind the cursor,
/// before any `Host` field otherwise.
pub open spec fn early_close(buffer: Seq<u8>, cursor: int) -> Error {
    if position(buffer, cursor, COLON) is Some {
        Error::MissingDelimiter
    } else {
        Error::NoHost
    }
}

/// What follows from a search for the `Host` field in the bytes read so
/// far: more reading, a lookup of the host that was found, or the end.
pub open spec fn scanned(buffer: Seq<u8>, cursor: int) -> (State, ActionModel) {
    match host_from(buffer, cursor) {
        HostModel::NeedMoreData { cursor: reached } => (
            State::Scanning { buffer, cursor: reached },
            ActionModel::ReadClient,
        ),
        HostModel::Error { error, .. } => closed(Some(error)),
        HostModel::Found { host, end } => if host.len() == 0 {
            closed(Some(Error::EmptyHost))
        } else {
            (
                State::Resolving { buffer, cursor: end, host: decode_utf8(host) },
                ActionModel::Resolve(decode_utf8(host)),
            )
        },
    }
}

/// What follows from the answer of a lookup: a connection to the last
/// address on port 443, or the end.
pub open spec fn resolved(buffer: Seq<u8>, cursor: int, host: Seq<char>, addresses: Seq<Address>) -> (
    State,
    ActionModel,
) {
    match planned(host, addresses, server_name_valid(host)) {
        Ok(target) => (State::Connecting { buffer, cursor }, ActionModel::Connect(target)),
        Err(error) => closed(Some(error)),
    }
}

/// The state that follows `state` on `event`, and the action to perform.
pub open spec fn transition(state: State, event: EventModel) -> (State, ActionModel) {
    match state {
        State::Scanning { buffer, cursor } => match event {
            EventModel::ClientData(bytes) => scanned(buffer + bytes, cursor),
            EventModel::ClientClosed => closed(Some(early_close(buffer, cursor))),
            EventModel::IoFailed => closed(Some(Error::IO)),
            _ => closed(Some(Error::Unexpected)),
        },
        State::Resolving { buffer, cursor, host } => match event {
            EventModel::Resolved(addresses) => resolved(buffer, cursor, host, addresses),
            EventModel::ResolveFailed => closed(Some(Error::LookupFailed)),
            EventModel::IoFailed => closed(Some(Error::IO)),
            _ => closed(Some(Error::Unexpected)),
        },
        State::Connecting { buffer, cursor } => match event {
            EventModel::Connected => (
                State::Relaying,
                ActionModel::Replay { header: buffer.take(cursor), leftover: buffer.skip(cursor) },
            ),
            EventModel::ConnectFailed => closed(Some(Error::ConnectFailed)),
            EventModel::HandshakeFailed => closed(Some(Error::Handshake)),
            EventModel::IoFailed => closed(Some(Error::IO)),
            _ => closed(Some(Error::Unexpected)),
        },
        State::Relaying => match event {
            EventModel::ClientData(bytes) => (State::Relaying, ActionModel::ToUpstream(bytes)),
            EventModel::UpstreamData(bytes) => (State::Relaying, ActionModel::ToClient(bytes)),
            EventModel::ClientClosed | EventModel::UpstreamClosed => closed(None),
            EventModel::IoFailed => closed(Some(Error::IO)),
            _ => closed(Some(Error::Unexpected)),
        },
        State::Closed { outcome } => closed(outcome),
    }
}

/// The phase a connection is in.
#[derive(Clone, Copy, Debug, PartialEq, Eq, Structural)]
pub enum Phase {
    Scanning,
    Resolving,
    Connecting,
    Relaying,
    Closed,
}

/// The machine of one connection.
pub struct Connection {
    phase: Phase,
    scanner: HeaderScanner,
    host: String,
    outcome: Option<Error>,
}

impl View for Connection {
    type V = State;

    closed spec fn view(&self) -> State {
        match self.phase {
            Phase::Scanning => State::Scanning {
                buffer: self.scanner.buffer(),
                cursor: self.scanner.cursor(),
            },
            Phase::Resolving => State::Resolving {
                buffer: self.scanner.buffer(),
                cursor: self.scanner.cursor(),
                host: self.host@,
            },
            Phase::Connecting => State::Connecting {
                buffer: self.scanner.buffer(),
                cursor: self.scanner.cursor(),
            },
            Phase::Relaying => State::Relaying,
            Phase::Closed => State::Closed { outcome: self.outcome },
        }
    }
}

impl Connection {
    /// The machine is in a well-formed state. Every machine that `new`
    /// made and `step` moved is.
    pub open spec fn wf(&self) -> bool {
        self@.wf()
    }

    /// The phase of a state.
    pub open spec fn phase_of(state: State) -> Phase {
        match state {
            State::Scanning { .. } => Phase::Scanning,
            State::Resolving { .. } => Phase::Resolving,
            State::Connecting { .. } => Phase::Connecting,
            State::Relaying => Phase::Relaying,
            State::Closed { .. } => Phase::Closed,
        }
    }

    /// The machine of a connection that was just accepted. Its driver
    /// begins by reading from the client.
    pub fn new() -> (c: Connection)
        ensures
            c.wf(),
            c@ == State::initial(),
    {
        Connection {
            phase: Phase::Scanning,
            scanner: HeaderScanner::new(),
            host: String::new(),
            outcome: None,
        }
    }

    /// The phase the connection is in.
    pub fn phase(&self) -> (p: Phase)
        ensures
            p == Self::phase_of(self@),
    {
        self.phase
    }

    /// How the connection ended: `None` while it is open and after it closed
    /// in order, the error after it failed.
    pub fn outcome(&self) -> (o: Option<Error>)
        ensures
            o == match self@ {
                State::Closed { outcome } => outcome,
                _ => None,
            },
    {
        match self.phase {
            Phase::Closed => self.outcome,
            _ => None,
        }
    }

    fn close(&mut self, outcome: Option<Error>) -> (action: Action)
        ensures
            (final(self)@, action@) == closed(outcome),
    {
        self.phase = Phase::Closed;
        self.outcome = outcome;
        Action::Close(outcome)
    }

    fn on_client_data(&mut self, bytes: Vec<u8>) -> (action: Action)
        requires
            old(self).wf(),
            old(self)@ is Scanning,
        ensures
            final(self).wf(),
            (final(self)@, action@) == transition(old(self)@, EventModel::ClientData(bytes@)),
    {
        self.scanner.feed(bytes.as_slice());
        match find_host(&mut self.scanner) {
            HostScan::NeedMoreData => Action::ReadClient,
            HostScan::Error(error) => self.close(Some(error)),
            HostScan::Found(host) => {
                if host.as_str().is_empty() {
                    self.close(Some(Error::EmptyHost))
                } else {
                    self.phase = Phase::Resolving;
                    self.host = host.clone();
                    Action::Resolve(host)
                }
            },
        }
    }

    fn on_resolved(&mut self, addresses: Vec<Address>) -> (action: Action)
        requires
            old(self).wf(),
            old(self)@ is Resolving,
        ensures
            final(self).wf(),
            (final(self)@, action@) == transition(old(self)@, EventModel::Resolved(addresses@)),
    {
        match target_for(self.host.as_str(), addresses.as_slice()) {
            Ok(target) => {
                self.phase = Phase::Connecting;
                Action::Connect(target)
            },
            Err(error) => self.close(Some(error)),
        }
    }

    fn on_connected(&mut self) -> (action: Action)
        requires
            old(self).wf(),
            old(self)@ is Connecting,
        ensures
            final(self).wf(),
            (final(self)@, action@) == transition(old(self)@, EventModel::Connected),
    {
        let header = slice_to_vec(self.scanner.consumed());
        let leftover = slice_to_vec(self.scanner.pending());
        self.phase = Phase::Relaying;
        self.scanner = HeaderScanner::new();
        Action::Replay { header, leftover }
    }

    /// Takes in what happened, moves to the next state, and says what to do.
    ///
    /// An event that cannot occur in the phase the connection is in ends the
    /// connection. Once closed, a connection answers every event with the
    /// same `Close`.
    pub fn step(&mut self, event: Event) -> (action: Action)
        requires
            old(self).wf(),
        ensures
            final(self).wf(),
            final(self)@ == transition(old(self)@, event@).0,
            action@ == transition(old(self)@, event@).1,
    {
        match self.phase {
            Phase::Scanning => match event {
                Event::ClientData(bytes) => self.on_client_data(bytes),
                Event::ClientClosed => {
                    let error = if self.scanner.in_field() {
                        Error::MissingDelimiter
                    } else {
                        Error::NoHost
                    };
                    self.close(Some(error))
                },
                Event::IoFailed => self.close(Some(Error::IO)),
                _ => self.close(Some(Error::Unexpected)),
            },
            Phase::Resolving => match event {
                Event::Resolved(addresses) => self.on_resolved(addresses),
                Event::ResolveFailed => self.close(Some(Error::LookupFailed)),
                Event::IoFailed => self.close(Some(Error::IO)),
                _ => self.close(Some(Error::Unexpected)),
            },
            Phase::Connecting => match event {
                Event::Connected => self.on_connected(),
                Event::ConnectFailed => self.close(Some(Error::ConnectFailed)),
                Event::HandshakeFailed => self.close(Some(Error::Handshake)),
                Event::IoFailed => self.close(Some(Error::IO)),
                _ => self.close(Some(Error::Unexpected)),
            },
            Phase::Relaying => match event {
                Event::ClientData(bytes) => Action::ToUpstream(bytes),
                Event::UpstreamData(bytes) => Action::ToClient(bytes),
                Event::ClientClosed | Event::UpstreamClosed => self.close(None),
                Event::IoFailed => self.close(Some(Error::IO)),
                _ => self.close(Some(Error::Unexpected)),
            },
            Phase::Closed => Action::Close(self.outcome),
        }
    }
}

} // verus!
