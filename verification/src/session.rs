//! The session: what a client does, step by step, to have a proxy serve a
//! target.
//!
//! A session does no I/O. It names the one thing that its driver has to do
//! next with the transport, and is told how that went. Each message is
//! written whole and flushed before the answer to it is read, in both kinds
//! of session, so that a transport which buffers its writes never has the
//! proxy wait for bytes that the client still holds. The answer is read in
//! pieces of exactly the size that is known to be missing, so that no byte
//! of what follows the negotiation is taken from the stream.

use vstd::prelude::*;
use crate::address::Address;
use crate::address::AddressView;
use crate::error::ProtocolError;
use crate::message::Command;
use crate::message::HandshakeRequest;
use crate::message::HandshakeRequestView;
use crate::message::HandshakeResponse;
use crate::message::TcpRequestHeader;
use crate::message::TcpRequestHeaderView;
use crate::message::TcpResponseHeader;
use crate::message::TcpResponseHeaderView;
use crate::message::lemma_response_wire_of_scan;
use crate::message::SOCKS5_AUTH_METHOD_NONE;
use crate::reply::Reply;
use crate::wire::Parse;

verus! {

/// What the driver reports to the session.
#[derive(Debug, PartialEq, Eq)]
pub enum Event {
    /// All the bytes of the last `Write` have been handed to the transport.
    Written,
    /// The transport has been flushed.
    Flushed,
    /// These bytes were read: at least one, and no more than were asked for.
    Received(Vec<u8>),
    /// The stream ended where bytes were to be read.
    Closed,
    /// The transport failed.
    TransportFailed,
}

/// An event as a mathematical value.
pub enum EventView {
    Written,
    Flushed,
    Received(Seq<u8>),
    Closed,
    TransportFailed,
}

impl View for Event {
    type V = EventView;

    open spec fn view(&self) -> EventView {
        match self {
            Event::Written => EventView::Written,
            Event::Flushed => EventView::Flushed,
            Event::Received(data) => EventView::Received(data@),
            Event::Closed => EventView::Closed,
            Event::TransportFailed => EventView::TransportFailed,
        }
    }
}

/// What the session has its driver do next.
#[derive(Debug, PartialEq, Eq)]
pub enum Action {
    /// Write all of these bytes to the transport.
    Write(Vec<u8>),
    /// Flush the transport.
    Flush,
    /// Read from the transport: at least one byte, at most this many.
    Read(usize),
    /// The negotiation succeeded: the stream now carries the application's
    /// bytes.
    Done,
    /// The negotiation failed: give the connection up and report the error.
    Fail(ProtocolError),
}

/// An action as a mathematical value.
pub enum ActionView {
    Write(Seq<u8>),
    Flush,
    Read(usize),
    Done,
    Fail(ProtocolError),
}

impl View for Action {
    type V = ActionView;

    open spec fn view(&self) -> ActionView {
        match self {
            Action::Write(bytes) => ActionView::Write(bytes@),
            Action::Flush => ActionView::Flush,
            Action::Read(limit) => ActionView::Read(*limit),
            Action::Done => ActionView::Done,
            Action::Fail(error) => ActionView::Fail(*error),
        }
    }
}

/// Where a session stands.
pub enum State {
    /// The greeting is to be written.
    SendGreeting,
    /// The greeting is written and to be flushed.
    FlushGreeting,
    /// The proxy's choice of method is awaited; `got` is what has come of it.
    AwaitMethod { got: Seq<u8> },
    /// The request is to be written.
    SendRequest,
    /// The request is written and to be flushed.
    FlushRequest,
    /// The proxy's response is awaited; `got` is what has come of it.
    AwaitReply { got: Seq<u8> },
    /// The proxy serves the target, and has bound this endpoint for it.
    Established { bound: AddressView },
    /// The session has failed.
    Failed { error: ProtocolError },
}

/// A session as a mathematical value: the request that it is to place, and
/// where it stands.
pub struct Session {
    pub request: TcpRequestHeaderView,
    pub state: State,
}

/// The number of bytes that a reading is short of; zero where it is not
/// short.
pub open spec fn missing<T>(parsed: Parse<T>) -> usize {
    match parsed {
        Parse::Short(missing) => missing,
        _ => 0,
    }
}

impl Session {
    /// A new session for `command` and `target`.
    pub open spec fn start(command: Command, target: AddressView) -> Session {
        Session {
            request: TcpRequestHeaderView { command, address: target },
            state: State::SendGreeting,
        }
    }

    /// The greeting of every session: it offers the one method "no
    /// authentication".
    pub open spec fn greeting() -> Seq<u8> {
        (HandshakeRequestView { methods: seq![SOCKS5_AUTH_METHOD_NONE] }).wire()
    }

    /// The request can be written; while an answer is awaited, what has come
    /// of it does not yet decide anything; an endpoint that was bound is one
    /// that was read; and a reply that failed the session is one that was
    /// read and is not `Succeeded`.
    pub open spec fn wf(self) -> bool {
        &&& self.request.wf()
        &&& match self.state {
            State::AwaitMethod { got } => HandshakeResponse::scan(got) is Short,
            State::AwaitReply { got } => TcpResponseHeaderView::scan(got) is Short,
            State::Established { bound } => bound.wf(),
            State::Failed { error: ProtocolError::ProxyRejected(reply) } => reply.canonical()
                && reply != Reply::Succeeded,
            _ => true,
        }
    }

    /// Whether the session has ended, well or badly.
    pub open spec fn finished(self) -> bool {
        self.state is Established || self.state is Failed
    }

    /// What the driver has to do next.
    pub open spec fn action(self) -> ActionView {
        match self.state {
            State::SendGreeting => ActionView::Write(Session::greeting()),
            State::FlushGreeting => ActionView::Flush,
            State::AwaitMethod { got } => ActionView::Read(missing(HandshakeResponse::scan(got))),
            State::SendRequest => ActionView::Write(self.request.wire()),
            State::FlushRequest => ActionView::Flush,
            State::AwaitReply { got } => ActionView::Read(
                missing(TcpResponseHeaderView::scan(got)),
            ),
            State::Established { .. } => ActionView::Done,
            State::Failed { error } => ActionView::Fail(error),
        }
    }

    /// Whether `event` answers what the driver was to do: a write is
    /// answered by `Written`, a flush by `Flushed`, a read by `Closed` or by
    /// bytes, one at least and no more than were asked for, and each of them
    /// by `TransportFailed`. A session that has ended accepts nothing.
    pub open spec fn accepts(self, event: EventView) -> bool {
        match self.action() {
            ActionView::Write(_) => event is Written || event is TransportFailed,
            ActionView::Flush => event is Flushed || event is TransportFailed,
            ActionView::Read(limit) => match event {
                EventView::Received(data) => 0 < data.len() <= limit,
                EventView::Closed => true,
                EventView::TransportFailed => true,
                _ => false,
            },
            ActionView::Done => false,
            ActionView::Fail(_) => false,
        }
    }

    /// Where the session stands once `bytes` have come of the proxy's choice
    /// of method. Any method but "no authentication" fails the session.
    pub open spec fn method_received(bytes: Seq<u8>) -> State {
        match HandshakeResponse::scan(bytes) {
            Parse::Short(_) => State::AwaitMethod { got: bytes },
            Parse::Malformed => State::Failed { error: ProtocolError::MalformedMessage },
            Parse::Done(response, _) => if response.chosen_method == SOCKS5_AUTH_METHOD_NONE {
                State::SendRequest
            } else {
                State::Failed { error: ProtocolError::UnsupportedAuthMethod }
            },
        }
    }

    /// Where the session stands once `bytes` have come of the proxy's
    /// response. The response is read to its end before its reply is judged.
    pub open spec fn reply_received(bytes: Seq<u8>) -> State {
        match TcpResponseHeaderView::scan(bytes) {
            Parse::Short(_) => State::AwaitReply { got: bytes },
            Parse::Malformed => State::Failed { error: ProtocolError::MalformedMessage },
            Parse::Done(response, _) => if response.reply == Reply::Succeeded {
                State::Established { bound: response.address }
            } else {
                State::Failed { error: ProtocolError::ProxyRejected(response.reply) }
            },
        }
    }

    /// The session after `event`. An event that the session does not accept
    /// leaves it as it is.
    pub open spec fn step(self, event: EventView) -> Session {
        if !self.accepts(event) {
            self
        } else {
            let state = match (self.state, event) {
                (_, EventView::TransportFailed) => State::Failed {
                    error: ProtocolError::TransportError,
                },
                (_, EventView::Closed) => State::Failed { error: ProtocolError::UnexpectedEof },
                (State::SendGreeting, _) => State::FlushGreeting,
                (State::FlushGreeting, _) => State::AwaitMethod { got: Seq::empty() },
                (State::AwaitMethod { got }, EventView::Received(data)) => Session::method_received(
                    got + data,
                ),
                (State::SendRequest, _) => State::FlushRequest,
                (State::FlushRequest, _) => State::AwaitReply { got: Seq::empty() },
                (State::AwaitReply { got }, EventView::Received(data)) => Session::reply_received(
                    got + data,
                ),
                (state, _) => state,
            };
            Session { request: self.request, state }
        }
    }
}

/// A step leaves a well-formed session well formed.
pub proof fn lemma_step_keeps_wf(session: Session, event: EventView)
    requires
        session.wf(),
    ensures
        session.step(event).wf(),
{
    if session.accepts(event) {
        if let (State::AwaitReply { got }, EventView::Received(data)) = (session.state, event) {
            lemma_response_wire_of_scan(got + data);
        }
    }
}

enum Stage {
    SendGreeting,
    FlushGreeting,
    AwaitMethod(Vec<u8>),
    SendRequest,
    FlushRequest,
    AwaitReply(Vec<u8>),
    Established(Address),
    Failed(ProtocolError),
}

impl View for Stage {
    type V = State;

    closed spec fn view(&self) -> State {
        match self {
            Stage::SendGreeting => State::SendGreeting,
            Stage::FlushGreeting => State::FlushGreeting,
            Stage::AwaitMethod(got) => State::AwaitMethod { got: got@ },
            Stage::SendRequest => State::SendRequest,
            Stage::FlushRequest => State::FlushRequest,
            Stage::AwaitReply(got) => State::AwaitReply { got: got@ },
            Stage::Established(bound) => State::Established { bound: bound@ },
            Stage::Failed(error) => State::Failed { error: *error },
        }
    }
}

/// The client's side of one session with a SOCKS5 proxy.
pub struct Socks5Client {
    request: TcpRequestHeader,
    stage: Stage,
}

impl View for Socks5Client {
    type V = Session;

    closed spec fn view(&self) -> Session {
        Session { request: self.request@, state: self.stage@ }
    }
}

impl Socks5Client {
    #[verifier::type_invariant]
    spec fn well_formed(self) -> bool {
        self@.wf()
    }
}

fn method_received(got: Vec<u8>) -> (stage: Stage)
    ensures
        stage@ == Session::method_received(got@),
{
    match HandshakeResponse::parse(got.as_slice()) {
        Parse::Short(_) => Stage::AwaitMethod(got),
        Parse::Malformed => Stage::Failed(ProtocolError::MalformedMessage),
        Parse::Done(response, _) => if response.chosen_method == SOCKS5_AUTH_METHOD_NONE {
            Stage::SendRequest
        } else {
            Stage::Failed(ProtocolError::UnsupportedAuthMethod)
        },
    }
}

fn reply_received(got: Vec<u8>) -> (stage: Stage)
    ensures
        stage@ == Session::reply_received(got@),
{
    match TcpResponseHeader::parse(got.as_slice()) {
        Parse::Short(_) => Stage::AwaitReply(got),
        Parse::Malformed => Stage::Failed(ProtocolError::MalformedMessage),
        Parse::Done(response, _) => if response.reply.is_succeeded() {
            Stage::Established(response.address)
        } else {
            Stage::Failed(ProtocolError::ProxyRejected(response.reply))
        },
    }
}

impl Socks5Client {
    /// Begins a session that has the proxy open a stream to `addr`.
    pub fn connect(addr: Address) -> (client: Socks5Client)
        ensures
            client@ == Session::start(Command::TcpConnect, addr@),
            client@.wf(),
    {
        proof {
            if let Address::Domain(name, _) = &addr {
                use_type_invariant(name);
            }
        }
        Socks5Client {
            request: TcpRequestHeader::new(Command::TcpConnect, addr),
            stage: Stage::SendGreeting,
        }
    }

    /// Begins a session that has the proxy set up a relay for datagrams. The
    /// endpoint of that relay is the address that the proxy binds.
    pub fn udp_associate(addr: Address) -> (client: Socks5Client)
        ensures
            client@ == Session::start(Command::UdpAssociate, addr@),
            client@.wf(),
    {
        proof {
            if let Address::Domain(name, _) = &addr {
                use_type_invariant(name);
            }
        }
        Socks5Client {
            request: TcpRequestHeader::new(Command::UdpAssociate, addr),
            stage: Stage::SendGreeting,
        }
    }

    /// The command that the session places with the proxy.
    pub fn command(&self) -> (command: Command)
        ensures
            command == self@.request.command,
    {
        self.request.command
    }

    /// The target that the session is for.
    pub fn target(&self) -> (target: &Address)
        ensures
            target@ == self@.request.address,
    {
        &self.request.address
    }

    /// The endpoint that the proxy bound, once the session is established;
    /// `None` until then and after a failure. For a relay of datagrams it is
    /// where the datagrams go; for a stream it tells nothing of use.
    pub fn bound_address(&self) -> (bound: Option<&Address>)
        ensures
            match bound {
                Some(address) => self@.state == (State::Established { bound: address@ }),
                None => !(self@.state is Established),
            },
    {
        match &self.stage {
            Stage::Established(address) => Some(address),
            _ => None,
        }
    }

    /// What the driver has to do next.
    pub fn next_action(&self) -> (action: Action)
        ensures
            action@ == self@.action(),
            self@.wf(),
    {
        proof {
            use_type_invariant(self);
        }
        match &self.stage {
            Stage::SendGreeting => {
                let mut bytes: Vec<u8> = Vec::new();
                if let Some(greeting) = HandshakeRequest::new(vec![SOCKS5_AUTH_METHOD_NONE]) {
                    greeting.write_to_buf(&mut bytes);
                    assert(greeting@.methods =~= seq![SOCKS5_AUTH_METHOD_NONE]);
                }
                assert(bytes@ =~= Session::greeting());
                Action::Write(bytes)
            },
            Stage::FlushGreeting => Action::Flush,
            Stage::AwaitMethod(got) => match HandshakeResponse::parse(got.as_slice()) {
                Parse::Short(missing) => Action::Read(missing),
                _ => Action::Read(0),
            },
            Stage::SendRequest => {
                let mut bytes: Vec<u8> = Vec::new();
                self.request.write_to_buf(&mut bytes);
                assert(bytes@ =~= self@.request.wire());
                Action::Write(bytes)
            },
            Stage::FlushRequest => Action::Flush,
            Stage::AwaitReply(got) => match TcpResponseHeader::parse(got.as_slice()) {
                Parse::Short(missing) => Action::Read(missing),
                _ => Action::Read(0),
            },
            Stage::Established(_) => Action::Done,
            Stage::Failed(error) => Action::Fail(*error),
        }
    }

    /// Whether `event` answers what the driver was to do.
    pub fn accepts(&self, event: &Event) -> (yes: bool)
        ensures
            yes == self@.accepts(event@),
    {
        match self.next_action() {
            Action::Write(_) => match event {
                Event::Written => true,
                Event::TransportFailed => true,
                _ => false,
            },
            Action::Flush => match event {
                Event::Flushed => true,
                Event::TransportFailed => true,
                _ => false,
            },
            Action::Read(limit) => match event {
                Event::Received(data) => 0 < data.len() && data.len() <= limit,
                Event::Closed => true,
                Event::TransportFailed => true,
                _ => false,
            },
            Action::Done => false,
            Action::Fail(_) => false,
        }
    }

    /// Takes in what the driver reports, and says what it has to do next. An
    /// event that does not answer what the driver was to do changes nothing:
    /// the action that was due is due still.
    pub fn advance(&mut self, event: Event) -> (next: Action)
        ensures
            final(self)@ == old(self)@.step(event@),
            final(self)@.wf(),
            next@ == final(self)@.action(),
    {
        proof {
            use_type_invariant(&*self);
            lemma_step_keeps_wf(self@, event@);
        }
        if !self.accepts(&event) {
            return self.next_action();
        }
        let mut stage = Stage::SendGreeting;
        core::mem::swap(&mut self.stage, &mut stage);
        self.stage = match event {
            Event::TransportFailed => Stage::Failed(ProtocolError::TransportError),
            Event::Closed => Stage::Failed(ProtocolError::UnexpectedEof),
            Event::Written => match stage {
                Stage::SendGreeting => Stage::FlushGreeting,
                _ => Stage::FlushRequest,
            },
            Event::Flushed => match stage {
                Stage::FlushGreeting => Stage::AwaitMethod(Vec::new()),
                _ => Stage::AwaitReply(Vec::new()),
            },
            Event::Received(data) => match stage {
                Stage::AwaitMethod(mut got) => {
                    let ghost before = got@;
                    got.extend_from_slice(data.as_slice());
                    assert(got@ =~= before + data@);
                    method_received(got)
                },
                Stage::AwaitReply(mut got) => {
                    let ghost before = got@;
                    got.extend_from_slice(data.as_slice());
                    assert(got@ =~= before + data@);
                    reply_received(got)
                },
                other => other,
            },
        };
        self.next_action()
    }
}

} // verus!
