//! Whole runs of a session: what holds of every sequence of events that a
//! driver may report, however the transport cuts the proxy's bytes into
//! pieces.

use vstd::prelude::*;
use crate::address::AddressView;
use crate::error::ProtocolError;
use crate::message::lemma_response_scan_is_bounded;
use crate::message::lemma_response_scan_short;
use crate::message::Command;
use crate::message::HandshakeResponse;
use crate::message::TcpResponseHeaderView;
use crate::message::SOCKS5_AUTH_METHOD_NONE;
use crate::reply::Reply;
use crate::session::lemma_step_keeps_wf;
use crate::session::ActionView;
use crate::session::EventView;
use crate::session::Session;
use crate::session::State;
use crate::wire::Parse;
use crate::wire::SOCKS5_VERSION;

verus! {

/// The session after the events of `events`, in their order.
pub open spec fn replay(session: Session, events: Seq<EventView>) -> Session
    decreases events.len(),
{
    if events.len() == 0 {
        session
    } else {
        replay(session, events.drop_last()).step(events.last())
    }
}

/// Whether each event of `events` answers what the session asked for when
/// the event came.
pub open spec fn admissible(session: Session, events: Seq<EventView>) -> bool
    decreases events.len(),
{
    events.len() == 0 || (admissible(session, events.drop_last()) && replay(
        session,
        events.drop_last(),
    ).accepts(events.last()))
}

/// The bytes that `event` brought from the proxy.
pub open spec fn brought(event: EventView) -> Seq<u8> {
    match event {
        EventView::Received(data) => data,
        _ => Seq::empty(),
    }
}

/// The bytes that went to the proxy when `event` came: those of the write
/// that it reports as done.
pub open spec fn carried(session: Session, event: EventView) -> Seq<u8> {
    match (session.action(), event) {
        (ActionView::Write(bytes), EventView::Written) => bytes,
        _ => Seq::empty(),
    }
}

/// All the bytes that the events of `events` brought from the proxy.
pub open spec fn received(events: Seq<EventView>) -> Seq<u8>
    decreases events.len(),
{
    if events.len() == 0 {
        Seq::empty()
    } else {
        received(events.drop_last()) + brought(events.last())
    }
}

/// All the bytes that went to the proxy in the course of `events`.
pub open spec fn written(session: Session, events: Seq<EventView>) -> Seq<u8>
    decreases events.len(),
{
    if events.len() == 0 {
        Seq::empty()
    } else {
        written(session, events.drop_last()) + carried(
            replay(session, events.drop_last()),
            events.last(),
        )
    }
}

/// The transport never failed.
pub open spec fn undisturbed(events: Seq<EventView>) -> bool {
    forall|i: int| 0 <= i < events.len() ==> !(#[trigger] events[i] is TransportFailed)
}

/// The stream never ended under a read.
pub open spec fn unclosed(events: Seq<EventView>) -> bool {
    forall|i: int| 0 <= i < events.len() ==> !(#[trigger] events[i] is Closed)
}

/// The proxy's agreement to a session without authentication.
pub open spec fn agreement() -> Seq<u8> {
    (HandshakeResponse { chosen_method: SOCKS5_AUTH_METHOD_NONE }).wire()
}

/// Whether `got` is the agreement followed by bytes of a response.
pub open spec fn past_agreement(got: Seq<u8>) -> bool {
    got.len() >= 2 && got.subrange(0, 2) == agreement()
}

/// How a session's state goes with what it has sent and received.
///
/// A response is read only when the request before it has been written whole
/// and flushed; the request is written only when the answer to the greeting
/// has been read whole; a session that has ended has read exactly the bytes
/// of the answers that decided it, and none after them. A session that
/// failed for its transport, or for the end of the stream, stands where it
/// stood before.
pub open spec fn consistent(session: Session, sent: Seq<u8>, got: Seq<u8>) -> bool {
    let greeting = Session::greeting();
    let both = Session::greeting() + session.request.wire();
    let response = TcpResponseHeaderView::scan(got.skip(2));
    match session.state {
        State::SendGreeting => sent == Seq::<u8>::empty() && got == Seq::<u8>::empty(),
        State::FlushGreeting => sent == greeting && got == Seq::<u8>::empty(),
        State::AwaitMethod { got: part } => sent == greeting && got == part,
        State::SendRequest => sent == greeting && got == agreement(),
        State::FlushRequest => sent == both && got == agreement(),
        State::AwaitReply { got: part } => sent == both && got == agreement() + part,
        State::Established { bound } => {
            &&& sent == both
            &&& past_agreement(got)
            &&& response matches Parse::Done(header, taken)
            &&& taken == got.len() - 2
            &&& header.reply == Reply::Succeeded
            &&& header.address == bound
        },
        State::Failed { error } => match error {
            ProtocolError::UnsupportedAuthMethod => {
                &&& sent == greeting
                &&& got.len() == 2
                &&& got[0] == SOCKS5_VERSION
                &&& got[1] != SOCKS5_AUTH_METHOD_NONE
            },
            ProtocolError::ProxyRejected(reply) => {
                &&& sent == both
                &&& past_agreement(got)
                &&& response matches Parse::Done(header, taken)
                &&& taken == got.len() - 2
                &&& header.reply == reply
            },
            ProtocolError::MalformedMessage => {
                ||| sent == greeting && got.len() == 2 && HandshakeResponse::scan(got) is Malformed
                ||| {
                    &&& sent == both
                    &&& past_agreement(got)
                    &&& response is Malformed
                    &&& TcpResponseHeaderView::scan(got.skip(2).drop_last()) is Short
                }
            },
            ProtocolError::UnexpectedEof => {
                ||| sent == greeting && HandshakeResponse::scan(got) is Short
                ||| sent == both && past_agreement(got) && response is Short
            },
            ProtocolError::TransportError => {
                ||| sent == Seq::<u8>::empty() && got == Seq::<u8>::empty()
                ||| sent == greeting && HandshakeResponse::scan(got) is Short
                ||| sent == greeting && got == agreement()
                ||| sent == both && past_agreement(got) && response is Short
            },
        },
    }
}

/// One step keeps a session's state in line with what it has sent and
/// received.
pub proof fn lemma_step_keeps_consistent(
    session: Session,
    sent: Seq<u8>,
    got: Seq<u8>,
    event: EventView,
)
    requires
        session.wf(),
        consistent(session, sent, got),
        session.accepts(event),
    ensures
        consistent(session.step(event), sent + carried(session, event), got + brought(event)),
{
    let next = session.step(event);
    let sent_next = sent + carried(session, event);
    let got_next = got + brought(event);
    let greeting = Session::greeting();
    let both = Session::greeting() + session.request.wire();
    assert(sent + Seq::<u8>::empty() =~= sent);
    assert(got + Seq::<u8>::empty() =~= got);
    assert(Seq::<u8>::empty() + greeting =~= greeting);
    assert(agreement() + Seq::<u8>::empty() =~= agreement());
    match (session.state, event) {
        (State::AwaitMethod { got: part }, EventView::Received(data)) => {
            assert(got_next =~= part + data);
            if HandshakeResponse::scan(got_next) is Done {
                assert(got_next =~= seq![got_next[0], got_next[1]]);
            }
        },
        (State::AwaitReply { got: part }, EventView::Received(data)) => {
            assert(got_next =~= agreement() + (part + data));
            assert(got_next.skip(2) =~= part + data);
            assert(got_next.subrange(0, 2) =~= agreement());
            lemma_response_scan_short(part, data);
            lemma_response_scan_short(part, data.drop_last());
            assert((part + data).drop_last() =~= part + data.drop_last());
        },
        (State::AwaitReply { got: part }, _) => {
            assert(got.skip(2) =~= part);
            assert(got.subrange(0, 2) =~= agreement());
        },
        (State::FlushRequest, _) => {
            assert(got.skip(2) =~= Seq::<u8>::empty());
            assert(got.subrange(0, 2) =~= agreement());
        },
        _ => {},
    }
}

/// Every run of a session that begins at its start keeps the state in line
/// with what was sent and received: see `consistent`. A session that failed
/// for its transport, or for the end of the stream, did so at the last
/// event, which reported just that.
pub proof fn lemma_run_is_consistent(command: Command, target: AddressView, events: Seq<EventView>)
    requires
        target.wf(),
        admissible(Session::start(command, target), events),
    ensures
        replay(Session::start(command, target), events).wf(),
        replay(Session::start(command, target), events).request == Session::start(
            command,
            target,
        ).request,
        consistent(
            replay(Session::start(command, target), events),
            written(Session::start(command, target), events),
            received(events),
        ),
        replay(Session::start(command, target), events).state == (State::Failed {
            error: ProtocolError::TransportError,
        }) ==> events.len() > 0 && events.last() is TransportFailed,
        replay(Session::start(command, target), events).state == (State::Failed {
            error: ProtocolError::UnexpectedEof,
        }) ==> events.len() > 0 && events.last() is Closed,
    decreases events.len(),
{
    let start = Session::start(command, target);
    if events.len() > 0 {
        let before = replay(start, events.drop_last());
        lemma_run_is_consistent(command, target, events.drop_last());
        lemma_step_keeps_wf(before, events.last());
        lemma_step_keeps_consistent(
            before,
            written(start, events.drop_last()),
            received(events.drop_last()),
            events.last(),
        );
    }
}

/// How far a session has come: the number of events other than bytes
/// received that can have led to its state.
spec fn rank(state: State) -> nat {
    match state {
        State::SendGreeting => 0,
        State::FlushGreeting => 1,
        State::AwaitMethod { .. } => 2,
        State::SendRequest => 2,
        State::FlushRequest => 3,
        State::AwaitReply { .. } => 4,
        State::Established { .. } => 4,
        State::Failed { .. } => 5,
    }
}

proof fn lemma_run_is_ranked(command: Command, target: AddressView, events: Seq<EventView>)
    requires
        target.wf(),
        admissible(Session::start(command, target), events),
    ensures
        events.len() <= rank(replay(Session::start(command, target), events).state) + received(
            events,
        ).len(),
    decreases events.len(),
{
    if events.len() > 0 {
        lemma_run_is_ranked(command, target, events.drop_last());
    }
}

/// A session is brief, whatever the proxy sends. The greeting is written
/// once at most and the request once at most, in that order, and nothing
/// else is ever written: there is one round for the method and one for the
/// command. No more than 264 bytes are ever read, and the session has ended
/// after 269 events at the latest.
pub proof fn lemma_run_is_bounded(command: Command, target: AddressView, events: Seq<EventView>)
    requires
        target.wf(),
        admissible(Session::start(command, target), events),
    ensures
        ({
            let sent = written(Session::start(command, target), events);
            let request = Session::start(command, target).request;
            ||| sent == Seq::<u8>::empty()
            ||| sent == Session::greeting()
            ||| sent == Session::greeting() + request.wire()
        }),
        received(events).len() <= 264,
        events.len() <= 5 + received(events).len(),
        events.len() == 269 ==> replay(Session::start(command, target), events).finished(),
{
    lemma_run_is_consistent(command, target, events);
    lemma_run_is_ranked(command, target, events);
    let got = received(events);
    lemma_response_scan_is_bounded(got.skip(2));
    if got.len() > 2 {
        lemma_response_scan_is_bounded(got.skip(2).drop_last());
    }
    if let State::AwaitReply { got: part } = replay(Session::start(command, target), events).state {
        assert(got.skip(2) =~= part);
    }
}

/// A run that is longer by one event: the session takes one step more, and
/// what the event carried and brought is added to what was sent and
/// received.
pub proof fn lemma_run_extends(session: Session, events: Seq<EventView>, event: EventView)
    ensures
        replay(session, events.push(event)) == replay(session, events).step(event),
        admissible(session, events.push(event)) == (admissible(session, events) && replay(
            session,
            events,
        ).accepts(event)),
        received(events.push(event)) == received(events) + brought(event),
        written(session, events.push(event)) == written(session, events) + carried(
            replay(session, events),
            event,
        ),
{
    assert(events.push(event).drop_last() =~= events);
}

} // verus!
