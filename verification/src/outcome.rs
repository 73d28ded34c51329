//! What the proxy's answers lead to: the outcome of every run in which the
//! proxy agrees or declines, accepts or rejects, or falls silent.

use vstd::prelude::*;
use crate::address::AddressView;
use crate::error::ProtocolError;
use crate::message::lemma_response_scan_of_part;
use crate::message::lemma_response_scan_of_wire;
use crate::message::lemma_response_scan_short;
use crate::message::lemma_response_wire_of_scan;
use crate::message::Command;
use crate::message::HandshakeResponse;
use crate::message::TcpResponseHeaderView;
use crate::message::SOCKS5_AUTH_METHOD_NONE;
use crate::reply::Reply;
use crate::session::EventView;
use crate::session::Session;
use crate::session::State;
use crate::trace::admissible;
use crate::trace::agreement;
use crate::trace::lemma_run_extends;
use crate::trace::lemma_run_is_consistent;
use crate::trace::received;
use crate::trace::replay;
use crate::trace::unclosed;
use crate::trace::undisturbed;
use crate::trace::written;
use crate::wire::SOCKS5_VERSION;

verus! {

/// A session that has ended accepts no event: nothing more is written to the
/// transport or read from it on the session's account.
pub proof fn lemma_finished_accepts_nothing(session: Session, event: EventView)
    requires
        session.finished(),
    ensures
        !session.accepts(event),
        session.step(event) == session,
{
}

/// Where the proxy's bytes are its agreement to go without authentication
/// and a response with `Succeeded`, the session is established with the
/// endpoint of the response, whichever kind of address the target and the
/// endpoint are and in whatever pieces the bytes arrived. What was written is
/// the greeting and then the request, each as its layout has it, and nothing
/// else.
pub proof fn lemma_succeeded_response_establishes(
    command: Command,
    target: AddressView,
    response: TcpResponseHeaderView,
    events: Seq<EventView>,
)
    requires
        target.wf(),
        response.wf(),
        response.reply == Reply::Succeeded,
        admissible(Session::start(command, target), events),
        received(events) == agreement() + response.wire(),
    ensures
        replay(Session::start(command, target), events).state == (State::Established {
            bound: response.address,
        }),
        written(Session::start(command, target), events) == Session::greeting() + Session::start(
            command,
            target,
        ).request.wire(),
{
    lemma_run_is_consistent(command, target, events);
    lemma_response_scan_of_wire(response, Seq::empty());
    let got = received(events);
    assert(response.wire() + Seq::<u8>::empty() =~= response.wire());
    assert(got.skip(2) =~= response.wire());
    assert(got[1] == SOCKS5_AUTH_METHOD_NONE);
    if let State::AwaitReply { got: part } = replay(Session::start(command, target), events).state {
        assert(part =~= got.skip(2));
    }
}

/// Where the proxy chooses any method but "no authentication", the session
/// fails with `UnsupportedAuthMethod`. Only the greeting was written, no byte
/// of the request, and nothing was read after the proxy's choice.
pub proof fn lemma_other_method_fails(
    command: Command,
    target: AddressView,
    method: u8,
    events: Seq<EventView>,
)
    requires
        target.wf(),
        method != SOCKS5_AUTH_METHOD_NONE,
        admissible(Session::start(command, target), events),
        received(events).len() >= 2,
        received(events)[0] == SOCKS5_VERSION,
        received(events)[1] == method,
    ensures
        replay(Session::start(command, target), events).state == (State::Failed {
            error: ProtocolError::UnsupportedAuthMethod,
        }),
        written(Session::start(command, target), events) == Session::greeting(),
        received(events) == (HandshakeResponse { chosen_method: method }).wire(),
{
    lemma_run_is_consistent(command, target, events);
    let got = received(events);
    assert(got.subrange(0, 2)[1] == got[1]);
    if got.len() == 2 {
        assert(got =~= (HandshakeResponse { chosen_method: method }).wire());
    }
}

/// Where the proxy answers the request with any reply but `Succeeded`, the
/// session fails with `ProxyRejected` and that very reply, and from then on
/// accepts no event: nothing more is read or written.
pub proof fn lemma_rejection_is_reported(
    command: Command,
    target: AddressView,
    response: TcpResponseHeaderView,
    events: Seq<EventView>,
)
    requires
        target.wf(),
        response.wf(),
        response.reply != Reply::Succeeded,
        admissible(Session::start(command, target), events),
        received(events) == agreement() + response.wire(),
    ensures
        replay(Session::start(command, target), events).state == (State::Failed {
            error: ProtocolError::ProxyRejected(response.reply),
        }),
        forall|event: EventView| !replay(Session::start(command, target), events).accepts(event),
{
    lemma_run_is_consistent(command, target, events);
    lemma_response_scan_of_wire(response, Seq::empty());
    let got = received(events);
    assert(response.wire() + Seq::<u8>::empty() =~= response.wire());
    assert(got.skip(2) =~= response.wire());
    assert(got[1] == SOCKS5_AUTH_METHOD_NONE);
    if let State::AwaitReply { got: part } = replay(Session::start(command, target), events).state {
        assert(part =~= got.skip(2));
    }
}

/// The end of the stream is accepted exactly while an answer is being read,
/// and it fails the session with `UnexpectedEof`.
pub proof fn lemma_closed_is_unexpected_eof(session: Session)
    ensures
        session.accepts(EventView::Closed) <==> session.action() is Read,
        session.accepts(EventView::Closed) ==> session.step(EventView::Closed).state == (
        State::Failed { error: ProtocolError::UnexpectedEof }),
{
}

/// Where the proxy has sent a part of its response and no more, and the
/// transport has neither failed nor ended, the session waits for the rest; if
/// the stream ends there, the session fails with `UnexpectedEof`.
pub proof fn lemma_partial_response_then_closed(
    command: Command,
    target: AddressView,
    response: TcpResponseHeaderView,
    part: Seq<u8>,
    events: Seq<EventView>,
)
    requires
        target.wf(),
        response.wf(),
        0 < part.len() < response.wire().len(),
        part == response.wire().subrange(0, part.len() as int),
        admissible(Session::start(command, target), events),
        undisturbed(events),
        unclosed(events),
        received(events) == agreement() + part,
    ensures
        replay(Session::start(command, target), events).state == (State::AwaitReply { got: part }),
        admissible(Session::start(command, target), events.push(EventView::Closed)),
        replay(Session::start(command, target), events.push(EventView::Closed)).state == (
        State::Failed { error: ProtocolError::UnexpectedEof }),
{
    let start = Session::start(command, target);
    let last = replay(start, events);
    lemma_run_is_consistent(command, target, events);
    lemma_response_scan_of_part(response, part);
    let got = received(events);
    assert(got.skip(2) =~= part);
    assert(got[0] == SOCKS5_VERSION);
    assert(got[1] == SOCKS5_AUTH_METHOD_NONE);
    assert(last.state == (State::AwaitReply { got: part })) by {
        if let State::AwaitReply { got: other } = last.state {
            assert(other =~= got.skip(2));
        }
    }
    lemma_response_scan_short(part, Seq::empty());
    assert(events.push(EventView::Closed).drop_last() =~= events);
}

/// Where the proxy has sent one byte of its choice of method and no more, and
/// the transport has neither failed nor ended, the session waits for the
/// other; if the stream ends there, the session fails with `UnexpectedEof`.
pub proof fn lemma_partial_choice_then_closed(
    command: Command,
    target: AddressView,
    first: u8,
    events: Seq<EventView>,
)
    requires
        target.wf(),
        admissible(Session::start(command, target), events),
        undisturbed(events),
        unclosed(events),
        received(events) == seq![first],
    ensures
        replay(Session::start(command, target), events).state == (State::AwaitMethod {
            got: seq![first],
        }),
        admissible(Session::start(command, target), events.push(EventView::Closed)),
        replay(Session::start(command, target), events.push(EventView::Closed)).state == (
        State::Failed { error: ProtocolError::UnexpectedEof }),
{
    lemma_run_is_consistent(command, target, events);
    assert(events.push(EventView::Closed).drop_last() =~= events);
}

/// The endpoint of an established session is the one that the proxy named:
/// written out, it is byte for byte what stood in the response behind the
/// version, the reply and the reserved byte.
pub proof fn lemma_bound_address_is_exact(
    command: Command,
    target: AddressView,
    events: Seq<EventView>,
)
    requires
        target.wf(),
        admissible(Session::start(command, target), events),
    ensures
        replay(Session::start(command, target), events).state matches State::Established {
            bound,
        } ==> received(events).len() >= 5 && bound.wire() == received(events).skip(5),
{
    lemma_run_is_consistent(command, target, events);
    let got = received(events);
    if let State::Established { bound } = replay(Session::start(command, target), events).state {
        lemma_response_wire_of_scan(got.skip(2));
        assert(got.skip(2).subrange(3, got.len() - 2) =~= got.skip(5));
    }
}

/// The run in which the proxy agrees and then sends `response`, and every
/// byte of the response arrives alone.
pub open spec fn bytewise_run(response: Seq<u8>) -> Seq<EventView> {
    seq![
        EventView::Written,
        EventView::Flushed,
        EventView::Received(agreement()),
        EventView::Written,
        EventView::Flushed,
    ] + Seq::new(response.len(), |i: int| EventView::Received(seq![response[i]]))
}

proof fn lemma_bytewise_run_begins(command: Command, target: AddressView)
    requires
        target.wf(),
    ensures
        admissible(Session::start(command, target), bytewise_run(Seq::empty())),
        received(bytewise_run(Seq::empty())) == agreement(),
        replay(Session::start(command, target), bytewise_run(Seq::empty())).state == (
        State::AwaitReply { got: Seq::empty() }),
{
    let start = Session::start(command, target);
    let e0 = Seq::<EventView>::empty();
    let e1 = e0.push(EventView::Written);
    let e2 = e1.push(EventView::Flushed);
    let e3 = e2.push(EventView::Received(agreement()));
    let e4 = e3.push(EventView::Written);
    let e5 = e4.push(EventView::Flushed);
    lemma_run_extends(start, e0, EventView::Written);
    lemma_run_extends(start, e1, EventView::Flushed);
    lemma_run_extends(start, e2, EventView::Received(agreement()));
    lemma_run_extends(start, e3, EventView::Written);
    lemma_run_extends(start, e4, EventView::Flushed);
    assert(replay(start, e1).state == State::FlushGreeting);
    assert(replay(start, e2).state == (State::AwaitMethod { got: Seq::empty() }));
    assert(Seq::<u8>::empty() + agreement() =~= agreement());
    assert(replay(start, e3).state == State::SendRequest);
    assert(replay(start, e4).state == State::FlushRequest);
    assert(received(e5) =~= agreement());
    assert(bytewise_run(Seq::empty()) =~= e5);
}

proof fn lemma_bytewise_run_grows(bytes: Seq<u8>, byte: u8)
    ensures
        bytewise_run(bytes.push(byte)) == bytewise_run(bytes).push(
            EventView::Received(seq![byte]),
        ),
{
    assert(bytewise_run(bytes.push(byte)) =~= bytewise_run(bytes).push(
        EventView::Received(seq![byte]),
    ));
}

proof fn lemma_one_byte_more(session: Session, response: TcpResponseHeaderView, count: nat)
    requires
        response.wf(),
        count < response.wire().len(),
        session.state == (State::AwaitReply { got: response.wire().subrange(0, count as int) }),
    ensures
        session.accepts(EventView::Received(seq![response.wire()[count as int]])),
        session.step(EventView::Received(seq![response.wire()[count as int]])).state
            == Session::reply_received(response.wire().subrange(0, count as int + 1)),
        count + 1 < response.wire().len() ==> Session::reply_received(
            response.wire().subrange(0, count as int + 1),
        ) == (State::AwaitReply { got: response.wire().subrange(0, count as int + 1) }),
{
    let part = response.wire().subrange(0, count as int);
    let byte = seq![response.wire()[count as int]];
    lemma_response_scan_of_part(response, part);
    lemma_response_scan_short(part, Seq::empty());
    assert(part + byte =~= response.wire().subrange(0, count as int + 1));
    if count + 1 < response.wire().len() {
        lemma_response_scan_of_part(response, response.wire().subrange(0, count as int + 1));
    }
}

proof fn lemma_bytewise_run_awaits(
    command: Command,
    target: AddressView,
    response: TcpResponseHeaderView,
    count: nat,
)
    requires
        target.wf(),
        response.wf(),
        count < response.wire().len(),
    ensures
        admissible(
            Session::start(command, target),
            bytewise_run(response.wire().subrange(0, count as int)),
        ),
        received(bytewise_run(response.wire().subrange(0, count as int))) == agreement()
            + response.wire().subrange(0, count as int),
        replay(
            Session::start(command, target),
            bytewise_run(response.wire().subrange(0, count as int)),
        ).state == (State::AwaitReply { got: response.wire().subrange(0, count as int) }),
    decreases count,
{
    let start = Session::start(command, target);
    let part = response.wire().subrange(0, count as int);
    if count == 0 {
        lemma_bytewise_run_begins(command, target);
        assert(part =~= Seq::<u8>::empty());
        assert(agreement() + part =~= agreement());
    } else {
        let shorter = response.wire().subrange(0, count - 1);
        let byte = response.wire()[count - 1];
        let before = replay(start, bytewise_run(shorter));
        lemma_bytewise_run_awaits(command, target, response, (count - 1) as nat);
        lemma_one_byte_more(before, response, (count - 1) as nat);
        lemma_run_extends(start, bytewise_run(shorter), EventView::Received(seq![byte]));
        lemma_bytewise_run_grows(shorter, byte);
        assert(shorter.push(byte) =~= part);
        assert(agreement() + shorter + seq![byte] =~= agreement() + part);
    }
}

/// The hypotheses of the laws on whole answers can be met: whatever the
/// target and the response, the run in which every byte of the response
/// arrives alone is one that the session accepts, and in it the session
/// receives the agreement and the response, no more and no less.
pub proof fn lemma_bytewise_run_is_admissible(
    command: Command,
    target: AddressView,
    response: TcpResponseHeaderView,
)
    requires
        target.wf(),
        response.wf(),
    ensures
        admissible(Session::start(command, target), bytewise_run(response.wire())),
        received(bytewise_run(response.wire())) == agreement() + response.wire(),
{
    let start = Session::start(command, target);
    let whole = response.wire();
    let count = (whole.len() - 1) as nat;
    let shorter = whole.subrange(0, count as int);
    let byte = whole[count as int];
    let before = replay(start, bytewise_run(shorter));
    lemma_bytewise_run_awaits(command, target, response, count);
    lemma_one_byte_more(before, response, count);
    lemma_run_extends(start, bytewise_run(shorter), EventView::Received(seq![byte]));
    lemma_bytewise_run_grows(shorter, byte);
    assert(shorter.push(byte) =~= whole);
    assert(agreement() + shorter + seq![byte] =~= agreement() + whole);
}

} // verus!
