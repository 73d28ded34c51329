//! The four messages of a session: the client's greeting and the proxy's
//! choice of method, then the client's request and the proxy's response.

use vstd::prelude::*;
use vstd::slice::slice_subrange;
use crate::address::lemma_address_scan_settled;
use crate::address::lemma_address_scan_short;
use crate::address::lemma_address_scan_is_bounded;
use crate::address::lemma_address_scan_of_wire;
use crate::address::lemma_address_wire_of_scan;
use crate::address::Address;
use crate::address::AddressView;
use crate::reply::Reply;
use crate::wire::Parse;
use crate::wire::SOCKS5_VERSION;

verus! {

/// The method code for a session without authentication.
pub const SOCKS5_AUTH_METHOD_NONE: u8 = 0x00;

pub const SOCKS5_CMD_TCP_CONNECT: u8 = 0x01;

pub const SOCKS5_CMD_UDP_ASSOCIATE: u8 = 0x03;

/// What the client asks the proxy to do for the target.
#[derive(Clone, Copy, Debug, PartialEq, Eq, Structural)]
pub enum Command {
    /// Open a stream to the target.
    TcpConnect,
    /// Set up a relay for datagrams.
    UdpAssociate,
}

impl Command {
    /// The byte that stands for this command on the wire.
    pub open spec fn code(self) -> u8 {
        match self {
            Command::TcpConnect => SOCKS5_CMD_TCP_CONNECT,
            Command::UdpAssociate => SOCKS5_CMD_UDP_ASSOCIATE,
        }
    }

    /// The byte that stands for this command on the wire.
    pub fn as_u8(self) -> (code: u8)
        ensures
            code == self.code(),
    {
        match self {
            Command::TcpConnect => SOCKS5_CMD_TCP_CONNECT,
            Command::UdpAssociate => SOCKS5_CMD_UDP_ASSOCIATE,
        }
    }
}

/// The client's greeting: the authentication methods that it offers, in the
/// order of its preference. There are 255 of them at most, since one byte in
/// front of them tells their number.
#[derive(Debug, PartialEq, Eq)]
pub struct HandshakeRequest {
    methods: Vec<u8>,
}

/// A greeting as a mathematical value.
pub struct HandshakeRequestView {
    pub methods: Seq<u8>,
}

impl View for HandshakeRequest {
    type V = HandshakeRequestView;

    closed spec fn view(&self) -> HandshakeRequestView {
        HandshakeRequestView { methods: self.methods@ }
    }
}

impl HandshakeRequestView {
    /// The number of methods has to fit the one byte in front of them.
    pub open spec fn wf(self) -> bool {
        self.methods.len() <= 255
    }

    /// The greeting on the wire: the version, the number of methods, and one
    /// byte for each method.
    pub open spec fn wire(self) -> Seq<u8> {
        seq![SOCKS5_VERSION, self.methods.len() as u8] + self.methods
    }
}

impl HandshakeRequest {
    /// Every greeting is one that can be written.
    #[verifier::type_invariant]
    pub open spec fn fits(self) -> bool {
        self@.wf()
    }

    /// The greeting that offers `methods`; `None` where there are more than
    /// 255.
    pub fn new(methods: Vec<u8>) -> (request: Option<HandshakeRequest>)
        ensures
            match request {
                Some(request) => request@.methods == methods@ && methods@.len() <= 255,
                None => methods@.len() > 255,
            },
    {
        if methods.len() <= 255 {
            Some(HandshakeRequest { methods })
        } else {
            None
        }
    }

    /// The methods that the greeting offers.
    pub fn methods(&self) -> (methods: &[u8])
        ensures
            methods@ == self@.methods,
            self@.wf(),
    {
        proof {
            use_type_invariant(self);
        }
        self.methods.as_slice()
    }

    /// Appends the greeting to `buf` as it stands on the wire.
    pub fn write_to_buf(&self, buf: &mut Vec<u8>)
        ensures
            final(buf)@ == old(buf)@ + self@.wire(),
            self@.wf(),
    {
        let methods = self.methods();
        buf.push(SOCKS5_VERSION);
        buf.push(methods.len() as u8);
        buf.extend_from_slice(methods);
    }
}

/// The proxy's answer to the greeting: the one method that it chose.
#[derive(Clone, Copy, Debug, PartialEq, Eq, Structural)]
pub struct HandshakeResponse {
    pub chosen_method: u8,
}

impl View for HandshakeResponse {
    type V = HandshakeResponse;

    open spec fn view(&self) -> HandshakeResponse {
        *self
    }
}

impl HandshakeResponse {
    /// The answer on the wire: the version and the chosen method.
    pub open spec fn wire(self) -> Seq<u8> {
        seq![SOCKS5_VERSION, self.chosen_method]
    }

    /// Reads an answer from the front of `bytes`. Its two bytes are judged
    /// together: until both are there it is short, whatever the first holds.
    /// Every byte is a method, so only a wrong version is refused.
    pub open spec fn scan(bytes: Seq<u8>) -> Parse<HandshakeResponse> {
        if bytes.len() < 2 {
            Parse::Short((2 - bytes.len()) as usize)
        } else if bytes[0] != SOCKS5_VERSION {
            Parse::Malformed
        } else {
            Parse::Done(HandshakeResponse { chosen_method: bytes[1] }, 2)
        }
    }

    /// The answer that chooses `chosen_method`.
    pub fn new(chosen_method: u8) -> (response: HandshakeResponse)
        ensures
            response.chosen_method == chosen_method,
    {
        HandshakeResponse { chosen_method }
    }

    /// Reads an answer from the front of `bytes`.
    pub fn parse(bytes: &[u8]) -> (parsed: Parse<HandshakeResponse>)
        ensures
            parsed@ == HandshakeResponse::scan(bytes@),
    {
        if bytes.len() < 2 {
            Parse::Short(2 - bytes.len())
        } else if bytes[0] != SOCKS5_VERSION {
            Parse::Malformed
        } else {
            Parse::Done(HandshakeResponse { chosen_method: bytes[1] }, 2)
        }
    }
}

/// The client's request: a command and the target that it is for.
#[derive(Debug, PartialEq, Eq)]
pub struct TcpRequestHeader {
    pub command: Command,
    pub address: Address,
}

/// A request as a mathematical value.
pub struct TcpRequestHeaderView {
    pub command: Command,
    pub address: AddressView,
}

impl View for TcpRequestHeader {
    type V = TcpRequestHeaderView;

    open spec fn view(&self) -> TcpRequestHeaderView {
        TcpRequestHeaderView { command: self.command, address: self.address@ }
    }
}

impl TcpRequestHeaderView {
    /// A request can be written when its address can.
    pub open spec fn wf(self) -> bool {
        self.address.wf()
    }

    /// The request on the wire: the version, the command, a reserved byte
    /// that is zero, and the address.
    pub open spec fn wire(self) -> Seq<u8> {
        seq![SOCKS5_VERSION, self.command.code(), 0u8] + self.address.wire()
    }
}

impl TcpRequestHeader {
    /// The request that places `command` for `address`.
    pub fn new(command: Command, address: Address) -> (request: TcpRequestHeader)
        ensures
            request@ == (TcpRequestHeaderView { command, address: address@ }),
    {
        TcpRequestHeader { command, address }
    }

    /// Appends the request to `buf` as it stands on the wire.
    pub fn write_to_buf(&self, buf: &mut Vec<u8>)
        ensures
            final(buf)@ == old(buf)@ + self@.wire(),
            self@.wf(),
    {
        buf.push(SOCKS5_VERSION);
        buf.push(self.command.as_u8());
        buf.push(0);
        self.address.write_to_buf(buf);
    }
}

/// The proxy's response: how the request fared, and the endpoint that the
/// proxy bound for it.
#[derive(Debug, PartialEq, Eq)]
pub struct TcpResponseHeader {
    pub reply: Reply,
    pub address: Address,
}

/// A response as a mathematical value.
pub struct TcpResponseHeaderView {
    pub reply: Reply,
    pub address: AddressView,
}

impl View for TcpResponseHeader {
    type V = TcpResponseHeaderView;

    open spec fn view(&self) -> TcpResponseHeaderView {
        TcpResponseHeaderView { reply: self.reply, address: self.address@ }
    }
}

impl TcpResponseHeaderView {
    /// A response is well formed when its reply is canonical and its address
    /// can be written.
    pub open spec fn wf(self) -> bool {
        self.reply.canonical() && self.address.wf()
    }

    /// The response on the wire: the version, the reply code, a reserved
    /// byte, and the bound address. A proxy writes zero for the reserved byte.
    pub open spec fn wire(self) -> Seq<u8> {
        seq![SOCKS5_VERSION, self.reply.code(), 0u8] + self.address.wire()
    }

    /// Reads a response from the front of `bytes`. The first three bytes are
    /// judged together, then the address. The reply code is not judged here:
    /// every byte is a reply. The reserved byte is passed over.
    pub open spec fn scan(bytes: Seq<u8>) -> Parse<TcpResponseHeaderView> {
        if bytes.len() < 3 {
            Parse::Short((3 - bytes.len()) as usize)
        } else if bytes[0] != SOCKS5_VERSION {
            Parse::Malformed
        } else {
            match AddressView::scan(bytes.skip(3)) {
                Parse::Done(address, taken) => Parse::Done(
                    TcpResponseHeaderView { reply: Reply::of_code(bytes[1]), address },
                    (3 + taken) as usize,
                ),
                Parse::Short(missing) => Parse::Short(missing),
                Parse::Malformed => Parse::Malformed,
            }
        }
    }
}

impl TcpResponseHeader {
    /// The response that reports `reply` and names `address`.
    pub fn new(reply: Reply, address: Address) -> (response: TcpResponseHeader)
        ensures
            response@ == (TcpResponseHeaderView { reply, address: address@ }),
    {
        TcpResponseHeader { reply, address }
    }

    /// Reads a response from the front of `bytes`.
    pub fn parse(bytes: &[u8]) -> (parsed: Parse<TcpResponseHeader>)
        ensures
            parsed@ == TcpResponseHeaderView::scan(bytes@),
    {
        if bytes.len() < 3 {
            return Parse::Short(3 - bytes.len());
        }
        if bytes[0] != SOCKS5_VERSION {
            return Parse::Malformed;
        }
        let reply = Reply::from_u8(bytes[1]);
        proof {
            lemma_address_wire_of_scan(bytes@.skip(3));
        }
        match Address::parse(slice_subrange(bytes, 3, bytes.len())) {
            Parse::Done(address, taken) => Parse::Done(
                TcpResponseHeader { reply, address },
                3 + taken,
            ),
            Parse::Short(missing) => Parse::Short(missing),
            Parse::Malformed => Parse::Malformed,
        }
    }
}

/// A response that was written is read back as it was, whatever follows it,
/// and the reading takes exactly the bytes that were written.
pub proof fn lemma_response_scan_of_wire(response: TcpResponseHeaderView, rest: Seq<u8>)
    requires
        response.wf(),
    ensures
        TcpResponseHeaderView::scan(response.wire() + rest) == Parse::Done(
            response,
            response.wire().len() as usize,
        ),
{
    let bytes = response.wire() + rest;
    assert(bytes.skip(3) =~= response.address.wire() + rest);
    lemma_address_scan_of_wire(response.address, rest);
    Reply::lemma_code_round_trip(response.reply, 0);
}

/// A response that was read is well formed. Its address is written as
/// exactly the bytes that it was read from, and so is the whole response but
/// for the reserved byte, which is written as zero.
pub proof fn lemma_response_wire_of_scan(bytes: Seq<u8>)
    ensures
        TcpResponseHeaderView::scan(bytes) matches Parse::Done(response, taken) ==> {
            &&& response.wf()
            &&& 3 <= taken <= bytes.len()
            &&& response.address.wire() == bytes.subrange(3, taken as int)
            &&& response.wire() == bytes.subrange(0, taken as int).update(2, 0u8)
        },
{
    if let Parse::Done(response, taken) = TcpResponseHeaderView::scan(bytes) {
        lemma_address_wire_of_scan(bytes.skip(3));
        Reply::lemma_code_round_trip(response.reply, bytes[1]);
        assert(bytes.skip(3).subrange(0, taken - 3) =~= bytes.subrange(3, taken as int));
        assert(response.wire() =~= bytes.subrange(0, taken as int).update(2, 0u8));
    }
}

/// Where a response is short of bytes, the number that it names is not zero,
/// fewer bytes than that leave it short of the rest, and a response that is
/// read once exactly that many have come ends with the last of them.
pub proof fn lemma_response_scan_short(bytes: Seq<u8>, more: Seq<u8>)
    ensures
        TcpResponseHeaderView::scan(bytes) matches Parse::Short(missing) ==> {
            &&& missing > 0
            &&& more.len() < missing ==> TcpResponseHeaderView::scan(bytes + more) == Parse::<
                TcpResponseHeaderView,
            >::Short((missing - more.len()) as usize)
            &&& more.len() == missing ==> (TcpResponseHeaderView::scan(
                bytes + more,
            ) matches Parse::Done(_, taken) ==> taken == bytes.len() + missing)
        },
{
    if bytes.len() >= 3 {
        lemma_address_scan_short(bytes.skip(3), more);
        assert((bytes + more).skip(3) =~= bytes.skip(3) + more);
    }
}

/// Once a response has been read or refused, bytes that follow change
/// nothing.
pub proof fn lemma_response_scan_settled(bytes: Seq<u8>, more: Seq<u8>)
    ensures
        !(TcpResponseHeaderView::scan(bytes) is Short) ==> TcpResponseHeaderView::scan(
            bytes + more,
        ) == TcpResponseHeaderView::scan(bytes),
{
    if bytes.len() >= 3 {
        lemma_address_scan_settled(bytes.skip(3), more);
        assert((bytes + more).skip(3) =~= bytes.skip(3) + more);
    }
}

/// A part of a response, cut off before its end, is short of bytes: it is not
/// yet a response, and not refused either.
pub proof fn lemma_response_scan_of_part(response: TcpResponseHeaderView, part: Seq<u8>)
    requires
        response.wf(),
        part.len() < response.wire().len(),
        part == response.wire().subrange(0, part.len() as int),
    ensures
        TcpResponseHeaderView::scan(part) is Short,
{
    let whole = response.wire();
    let rest = whole.subrange(part.len() as int, whole.len() as int);
    assert(part + rest =~= whole);
    assert(whole + Seq::<u8>::empty() =~= whole);
    lemma_response_scan_of_wire(response, Seq::empty());
    lemma_response_scan_settled(part, rest);
    lemma_response_wire_of_scan(part);
}

/// No response takes more than 262 bytes, and one that is short of bytes is
/// so within that length.
pub proof fn lemma_response_scan_is_bounded(bytes: Seq<u8>)
    ensures
        TcpResponseHeaderView::scan(bytes) matches Parse::Done(_, taken) ==> taken <= 262,
        TcpResponseHeaderView::scan(bytes) matches Parse::Short(missing) ==> bytes.len() + missing
            <= 262,
{
    if bytes.len() >= 3 {
        lemma_address_scan_is_bounded(bytes.skip(3));
    }
}

} // verus!
