//! The address of a session's target, or of the endpoint that a proxy bound.

use vstd::prelude::*;
use vstd::slice::slice_subrange;
use vstd::slice::slice_to_vec;
use crate::wire::Parse;
use crate::wire::port_of;
use crate::wire::port_wire;
use crate::wire::read_port;
use crate::wire::write_port;

verus! {

pub const SOCKS5_ADDR_TYPE_IPV4: u8 = 0x01;

pub const SOCKS5_ADDR_TYPE_DOMAIN_NAME: u8 = 0x03;

pub const SOCKS5_ADDR_TYPE_IPV6: u8 = 0x04;

/// A domain name as it stands on the wire: its bytes, of which there are 255
/// at most, since one byte in front of them tells their number.
#[derive(Debug, PartialEq, Eq, Hash)]
pub struct DomainName {
    bytes: Vec<u8>,
}

impl View for DomainName {
    type V = Seq<u8>;

    closed spec fn view(&self) -> Seq<u8> {
        self.bytes@
    }
}

impl DomainName {
    /// Every name fits the one byte that tells its length.
    #[verifier::type_invariant]
    pub open spec fn fits(self) -> bool {
        self@.len() <= 255
    }

    /// The name made of `bytes`; `None` where there are more than 255.
    pub fn new(bytes: Vec<u8>) -> (name: Option<DomainName>)
        ensures
            match name {
                Some(name) => name@ == bytes@ && bytes@.len() <= 255,
                None => bytes@.len() > 255,
            },
    {
        if bytes.len() <= 255 {
            Some(DomainName { bytes })
        } else {
            None
        }
    }

    /// The bytes of the name.
    pub fn as_bytes(&self) -> (bytes: &[u8])
        ensures
            bytes@ == self@,
            bytes@.len() <= 255,
    {
        proof {
            use_type_invariant(self);
        }
        self.bytes.as_slice()
    }
}

impl Clone for DomainName {
    /// A copy with the same bytes.
    fn clone(&self) -> (copy: DomainName)
        ensures
            copy@ == self@,
    {
        proof {
            use_type_invariant(self);
        }
        DomainName { bytes: self.bytes.clone() }
    }
}

/// An endpoint: an IPv4 or IPv6 address, or a domain name, with a port.
#[derive(Debug, PartialEq, Eq, Hash)]
pub enum Address {
    /// Four octets and a port.
    Ipv4([u8; 4], u16),
    /// Sixteen octets and a port.
    Ipv6([u8; 16], u16),
    /// A name and a port.
    Domain(DomainName, u16),
}

/// An endpoint as a mathematical value.
pub enum AddressView {
    Ipv4 { octets: Seq<u8>, port: u16 },
    Ipv6 { octets: Seq<u8>, port: u16 },
    Domain { name: Seq<u8>, port: u16 },
}

impl View for Address {
    type V = AddressView;

    open spec fn view(&self) -> AddressView {
        match self {
            Address::Ipv4(octets, port) => AddressView::Ipv4 { octets: octets@, port: *port },
            Address::Ipv6(octets, port) => AddressView::Ipv6 { octets: octets@, port: *port },
            Address::Domain(name, port) => AddressView::Domain { name: name@, port: *port },
        }
    }
}

impl AddressView {
    /// An address can be written when its parts have the lengths that the
    /// wire format gives them: four and sixteen octets, and a name whose
    /// length fits the one byte in front of it.
    pub open spec fn wf(self) -> bool {
        match self {
            AddressView::Ipv4 { octets, .. } => octets.len() == 4,
            AddressView::Ipv6 { octets, .. } => octets.len() == 16,
            AddressView::Domain { name, .. } => name.len() <= 255,
        }
    }

    /// The address on the wire: the type byte, the address (for a name, its
    /// length in one byte and then its bytes), and the port.
    pub open spec fn wire(self) -> Seq<u8> {
        match self {
            AddressView::Ipv4 { octets, port } => seq![SOCKS5_ADDR_TYPE_IPV4] + octets + port_wire(
                port,
            ),
            AddressView::Ipv6 { octets, port } => seq![SOCKS5_ADDR_TYPE_IPV6] + octets + port_wire(
                port,
            ),
            AddressView::Domain { name, port } => seq![
                SOCKS5_ADDR_TYPE_DOMAIN_NAME,
                name.len() as u8,
            ] + name + port_wire(port),
        }
    }

    /// Reads an address from the front of `bytes`. The type byte is judged as
    /// soon as it is there, and the length of a name as soon as it is there.
    pub open spec fn scan(bytes: Seq<u8>) -> Parse<AddressView> {
        if bytes.len() < 1 {
            Parse::Short(1)
        } else if bytes[0] == SOCKS5_ADDR_TYPE_IPV4 {
            if bytes.len() < 7 {
                Parse::Short((7 - bytes.len()) as usize)
            } else {
                Parse::Done(
                    AddressView::Ipv4 {
                        octets: bytes.subrange(1, 5),
                        port: port_of(bytes[5], bytes[6]),
                    },
                    7,
                )
            }
        } else if bytes[0] == SOCKS5_ADDR_TYPE_IPV6 {
            if bytes.len() < 19 {
                Parse::Short((19 - bytes.len()) as usize)
            } else {
                Parse::Done(
                    AddressView::Ipv6 {
                        octets: bytes.subrange(1, 17),
                        port: port_of(bytes[17], bytes[18]),
                    },
                    19,
                )
            }
        } else if bytes[0] == SOCKS5_ADDR_TYPE_DOMAIN_NAME {
            if bytes.len() < 2 {
                Parse::Short(1)
            } else {
                let end = 2 + bytes[1];
                if bytes.len() < end + 2 {
                    Parse::Short((end + 2 - bytes.len()) as usize)
                } else {
                    Parse::Done(
                        AddressView::Domain {
                            name: bytes.subrange(2, end),
                            port: port_of(bytes[end], bytes[end + 1]),
                        },
                        (end + 2) as usize,
                    )
                }
            }
        } else {
            Parse::Malformed
        }
    }
}

impl Clone for Address {
    /// A copy that stands for the same endpoint.
    fn clone(&self) -> (copy: Address)
        ensures
            copy@ == self@,
    {
        match self {
            Address::Ipv4(octets, port) => Address::Ipv4(*octets, *port),
            Address::Ipv6(octets, port) => Address::Ipv6(*octets, *port),
            Address::Domain(name, port) => Address::Domain(name.clone(), *port),
        }
    }
}

impl Address {
    /// The number of bytes that the address takes on the wire. Every address
    /// is one that can be written.
    pub fn serialized_len(&self) -> (len: usize)
        ensures
            len == self@.wire().len(),
            self@.wf(),
    {
        match self {
            Address::Ipv4(..) => 7,
            Address::Ipv6(..) => 19,
            Address::Domain(name, _) => 4 + name.as_bytes().len(),
        }
    }

    /// Appends the address to `buf` as it stands on the wire.
    pub fn write_to_buf(&self, buf: &mut Vec<u8>)
        ensures
            final(buf)@ == old(buf)@ + self@.wire(),
            self@.wf(),
    {
        match self {
            Address::Ipv4(octets, port) => {
                buf.push(SOCKS5_ADDR_TYPE_IPV4);
                buf.extend_from_slice(octets.as_slice());
                write_port(*port, buf);
            },
            Address::Ipv6(octets, port) => {
                buf.push(SOCKS5_ADDR_TYPE_IPV6);
                buf.extend_from_slice(octets.as_slice());
                write_port(*port, buf);
            },
            Address::Domain(name, port) => {
                let bytes = name.as_bytes();
                buf.push(SOCKS5_ADDR_TYPE_DOMAIN_NAME);
                buf.push(bytes.len() as u8);
                buf.extend_from_slice(bytes);
                write_port(*port, buf);
            },
        }
    }

    /// Reads an address from the front of `bytes`.
    pub fn parse(bytes: &[u8]) -> (parsed: Parse<Address>)
        ensures
            parsed@ == AddressView::scan(bytes@),
    {
        if bytes.len() < 1 {
            return Parse::Short(1);
        }
        let kind: u8 = bytes[0];
        if kind == SOCKS5_ADDR_TYPE_IPV4 {
            if bytes.len() < 7 {
                return Parse::Short(7 - bytes.len());
            }
            let octets: [u8; 4] = [bytes[1], bytes[2], bytes[3], bytes[4]];
            assert(octets@ =~= bytes@.subrange(1, 5));
            Parse::Done(Address::Ipv4(octets, read_port(bytes[5], bytes[6])), 7)
        } else if kind == SOCKS5_ADDR_TYPE_IPV6 {
            if bytes.len() < 19 {
                return Parse::Short(19 - bytes.len());
            }
            let octets: [u8; 16] = [
                bytes[1],
                bytes[2],
                bytes[3],
                bytes[4],
                bytes[5],
                bytes[6],
                bytes[7],
                bytes[8],
                bytes[9],
                bytes[10],
                bytes[11],
                bytes[12],
                bytes[13],
                bytes[14],
                bytes[15],
                bytes[16],
            ];
            assert(octets@ =~= bytes@.subrange(1, 17));
            Parse::Done(Address::Ipv6(octets, read_port(bytes[17], bytes[18])), 19)
        } else if kind == SOCKS5_ADDR_TYPE_DOMAIN_NAME {
            if bytes.len() < 2 {
                return Parse::Short(1);
            }
            let end: usize = 2 + bytes[1] as usize;
            if bytes.len() < end + 2 {
                return Parse::Short(end + 2 - bytes.len());
            }
            let name = DomainName { bytes: slice_to_vec(slice_subrange(bytes, 2, end)) };
            Parse::Done(Address::Domain(name, read_port(bytes[end], bytes[end + 1])), end + 2)
        } else {
            Parse::Malformed
        }
    }
}

/// An address that was written is read back as it was, whatever follows it,
/// and the reading takes exactly the bytes that were written.
pub proof fn lemma_address_scan_of_wire(address: AddressView, rest: Seq<u8>)
    requires
        address.wf(),
    ensures
        AddressView::scan(address.wire() + rest) == Parse::Done(
            address,
            address.wire().len() as usize,
        ),
{
    let bytes = address.wire() + rest;
    match address {
        AddressView::Ipv4 { octets, port } => {
            assert(bytes.subrange(1, 5) =~= octets);
        },
        AddressView::Ipv6 { octets, port } => {
            assert(bytes.subrange(1, 17) =~= octets);
        },
        AddressView::Domain { name, port } => {
            assert(bytes.subrange(2, 2 + name.len() as int) =~= name);
        },
    }
}

/// An address that was read is well formed, and it is written as exactly the
/// bytes that it was read from.
pub proof fn lemma_address_wire_of_scan(bytes: Seq<u8>)
    ensures
        AddressView::scan(bytes) matches Parse::Done(address, taken) ==> {
            &&& address.wf()
            &&& taken <= bytes.len()
            &&& address.wire() == bytes.subrange(0, taken as int)
        },
{
    if let Parse::Done(address, taken) = AddressView::scan(bytes) {
        assert(address.wire() =~= bytes.subrange(0, taken as int));
    }
}

/// Where an address is short of bytes, the number that it names is not zero,
/// fewer bytes than that leave it short of the rest, and an address that is
/// read once exactly that many have come ends with the last of them.
pub proof fn lemma_address_scan_short(bytes: Seq<u8>, more: Seq<u8>)
    ensures
        AddressView::scan(bytes) matches Parse::Short(missing) ==> {
            &&& missing > 0
            &&& more.len() < missing ==> AddressView::scan(bytes + more) == Parse::<
                AddressView,
            >::Short((missing - more.len()) as usize)
            &&& more.len() == missing ==> (AddressView::scan(bytes + more) matches Parse::Done(
                _,
                taken,
            ) ==> taken == bytes.len() + missing)
        },
{
}

/// Once an address has been read or refused, bytes that follow change
/// nothing.
pub proof fn lemma_address_scan_settled(bytes: Seq<u8>, more: Seq<u8>)
    ensures
        !(AddressView::scan(bytes) is Short) ==> AddressView::scan(bytes + more)
            == AddressView::scan(bytes),
{
    let longer = bytes + more;
    if let Parse::Done(address, taken) = AddressView::scan(bytes) {
        match address {
            AddressView::Ipv4 { octets, port } => {
                assert(longer.subrange(1, 5) =~= bytes.subrange(1, 5));
            },
            AddressView::Ipv6 { octets, port } => {
                assert(longer.subrange(1, 17) =~= bytes.subrange(1, 17));
            },
            AddressView::Domain { name, port } => {
                let end = 2 + bytes[1] as int;
                assert(longer.subrange(2, end) =~= bytes.subrange(2, end));
            },
        }
    }
}

/// No address takes more than 259 bytes, and one that is short of bytes is so
/// within that length.
pub proof fn lemma_address_scan_is_bounded(bytes: Seq<u8>)
    ensures
        AddressView::scan(bytes) matches Parse::Done(_, taken) ==> taken <= 259,
        AddressView::scan(bytes) matches Parse::Short(missing) ==> bytes.len() + missing <= 259,
{
}

} // verus!
