//! What the messages have in common on the wire: the version byte, the
//! two-byte port, and the result of reading a message from a run of bytes.

use vstd::prelude::*;

verus! {

/// The first byte of every message.
pub const SOCKS5_VERSION: u8 = 0x05;

/// The two bytes of a port, most significant first.
pub open spec fn port_wire(port: u16) -> Seq<u8> {
    seq![(port / 256) as u8, (port % 256) as u8]
}

/// The port that two bytes stand for, most significant first.
pub open spec fn port_of(high: u8, low: u8) -> u16 {
    (high * 256 + low) as u16
}

/// What reading a message from the front of a run of bytes comes to.
#[derive(Debug, PartialEq, Eq)]
pub enum Parse<T> {
    /// The message, and the number of bytes that it took.
    Done(T, usize),
    /// The bytes end inside the message. The number says how many more are
    /// needed before anything further can be decided; it is never zero, and
    /// never reaches past the end of the message.
    Short(usize),
    /// The bytes cannot begin a message.
    Malformed,
}

impl<T: View> View for Parse<T> {
    type V = Parse<T::V>;

    open spec fn view(&self) -> Parse<T::V> {
        match self {
            Parse::Done(value, taken) => Parse::Done(value@, *taken),
            Parse::Short(missing) => Parse::Short(*missing),
            Parse::Malformed => Parse::Malformed,
        }
    }
}

/// Appends the two bytes of `port` to `buf`.
pub fn write_port(port: u16, buf: &mut Vec<u8>)
    ensures
        final(buf)@ == old(buf)@ + port_wire(port),
{
    buf.push((port / 256) as u8);
    buf.push((port % 256) as u8);
}

/// Reads a port from its two bytes.
pub fn read_port(high: u8, low: u8) -> (port: u16)
    ensures
        port == port_of(high, low),
{
    let wide: u16 = high as u16;
    wide * 256 + low as u16
}

/// The two bytes of a port are read back as that port, and the port read
/// from two bytes is written as those bytes.
pub proof fn lemma_port_round_trip(port: u16, high: u8, low: u8)
    ensures
        port_of(port_wire(port)[0], port_wire(port)[1]) == port,
        port_wire(port_of(high, low)) == seq![high, low],
{
}

} // verus!
