//! How a session can fail.

use vstd::prelude::*;
use crate::reply::Reply;

verus! {

/// The reason for which a session ended without a usable stream. Each one
/// ends the session at once; nothing is tried again.
#[derive(Clone, Copy, Debug, PartialEq, Eq, Structural)]
pub enum ProtocolError {
    /// The transport failed under a write, a flush or a read.
    TransportError,
    /// The stream ended before a message was complete.
    UnexpectedEof,
    /// The bytes received do not make up a message.
    MalformedMessage,
    /// The proxy chose a method of authentication that was not offered.
    UnsupportedAuthMethod,
    /// The proxy answered the request with a reply other than `Succeeded`.
    ProxyRejected(Reply),
}

} // verus!
