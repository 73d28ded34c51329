//! Reply codes: the outcome that a proxy reports for a request.

use vstd::prelude::*;

verus! {

pub const SOCKS5_REPLY_SUCCEEDED: u8 = 0x00;

pub const SOCKS5_REPLY_GENERAL_FAILURE: u8 = 0x01;

pub const SOCKS5_REPLY_CONNECTION_NOT_ALLOWED: u8 = 0x02;

pub const SOCKS5_REPLY_NETWORK_UNREACHABLE: u8 = 0x03;

pub const SOCKS5_REPLY_HOST_UNREACHABLE: u8 = 0x04;

pub const SOCKS5_REPLY_CONNECTION_REFUSED: u8 = 0x05;

pub const SOCKS5_REPLY_TTL_EXPIRED: u8 = 0x06;

pub const SOCKS5_REPLY_COMMAND_NOT_SUPPORTED: u8 = 0x07;

pub const SOCKS5_REPLY_ADDRESS_TYPE_NOT_SUPPORTED: u8 = 0x08;

/// The outcome of a request, as the proxy reports it. Only `Succeeded` lets a
/// session go on; every other value ends it.
#[derive(Clone, Copy, Debug, PartialEq, Eq, Structural)]
pub enum Reply {
    Succeeded,
    GeneralFailure,
    ConnectionNotAllowed,
    NetworkUnreachable,
    HostUnreachable,
    ConnectionRefused,
    TtlExpired,
    CommandNotSupported,
    AddressTypeNotSupported,
    /// A code that the protocol reserves or leaves unassigned.
    OtherReply(u8),
}

impl Reply {
    /// The byte that stands for this reply on the wire.
    pub open spec fn code(self) -> u8 {
        match self {
            Reply::Succeeded => SOCKS5_REPLY_SUCCEEDED,
            Reply::GeneralFailure => SOCKS5_REPLY_GENERAL_FAILURE,
            Reply::ConnectionNotAllowed => SOCKS5_REPLY_CONNECTION_NOT_ALLOWED,
            Reply::NetworkUnreachable => SOCKS5_REPLY_NETWORK_UNREACHABLE,
            Reply::HostUnreachable => SOCKS5_REPLY_HOST_UNREACHABLE,
            Reply::ConnectionRefused => SOCKS5_REPLY_CONNECTION_REFUSED,
            Reply::TtlExpired => SOCKS5_REPLY_TTL_EXPIRED,
            Reply::CommandNotSupported => SOCKS5_REPLY_COMMAND_NOT_SUPPORTED,
            Reply::AddressTypeNotSupported => SOCKS5_REPLY_ADDRESS_TYPE_NOT_SUPPORTED,
            Reply::OtherReply(c) => c,
        }
    }

    /// The reply that a byte on the wire stands for: the assigned codes map
    /// to their variants, every other byte is kept in `OtherReply`.
    pub open spec fn of_code(code: u8) -> Reply {
        if code == SOCKS5_REPLY_SUCCEEDED {
            Reply::Succeeded
        } else if code == SOCKS5_REPLY_GENERAL_FAILURE {
            Reply::GeneralFailure
        } else if code == SOCKS5_REPLY_CONNECTION_NOT_ALLOWED {
            Reply::ConnectionNotAllowed
        } else if code == SOCKS5_REPLY_NETWORK_UNREACHABLE {
            Reply::NetworkUnreachable
        } else if code == SOCKS5_REPLY_HOST_UNREACHABLE {
            Reply::HostUnreachable
        } else if code == SOCKS5_REPLY_CONNECTION_REFUSED {
            Reply::ConnectionRefused
        } else if code == SOCKS5_REPLY_TTL_EXPIRED {
            Reply::TtlExpired
        } else if code == SOCKS5_REPLY_COMMAND_NOT_SUPPORTED {
            Reply::CommandNotSupported
        } else if code == SOCKS5_REPLY_ADDRESS_TYPE_NOT_SUPPORTED {
            Reply::AddressTypeNotSupported
        } else {
            Reply::OtherReply(code)
        }
    }

    /// A reply is canonical when an assigned code is not hidden in
    /// `OtherReply`. Every reply read from the wire is canonical.
    pub open spec fn canonical(self) -> bool {
        self matches Reply::OtherReply(c) ==> c > SOCKS5_REPLY_ADDRESS_TYPE_NOT_SUPPORTED
    }

    /// The byte that stands for this reply on the wire.
    pub fn as_u8(self) -> (code: u8)
        ensures
            code == self.code(),
    {
        match self {
            Reply::Succeeded => SOCKS5_REPLY_SUCCEEDED,
            Reply::GeneralFailure => SOCKS5_REPLY_GENERAL_FAILURE,
            Reply::ConnectionNotAllowed => SOCKS5_REPLY_CONNECTION_NOT_ALLOWED,
            Reply::NetworkUnreachable => SOCKS5_REPLY_NETWORK_UNREACHABLE,
            Reply::HostUnreachable => SOCKS5_REPLY_HOST_UNREACHABLE,
            Reply::ConnectionRefused => SOCKS5_REPLY_CONNECTION_REFUSED,
            Reply::TtlExpired => SOCKS5_REPLY_TTL_EXPIRED,
            Reply::CommandNotSupported => SOCKS5_REPLY_COMMAND_NOT_SUPPORTED,
            Reply::AddressTypeNotSupported => SOCKS5_REPLY_ADDRESS_TYPE_NOT_SUPPORTED,
            Reply::OtherReply(c) => c,
        }
    }

    /// The reply that `code` stands for.
    pub fn from_u8(code: u8) -> (reply: Reply)
        ensures
            reply == Reply::of_code(code),
    {
        match code {
            SOCKS5_REPLY_SUCCEEDED => Reply::Succeeded,
            SOCKS5_REPLY_GENERAL_FAILURE => Reply::GeneralFailure,
            SOCKS5_REPLY_CONNECTION_NOT_ALLOWED => Reply::ConnectionNotAllowed,
            SOCKS5_REPLY_NETWORK_UNREACHABLE => Reply::NetworkUnreachable,
            SOCKS5_REPLY_HOST_UNREACHABLE => Reply::HostUnreachable,
            SOCKS5_REPLY_CONNECTION_REFUSED => Reply::ConnectionRefused,
            SOCKS5_REPLY_TTL_EXPIRED => Reply::TtlExpired,
            SOCKS5_REPLY_COMMAND_NOT_SUPPORTED => Reply::CommandNotSupported,
            SOCKS5_REPLY_ADDRESS_TYPE_NOT_SUPPORTED => Reply::AddressTypeNotSupported,
            _ => Reply::OtherReply(code),
        }
    }

    /// Whether the request was granted.
    pub fn is_succeeded(self) -> (yes: bool)
        ensures
            yes == (self == Reply::Succeeded),
    {
        match self {
            Reply::Succeeded => true,
            _ => false,
        }
    }

    /// Reading a reply's code back gives the reply, and every byte is the
    /// code of the reply it is read as.
    pub proof fn lemma_code_round_trip(reply: Reply, code: u8)
        ensures
            Reply::of_code(code).code() == code,
            Reply::of_code(code).canonical(),
            reply.canonical() ==> Reply::of_code(reply.code()) == reply,
    {
    }
}

} // verus!
