//! The client side of a SOCKS5 session, written without any I/O of its own.
//!
//! The crate holds the wire format of the four messages that a client
//! exchanges with a proxy, and the session itself as a state machine: the
//! session says what its driver must do next with the transport (write these
//! bytes, flush, read so many bytes), and the driver reports what happened.
//! Every function is verified against a mathematical model of the bytes on
//! the wire.

pub mod address;
pub mod error;
pub mod message;
pub mod outcome;
pub mod reply;
pub mod session;
pub mod trace;
pub mod wire;

pub use crate::address::Address;
pub use crate::address::DomainName;
pub use crate::error::ProtocolError;
pub use crate::message::Command;
pub use crate::message::HandshakeRequest;
pub use crate::message::HandshakeResponse;
pub use crate::message::TcpRequestHeader;
pub use crate::message::TcpResponseHeader;
pub use crate::reply::Reply;
pub use crate::session::Action;
pub use crate::session::Event;
pub use crate::session::Socks5Client;
pub use crate::wire::Parse;
