//! The ways in which a relayed connection can fail.

use vstd::prelude::*;

verus! {

/// Who could not be connected to.
#[derive(Clone, Copy, Debug, PartialEq, Eq, Structural)]
pub enum Peer {
    /// The target itself, on a connection that bypasses the tunnel.
    Target,
    /// The upstream server.
    Server,
}

/// What the operating system said of a failed read or write.
#[derive(Clone, Copy, Debug, PartialEq, Eq, Structural)]
pub enum IoKind {
    ConnectionRefused,
    ConnectionReset,
    ConnectionAborted,
    NotConnected,
    BrokenPipe,
    TimedOut,
    Interrupted,
    /// The report of a socket cannot be true: it claims to have taken more
    /// bytes than it was given.
    InvalidInput,
    /// Anything else.
    Other,
}

/// The error of a connection.
#[derive(Clone, Copy, Debug, PartialEq, Eq, Structural)]
pub enum Error {
    /// The operating system could not establish the connection.
    ConnectFailed(Peer),
    /// The underlying socket reported a read or write error.
    Io(IoKind),
    /// A record length was zero or out of range, or an address was malformed.
    ProtocolFraming,
    /// An authentication tag did not match, a salt was replayed, or a header
    /// timestamp was outside the accepted window.
    CryptoAuth,
    /// The peer closed the connection in the middle of a header or record,
    /// or a socket took nothing of what it was given.
    UnexpectedEof,
    /// The operation is not available for this cipher family or in this
    /// state.
    NotPermitted,
}

} // verus!
