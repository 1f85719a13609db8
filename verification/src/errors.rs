//! Error taxonomy of the transport core.

use vstd::prelude::*;

verus! {

/// Failure to decode a buffer.
#[derive(Debug, Clone, Copy, PartialEq, Eq, Structural)]
pub enum ParseError {
    /// Generic decode failure: a length that does not add up, or too few
    /// descriptors for what the reply declares.
    ParseError,
    /// The buffer ends before the structure does.
    InsufficientData,
    /// A field holds a value the protocol does not allow here.
    InvalidValue,
}

/// Failure of the connection itself.
///
/// Server-reported protocol errors are not listed here: they travel as
/// ordinary error packets to the cookie of the offending sequence number.
#[derive(Debug, Clone, Copy, PartialEq, Eq, Structural)]
pub enum ConnectionError {
    /// The caller's I/O layer failed; the connection must be discarded.
    IoError,
    /// The peer shut the connection down; fatal.
    ConnectionClosed,
    /// A packet or reply violated the framing rules; fatal.
    MalformedPacket,
    /// The server does not offer the requested extension.
    UnsupportedExtension,
    /// The discovery request for this extension is still in flight: pump
    /// the connection until it resolves, then retry.
    ExtensionQueryInFlight,
    /// Too many requests are outstanding to keep 16-bit sequence
    /// resolution unambiguous, or the sequence space is exhausted.
    TooManyOutstanding,
}

} // verus!
