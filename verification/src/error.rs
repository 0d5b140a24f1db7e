//! The failures that the library reports.

use vstd::prelude::*;

verus! {

/// A failure while making, importing or using key material.
#[derive(Debug, Clone, Copy, PartialEq, Eq, Structural)]
pub enum CryptoError {
    /// The algorithm's name is none of the known ones.
    UnknownAlgorithm,
    /// The private key is not an even number of hexadecimal digits.
    MalformedHex,
    /// The key is empty, or the signing backend refused it.
    InvalidKey,
    /// A key or a signature is longer than the wire form can carry, or the
    /// transaction holds as many signatures as it can.
    Oversized,
    /// The signing backend failed.
    Backend,
}

/// A failure while reading wire bytes.
#[derive(Debug, Clone, Copy, PartialEq, Eq, Structural)]
pub enum DecodeError {
    /// The text is not an even number of hexadecimal digits.
    BadHex,
    /// There is no byte to read the version from.
    Empty,
    /// The version byte is none that this library knows.
    UnknownVersion(u8),
    /// The bytes behind the version are cut short, not in canonical form,
    /// inconsistent in their counts, or followed by more bytes.
    Malformed,
}

/// A failure of the connection to the peer.
#[derive(Debug, Clone, Copy, PartialEq, Eq, Structural)]
pub enum TransportError {
    /// The peer could not be reached.
    Unreachable,
    /// The connection was lost before the peer answered.
    Disconnected,
}

/// Any failure of the library.
#[derive(Debug, Clone, PartialEq, Eq)]
pub enum Error {
    Crypto(CryptoError),
    Decode(DecodeError),
    Transport(TransportError),
    /// The peer rejected a query or a transaction, and says why.
    Remote(String),
}

} // verus!
