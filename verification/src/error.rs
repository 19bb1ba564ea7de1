//! The error taxonomy of the protocol core.

use vstd::prelude::*;

verus! {

/// Everything that can go wrong while handling a single packet.
///
/// Every error is isolated to the packet (or connection) it arose on and
/// leaves the commit ledger untouched.
#[derive(Clone, Copy, Debug, PartialEq, Eq, Structural)]
pub enum Error {
    /// The bytes are not an encoding of any packet, or a carried value has
    /// the wrong size.
    MalformedPacket,
    /// A key or signature was built from a byte string of the wrong length.
    InvalidLength,
    /// An acknowledgment arrived without a signer identity.
    MissingIdentity,
    /// An acknowledgment's signer identity is not in the peer directory.
    UnknownPeer,
    /// An acknowledgment's signature did not verify against its signer
    /// identity.
    InvalidSignature,
}

} // verus!
