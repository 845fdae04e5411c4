//! A reliability layer for unreliable datagram transports: a packet wire
//! codec with a version-bound checksum, and the per-connection sliding
//! acknowledgment window that tracks which recent packets a peer has seen.

pub mod checksum;
pub mod connection;
pub mod packet;
pub mod reliable_header;
pub mod wire;

use vstd::prelude::*;

verus! {

/// Uniform decode failure: a truncated or malformed buffer, or a checksum
/// that does not match (which also covers a peer on another protocol
/// version).
#[derive(Clone, Copy, Debug, PartialEq, Eq, Structural)]
pub struct DecodeError;

} // verus!
