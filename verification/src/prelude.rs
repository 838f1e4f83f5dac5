//! Names for the plain values that run through the crate.

use vstd::prelude::*;

verus! {

/// A hop limit: how many routers a packet may pass.
pub type TTL = u8;

/// The IPv4 identification of a probe, by which a reply is matched to it.
pub type TcpId = u16;

/// A 16-bit Internet checksum.
pub type Checksum = u16;

/// The 16-bit label of a flow.
pub type Flowhash = u16;

/// A point on the caller's monotonic clock, in nanoseconds since its origin.
pub type Instant = u64;

/// A span of time, in nanoseconds.
pub type Duration = u64;

} // verus!
