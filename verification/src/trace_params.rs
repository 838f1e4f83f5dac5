//! The parameters of a trace between two addresses of one family.

use vstd::prelude::*;

verus! {

/// What is asked of a trace between two addresses of type `A`.
pub struct TraceParam<A> {
    /// IP address of source
    pub source: A,
    /// IP address of target
    pub target: A,
    /// Source port to send packets from
    pub src_port: u16,
    /// Base destination port to send packets to
    pub dst_port: u16,
    /// Number of paths to probe
    pub npaths: u8,
    /// The minimum TTL to probe
    pub min_ttl: u8,
    /// The maximum TTL to probe. Must be greater than the minimum TTL
    pub max_ttl: u8,
    /// TTLs to assume hidden
    pub mask: Option<Vec<u8>>,
}

} // verus!
