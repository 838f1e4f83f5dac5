use crate::error::TracerouteError;
use crate::probe::ProbeBundle;
use crate::protocol::Protocol;
use vstd::prelude::*;

verus! {

/// Builds the packet of a probe, for addresses of type `A` and packets of
/// type `P`.
pub trait PacketBuilderTrait<A, P> {
    /// The packet that probes `dest` from `source` with the hop limit `ttl`,
    /// and the probe by which its reply is recognised.
    fn build(protocol: Protocol, source: A, dest: A, ttl: u8) -> Result<ProbeBundle<P>, TracerouteError>;
}

/// The builder of this crate's probe packets.
pub struct PacketBuilder;

} // verus!
