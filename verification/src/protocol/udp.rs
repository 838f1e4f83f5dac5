use vstd::prelude::*;

verus! {

/// The ports of a UDP probe.
#[derive(Clone, Copy, Debug, Eq, Hash, Ord, PartialEq, PartialOrd, Structural)]
pub struct UdpParams {
    /// Port to send packets from.
    ///
    /// The source port can be randomized or carry identifying information to
    /// be echoed back.
    pub source_port: u16,
    /// Port to send packets to, typically 33434 to 33464.
    pub destination_port: u16,
}

impl Default for UdpParams {
    fn default() -> (params: Self)
        ensures
            params == (UdpParams { source_port: 33434, destination_port: 33434 }),
    {
        Self { source_port: 33434, destination_port: 33434 }
    }
}

} // verus!
