use crate::addr::IpAddr;
use crate::prelude::Duration;
use vstd::prelude::*;

verus! {

/// What a round found at one distance.
#[derive(Clone, Copy, Debug, Eq, Hash, PartialEq, Structural)]
pub enum Hop {
    /// The hop replied: its address and the round-trip time
    Received(IpAddr, Duration),
    /// The probe was ignored, or its reply did not make it back
    TimedOut,
    /// The distance was masked, and no probe sent
    Masked,
}

} // verus!
