use crate::addr::IpAddr;
use crate::prelude::{Duration, Instant, TTL};
use crate::probe::sent::ProbeSent;
use vstd::prelude::*;

verus! {

/// What a reply told about a sent probe.
///
/// The checksum that the reply echoed is not compared with the one sent, and
/// the probe's payload is not inspected.
#[derive(Clone, Copy, Debug)]
pub struct ProbeResponse {
    /// How many hops away `destination` is
    pub ttl: TTL,
    /// Address of the machine that replied
    pub destination: IpAddr,
    /// Round-trip time: from the instant the probe left to the instant its
    /// reply was read
    pub ping: Duration,
    /// The probe that was sent
    pub sent: ProbeSent,
}

/// The time from `earlier` to `later`, or nothing where `later` is not later.
pub open spec fn elapsed(earlier: Instant, later: Instant) -> Duration {
    if later >= earlier {
        (later - earlier) as u64
    } else {
        0
    }
}

/// The time from `earlier` to `later`, or nothing where `later` is not later.
pub fn duration_since(later: Instant, earlier: Instant) -> (span: Duration)
    ensures
        span == elapsed(earlier, later),
{
    if later >= earlier {
        later - earlier
    } else {
        0
    }
}

impl ProbeResponse {
    /// The response that a reply from `destination`, read at
    /// `moment_received`, makes of `sent`.
    pub open spec fn spec_new(sent: ProbeSent, destination: IpAddr, moment_received: Instant) -> Self {
        ProbeResponse {
            ttl: sent.ttl,
            destination,
            ping: elapsed(sent.instant, moment_received),
            sent,
        }
    }

    pub fn new(sent: ProbeSent, destination: IpAddr, moment_received: Instant) -> (response: Self)
        ensures
            response == Self::spec_new(sent, destination, moment_received),
    {
        let ping = duration_since(moment_received, sent.instant);
        Self { ttl: sent.ttl, destination, ping, sent }
    }
}

} // verus!
