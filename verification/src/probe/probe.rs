use crate::addr::IpAddr;
use crate::prelude::{Checksum, Flowhash, Instant, TcpId, TTL};
use crate::probe::sent::ProbeSent;
use std::cmp::Ordering;
use vstd::prelude::*;
use vstd::std_specs::cmp::{PartialEqSpecImpl, PartialOrdSpecImpl};

verus! {

/// What is known of a probe before it is sent: enough to recognise its reply.
///
/// Two probes are equal when they carry the same identification, and are
/// ordered by their hop limit.
#[derive(Clone, Copy, Debug)]
pub struct Probe {
    /// Source IP address
    pub source: IpAddr,
    /// Hop limit: how many routers the packet passes before one answers
    pub ttl: TTL,
    /// IPv4 identification
    pub id: TcpId,
    /// Checksum of the inner UDP datagram
    pub checksum: Checksum,
    /// Label of the flow that the probe belongs to
    pub flowhash: Flowhash,
}

impl Probe {
    pub fn new(source: IpAddr, ttl: TTL, id: TcpId, checksum: Checksum, flowhash: Flowhash) -> (probe:
        Self)
        ensures
            probe == (Probe { source, ttl, id, checksum, flowhash }),
    {
        Self { source, ttl, id, checksum, flowhash }
    }

    /// The probe as sent at `instant`.
    pub open spec fn spec_sent(self, instant: Instant) -> ProbeSent {
        ProbeSent {
            source: self.source,
            ttl: self.ttl,
            id: self.id,
            checksum: self.checksum,
            flowhash: self.flowhash,
            instant,
        }
    }

    /// Marks the probe as sent at `instant`, the moment its packet left.
    pub fn sent(self, instant: Instant) -> (sent: ProbeSent)
        ensures
            sent == self.spec_sent(instant),
    {
        let Self { source, ttl, id, checksum, flowhash } = self;
        ProbeSent { source, ttl, id, checksum, flowhash, instant }
    }
}

impl PartialEq for Probe {
    fn eq(&self, other: &Self) -> (same: bool) {
        self.id == other.id
    }
}

impl Eq for Probe {

}

impl PartialEqSpecImpl for Probe {
    open spec fn obeys_eq_spec() -> bool {
        true
    }

    open spec fn eq_spec(&self, other: &Self) -> bool {
        self.id == other.id
    }
}

impl PartialOrd for Probe {
    fn partial_cmp(&self, other: &Self) -> (order: Option<Ordering>) {
        if self.ttl < other.ttl {
            Some(Ordering::Less)
        } else if self.ttl > other.ttl {
            Some(Ordering::Greater)
        } else {
            Some(Ordering::Equal)
        }
    }
}

impl PartialOrdSpecImpl for Probe {
    open spec fn obeys_partial_cmp_spec() -> bool {
        true
    }

    open spec fn partial_cmp_spec(&self, other: &Self) -> Option<Ordering> {
        if self.ttl < other.ttl {
            Some(Ordering::Less)
        } else if self.ttl > other.ttl {
            Some(Ordering::Greater)
        } else {
            Some(Ordering::Equal)
        }
    }
}

} // verus!
