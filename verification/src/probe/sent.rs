use crate::addr::IpAddr;
use crate::prelude::{Checksum, Flowhash, Instant, TcpId, TTL};
use std::cmp::Ordering;
use vstd::prelude::*;
use vstd::std_specs::cmp::{PartialEqSpecImpl, PartialOrdSpecImpl};

verus! {

/// A probe whose packet has left, with the instant at which it did.
///
/// Two sent probes are equal when they carry the same identification, and
/// are ordered by their hop limit.
#[derive(Clone, Copy, Debug)]
pub struct ProbeSent {
    /// Source IP address
    pub source: IpAddr,
    /// Hop limit: how many routers the packet passes before one answers
    pub ttl: TTL,
    /// IPv4 identification
    pub id: TcpId,
    /// Checksum of the inner UDP datagram
    pub checksum: Checksum,
    /// Label of the flow that the probe belongs to
    pub flowhash: Flowhash,
    /// The instant the probe was sent
    pub instant: Instant,
}

impl PartialEq for ProbeSent {
    fn eq(&self, other: &Self) -> (same: bool) {
        self.id == other.id
    }
}

impl Eq for ProbeSent {

}

impl PartialEqSpecImpl for ProbeSent {
    open spec fn obeys_eq_spec() -> bool {
        true
    }

    open spec fn eq_spec(&self, other: &Self) -> bool {
        self.id == other.id
    }
}

impl PartialOrd for ProbeSent {
    fn partial_cmp(&self, other: &Self) -> (order: Option<Ordering>) {
        if self.ttl < other.ttl {
            Some(Ordering::Less)
        } else if self.ttl > other.ttl {
            Some(Ordering::Greater)
        } else {
            Some(Ordering::Equal)
        }
    }
}

impl PartialOrdSpecImpl for ProbeSent {
    open spec fn obeys_partial_cmp_spec() -> bool {
        true
    }

    open spec fn partial_cmp_spec(&self, other: &Self) -> Option<Ordering> {
        if self.ttl < other.ttl {
            Some(Ordering::Less)
        } else if self.ttl > other.ttl {
            Some(Ordering::Greater)
        } else {
            Some(Ordering::Equal)
        }
    }
}

} // verus!
