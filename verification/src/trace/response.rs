use crate::addr::IpAddr;
use crate::prelude::Flowhash;
use crate::probe::{ProbeResponse, ProbeSent};
use vstd::prelude::*;

verus! {

/// The outcome of one probe, or of one masked distance.
#[derive(Clone, Copy, Debug)]
pub enum TraceResponse {
    /// The probe was answered
    Received(ProbeResponse),
    /// The probe was ignored, or its reply did not make it back
    TimedOut(ProbeSent),
    /// The distance was masked, and no probe sent
    Masked(u8),
}

impl TraceResponse {
    /// The hop limit that the outcome is about.
    pub open spec fn spec_distance(self) -> u8 {
        match self {
            TraceResponse::Received(response) => response.ttl,
            TraceResponse::TimedOut(sent) => sent.ttl,
            TraceResponse::Masked(ttl) => ttl,
        }
    }

    /// The address that replied, if one did.
    pub open spec fn spec_destination(self) -> Option<IpAddr> {
        match self {
            TraceResponse::Received(response) => Some(response.destination),
            TraceResponse::TimedOut(_) => None,
            TraceResponse::Masked(_) => None,
        }
    }

    /// The flow that the outcome goes back to: that of its probe. A masked
    /// distance has no probe and goes nowhere.
    pub open spec fn spec_flowhash(self) -> Option<Flowhash> {
        match self {
            TraceResponse::Received(response) => Some(response.sent.flowhash),
            TraceResponse::TimedOut(sent) => Some(sent.flowhash),
            TraceResponse::Masked(_) => None,
        }
    }

    /// The flow that the outcome goes back to: that of its probe, whatever
    /// other flows have probes outstanding.
    pub fn flowhash(&self) -> (flow: Option<Flowhash>)
        ensures
            flow == self.spec_flowhash(),
    {
        match self {
            Self::Received(response) => Some(response.sent.flowhash),
            Self::TimedOut(sent) => Some(sent.flowhash),
            Self::Masked(_ttl) => None,
        }
    }

    /// The hop limit that the outcome is about.
    pub fn get_distance(&self) -> (ttl: u8)
        ensures
            ttl == self.spec_distance(),
    {
        match self {
            Self::Received(response) => response.ttl,
            Self::TimedOut(sent) => sent.ttl,
            Self::Masked(ttl) => *ttl,
        }
    }

    /// The address that replied, if one did.
    pub fn get_destination(&self) -> (destination: Option<IpAddr>)
        ensures
            destination == self.spec_destination(),
    {
        match self {
            Self::Received(response) => Some(response.destination),
            Self::TimedOut(_sent) => None,
            Self::Masked(_ttl) => None,
        }
    }
}

} // verus!
