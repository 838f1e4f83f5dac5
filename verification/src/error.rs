//! What can go wrong while tracing.

use crate::protocol::Protocol;
use vstd::prelude::*;
use vstd::string::StringExecFns;

verus! {

/// A failure of the operating system, as far as this crate tells such
/// failures apart.
#[derive(Clone, Debug, PartialEq, Eq)]
pub struct IoError {
    /// Whether the system refused for want of privilege.
    pub permission_denied: bool,
    /// The system's own words for the failure.
    pub detail: String,
}

/// Every error that tracing can end in.
#[derive(Clone, Debug, PartialEq, Eq)]
pub enum TracerouteError {
    /// The operating system failed a socket operation.
    Io(IoError),
    /// A received packet could not be attributed to this crate's probes.
    UnmatchedPacket(&'static str),
    /// An ICMP message of a type that no probe elicits; it carries the type.
    ICMPTypeUnexpected(u8),
    /// A malformed packet was encountered.
    MalformedPacket,
    /// IPv6 is not supported.
    NoIpv6,
    /// A protocol was asked for that cannot be probed with yet.
    UnimplimentedProtocol(Protocol),
    /// A channel between the actors was closed while still in use.
    ChannelUnexpectedlyClosed,
    /// The source is an IPv4 address and the destination an IPv6 address, or
    /// the other way round.
    IpProtocolMismatch,
}

impl TracerouteError {
    /// The words shown for the error.
    pub open spec fn spec_message(self) -> Seq<char> {
        match self {
            TracerouteError::Io(err) => if err.permission_denied {
                "Couldn't open network: PermissionDenied. Try again with sudo or boost this executable privilages with setcap cap_net_admin+ep"@
            } else {
                "failed with unhandled error: "@ + err.detail@
            },
            TracerouteError::UnmatchedPacket(why) => "unmatched packet: "@ + why@,
            TracerouteError::MalformedPacket => "a malformed packet was encounted"@,
            TracerouteError::NoIpv6 => "ipv6 is not yet supported"@,
            TracerouteError::UnimplimentedProtocol(protocol) => protocol.spec_name() + " probe is unimplimented"@,
            TracerouteError::ICMPTypeUnexpected(_) => "ran into an unimplimented ICMP type"@,
            TracerouteError::ChannelUnexpectedlyClosed => "channel unexptectedly closed"@,
            TracerouteError::IpProtocolMismatch => "attempted to use ipv4 with ipv6"@,
        }
    }

    /// The words shown for the error. A refusal for want of privilege
    /// advises how to get the privilege.
    pub fn to_string(&self) -> (text: String)
        ensures
            text@ == self.spec_message(),
    {
        match self {
            TracerouteError::Io(err) => if err.permission_denied {
                String::from_str(
                    "Couldn't open network: PermissionDenied. Try again with sudo or boost this executable privilages with setcap cap_net_admin+ep",
                )
            } else {
                String::from_str("failed with unhandled error: ").concat(err.detail.as_str())
            },
            TracerouteError::UnmatchedPacket(why) => String::from_str("unmatched packet: ").concat(why),
            TracerouteError::MalformedPacket => String::from_str("a malformed packet was encounted"),
            TracerouteError::NoIpv6 => String::from_str("ipv6 is not yet supported"),
            TracerouteError::UnimplimentedProtocol(protocol) => String::from_str(protocol.name()).concat(" probe is unimplimented"),
            TracerouteError::ICMPTypeUnexpected(_) => String::from_str("ran into an unimplimented ICMP type"),
            TracerouteError::ChannelUnexpectedlyClosed => String::from_str("channel unexptectedly closed"),
            TracerouteError::IpProtocolMismatch => String::from_str("attempted to use ipv4 with ipv6"),
        }
    }
}

} // verus!
