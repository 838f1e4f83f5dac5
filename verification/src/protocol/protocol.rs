use super::error::ParseProtocolErr;
use super::udp::UdpParams;
use vstd::prelude::*;

verus! {

/// Protocol to be used for a trace.
#[derive(Clone, Copy, Debug, Eq, Hash, Ord, PartialEq, PartialOrd, Structural)]
pub enum Protocol {
    /// Datagram Congestion Control Protocol
    DCCP,
    /// Internet Control Message Protocol
    ICMP,
    /// Stream Control Transmission Protocol
    SCTP,
    /// Transmission Control Protocol
    TCP,
    /// User Datagram Protocol
    UDP(UdpParams),
}

/// The protocol that a name stands for: each protocol is named by its
/// abbreviation, all in lower case or all in upper case.
pub open spec fn protocol_named(name: Seq<char>) -> Option<Protocol> {
    if name == "dccp"@ || name == "DCCP"@ {
        Some(Protocol::DCCP)
    } else if name == "icmp"@ || name == "ICMP"@ {
        Some(Protocol::ICMP)
    } else if name == "sctp"@ || name == "SCTP"@ {
        Some(Protocol::SCTP)
    } else if name == "tcp"@ || name == "TCP"@ {
        Some(Protocol::TCP)
    } else if name == "udp"@ || name == "UDP"@ {
        Some(Protocol::UDP(UdpParams { source_port: 33434, destination_port: 33434 }))
    } else {
        None
    }
}

fn same_text(a: &str, b: &str) -> (same: bool)
    ensures
        same == (a@ == b@),
{
    a.to_owned() == b.to_owned()
}

impl Protocol {
    /// The number that stands for the protocol in the IPv4 header.
    pub open spec fn spec_next_header(self) -> u8 {
        match self {
            Protocol::DCCP => 33,
            Protocol::ICMP => 1,
            Protocol::SCTP => 132,
            Protocol::TCP => 6,
            Protocol::UDP(_) => 17,
        }
    }

    /// The number that stands for the protocol in the IPv4 header.
    pub fn next_header(self) -> (number: u8)
        ensures
            number == self.spec_next_header(),
    {
        match self {
            Protocol::DCCP => 33,
            Protocol::ICMP => 1,
            Protocol::SCTP => 132,
            Protocol::TCP => 6,
            Protocol::UDP(_) => 17,
        }
    }

    /// The protocol's abbreviation in upper case.
    pub open spec fn spec_name(self) -> Seq<char> {
        match self {
            Protocol::DCCP => "DCCP"@,
            Protocol::ICMP => "ICMP"@,
            Protocol::SCTP => "SCTP"@,
            Protocol::TCP => "TCP"@,
            Protocol::UDP(_) => "UDP"@,
        }
    }

    /// The protocol's abbreviation in upper case.
    pub fn name(&self) -> (text: &'static str)
        ensures
            text@ == self.spec_name(),
    {
        match self {
            Protocol::DCCP => "DCCP",
            Protocol::ICMP => "ICMP",
            Protocol::SCTP => "SCTP",
            Protocol::TCP => "TCP",
            Protocol::UDP(_) => "UDP",
        }
    }

    /// Reads a protocol's name. UDP comes with its default ports.
    pub fn parse(s: &str) -> (parsed: Result<Protocol, ParseProtocolErr>)
        ensures
            parsed == match protocol_named(s@) {
                Some(protocol) => Ok::<Protocol, ParseProtocolErr>(protocol),
                None => Err(ParseProtocolErr::UnknownProtocol),
            },
    {
        if same_text(s, "dccp") || same_text(s, "DCCP") {
            Ok(Protocol::DCCP)
        } else if same_text(s, "icmp") || same_text(s, "ICMP") {
            Ok(Protocol::ICMP)
        } else if same_text(s, "sctp") || same_text(s, "SCTP") {
            Ok(Protocol::SCTP)
        } else if same_text(s, "tcp") || same_text(s, "TCP") {
            Ok(Protocol::TCP)
        } else if same_text(s, "udp") || same_text(s, "UDP") {
            Ok(Protocol::UDP(UdpParams::default()))
        } else {
            Err(ParseProtocolErr::UnknownProtocol)
        }
    }
}

impl Default for Protocol {
    fn default() -> (protocol: Self)
        ensures
            protocol == Protocol::UDP(UdpParams { source_port: 33434, destination_port: 33434 }),
    {
        Self::UDP(UdpParams::default())
    }
}

impl std::str::FromStr for Protocol {
    type Err = ParseProtocolErr;

    /// Reads a protocol's name, as [`Protocol::parse`] does.
    fn from_str(s: &str) -> (parsed: Result<Self, Self::Err>)
        ensures
            parsed == match protocol_named(s@) {
                Some(protocol) => Ok::<Protocol, ParseProtocolErr>(protocol),
                None => Err(ParseProtocolErr::UnknownProtocol),
            },
    {
        Protocol::parse(s)
    }
}

} // verus!
