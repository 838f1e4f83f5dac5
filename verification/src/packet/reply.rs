//! Reading a reply: an IPv4 packet that carries an ICMP message, which
//! quotes the IPv4 header of the probe and the first eight bytes of its UDP
//! datagram.

use crate::addr::{IpAddr, Ipv4Addr};
use crate::error::TracerouteError;
use crate::packet::ipv4::be_value;
use vstd::prelude::*;
use vstd::slice::slice_subrange;

verus! {

/// ICMP type of an echo reply.
pub const ICMP_ECHO_REPLY: u8 = 0;

/// ICMP type of "destination unreachable".
pub const ICMP_DESTINATION_UNREACHABLE: u8 = 3;

/// ICMP type of "time exceeded".
pub const ICMP_TIME_EXCEEDED: u8 = 11;

/// IPv4 protocol number of ICMP.
pub const IP_PROTOCOL_ICMP: u8 = 1;

/// IPv4 protocol number of UDP.
pub const IP_PROTOCOL_UDP: u8 = 17;

/// Where the payload of an IPv4 packet of at least 20 bytes begins: after
/// the header words that the packet states, and not before byte 20.
pub open spec fn ipv4_payload_start(packet: Seq<u8>) -> int {
    let stated = (packet[0] % 16) * 4;
    if stated > 20 {
        stated
    } else {
        20
    }
}

/// Where the payload of an IPv4 packet of at least 20 bytes ends: where the
/// total length that the packet states puts it, and not beyond the packet.
pub open spec fn ipv4_payload_end(packet: Seq<u8>) -> int {
    let stated = (packet[0] % 16) * 4;
    let total = be_value(packet[2], packet[3]);
    let length = if total > stated {
        total - stated
    } else {
        0
    };
    if ipv4_payload_start(packet) + length < packet.len() {
        ipv4_payload_start(packet) + length
    } else {
        packet.len() as int
    }
}

/// The payload of an IPv4 packet of at least 20 bytes.
pub open spec fn ipv4_payload(packet: Seq<u8>) -> Seq<u8> {
    if packet.len() <= ipv4_payload_start(packet) {
        Seq::empty()
    } else {
        packet.subrange(ipv4_payload_start(packet), ipv4_payload_end(packet))
    }
}

/// The source address of an IPv4 packet of at least 20 bytes.
pub open spec fn ipv4_source(packet: Seq<u8>) -> Ipv4Addr {
    Ipv4Addr { bits: crate::addr::bits_of_octets(packet[12], packet[13], packet[14], packet[15]) as u32 }
}

/// What the payload of an ICMP error message tells: after four unused
/// bytes it quotes the probe's IPv4 header, whose identification is the
/// first number, and the start of the probe's UDP datagram, whose checksum
/// is the second.
pub open spec fn spec_unpack_icmp_payload(payload: Seq<u8>) -> Result<(u16, u16), TracerouteError> {
    if payload.len() < 24 {
        Err(TracerouteError::MalformedPacket)
    } else {
        let quoted = payload.skip(4);
        if quoted[9] != IP_PROTOCOL_UDP {
            Err(TracerouteError::UnmatchedPacket("icmp response was of an unknown type"))
        } else if ipv4_payload(quoted).len() < 8 {
            Err(TracerouteError::MalformedPacket)
        } else {
            Ok((be_value(quoted[4], quoted[5]), be_value(ipv4_payload(quoted)[6], ipv4_payload(quoted)[7])))
        }
    }
}

/// What an ICMP message tells: it must have its four header bytes and be
/// of the type "time exceeded", "echo reply" or "destination unreachable";
/// then its payload is read by [`spec_unpack_icmp_payload`].
pub open spec fn spec_handle_icmp_packet(packet: Seq<u8>) -> Result<(u16, u16), TracerouteError> {
    if packet.len() < 4 {
        Err(TracerouteError::MalformedPacket)
    } else if packet[0] == ICMP_TIME_EXCEEDED || packet[0] == ICMP_ECHO_REPLY || packet[0] == ICMP_DESTINATION_UNREACHABLE {
        spec_unpack_icmp_payload(packet.skip(4))
    } else {
        Err(TracerouteError::ICMPTypeUnexpected(packet[0]))
    }
}

/// What a received IPv4 packet tells: the address that sent it, the
/// identification of the probe it answers and the UDP checksum of that
/// probe. It must have its 20 header bytes and carry ICMP.
pub open spec fn spec_handle_ipv4_packet(packet: Seq<u8>) -> Result<(IpAddr, u16, u16), TracerouteError> {
    if packet.len() < 20 {
        Err(TracerouteError::MalformedPacket)
    } else if packet[9] != IP_PROTOCOL_ICMP {
        Err(TracerouteError::UnmatchedPacket("pnet is sending us packets we didn't request"))
    } else {
        match spec_handle_icmp_packet(ipv4_payload(packet)) {
            Ok((id, checksum)) => Ok((IpAddr::V4(ipv4_source(packet)), id, checksum)),
            Err(e) => Err(e),
        }
    }
}

fn read_be(hi: u8, lo: u8) -> (x: u16)
    ensures
        x == be_value(hi, lo),
{
    (hi as u16) * 256 + (lo as u16)
}

/// The payload of an IPv4 packet.
fn payload_of(packet: &[u8]) -> (payload: &[u8])
    requires
        packet@.len() >= 20,
    ensures
        payload@ == ipv4_payload(packet@),
{
    let stated: usize = ((packet[0] % 16) as usize) * 4;
    let total: usize = read_be(packet[2], packet[3]) as usize;
    let start: usize = if stated > 20 {
        stated
    } else {
        20
    };
    let length: usize = if total > stated {
        total - stated
    } else {
        0
    };
    let end: usize = if start + length < packet.len() {
        start + length
    } else {
        packet.len()
    };
    if packet.len() <= start {
        let empty = slice_subrange(packet, 0, 0);
        assert(empty@ =~= Seq::<u8>::empty());
        empty
    } else {
        slice_subrange(packet, start, end)
    }
}

/// Reads the payload of an ICMP error message: the identification of the
/// probe that it quotes, and the checksum of the probe's UDP datagram.
fn unpack_icmp_payload(payload: &[u8]) -> (unpacked: Result<(u16, u16), TracerouteError>)
    ensures
        unpacked == spec_unpack_icmp_payload(payload@),
{
    if payload.len() < 24 {
        return Err(TracerouteError::MalformedPacket);
    }
    let quoted = slice_subrange(payload, 4, payload.len());
    let id = read_be(quoted[4], quoted[5]);
    if quoted[9] != IP_PROTOCOL_UDP {
        return Err(TracerouteError::UnmatchedPacket("icmp response was of an unknown type"));
    }
    let datagram = payload_of(quoted);
    if datagram.len() < 8 {
        return Err(TracerouteError::MalformedPacket);
    }
    Ok((id, read_be(datagram[6], datagram[7])))
}

/// Reads an ICMP message, and refuses the types that no probe elicits.
fn handle_icmp_packet(packet: &[u8]) -> (handled: Result<(u16, u16), TracerouteError>)
    ensures
        handled == spec_handle_icmp_packet(packet@),
{
    if packet.len() < 4 {
        return Err(TracerouteError::MalformedPacket);
    }
    let icmp_type = packet[0];
    if icmp_type == ICMP_TIME_EXCEEDED || icmp_type == ICMP_ECHO_REPLY || icmp_type == ICMP_DESTINATION_UNREACHABLE {
        unpack_icmp_payload(slice_subrange(packet, 4, packet.len()))
    } else {
        Err(TracerouteError::ICMPTypeUnexpected(icmp_type))
    }
}

/// Reads a received IPv4 packet: the address that sent it, the
/// identification of the probe that it answers, and the UDP checksum of
/// that probe.
pub fn handle_ipv4_packet(packet: &[u8]) -> (handled: Result<(IpAddr, u16, u16), TracerouteError>)
    ensures
        handled == spec_handle_ipv4_packet(packet@),
{
    if packet.len() < 20 {
        return Err(TracerouteError::MalformedPacket);
    }
    let source = Ipv4Addr::new(packet[12], packet[13], packet[14], packet[15]);
    if packet[9] != IP_PROTOCOL_ICMP {
        return Err(TracerouteError::UnmatchedPacket("pnet is sending us packets we didn't request"));
    }
    match handle_icmp_packet(payload_of(packet)) {
        Ok((id, checksum)) => Ok((IpAddr::V4(source), id, checksum)),
        Err(e) => Err(e),
    }
}

/// A message that quotes a probe is read as the reply to that probe.
///
/// `outer` is an IPv4 header of five words that carries ICMP and states a
/// total length of at least 56 bytes; `head` is the eight bytes of an ICMP
/// header of an accepted type; `probe` is a probe packet, of which the first
/// 28 bytes are quoted. What is read is the address that sent the message,
/// the identification of the probe and the checksum of its UDP datagram.
pub proof fn lemma_reply_reads_probe(outer: Seq<u8>, head: Seq<u8>, probe: Seq<u8>)
    requires
        outer.len() == 20,
        outer[0] % 16 == 5,
        outer[9] == IP_PROTOCOL_ICMP,
        be_value(outer[2], outer[3]) >= 56,
        head.len() == 8,
        head[0] == ICMP_TIME_EXCEEDED || head[0] == ICMP_ECHO_REPLY || head[0] == ICMP_DESTINATION_UNREACHABLE,
        probe.len() == 52,
        probe[0] == 0x45,
        be_value(probe[2], probe[3]) == 52,
        probe[9] == IP_PROTOCOL_UDP,
    ensures
        spec_handle_ipv4_packet(outer + head + probe.subrange(0, 28)) == Ok::<(IpAddr, u16, u16), TracerouteError>(
            (IpAddr::V4(ipv4_source(outer)), be_value(probe[4], probe[5]), be_value(probe[26], probe[27])),
        ),
{
    let packet = outer + head + probe.subrange(0, 28);
    assert(packet.len() == 56);
    assert(packet[0] == outer[0] && packet[2] == outer[2] && packet[3] == outer[3] && packet[9] == outer[9]);
    assert(ipv4_payload_start(packet) == 20);
    assert(ipv4_payload_end(packet) == 56);
    let message = ipv4_payload(packet);
    assert(message =~= head + probe.subrange(0, 28));
    assert(message[0] == head[0]);
    let payload = message.skip(4);
    assert(payload.len() == 32);
    let quoted = payload.skip(4);
    assert(quoted =~= probe.subrange(0, 28));
    assert(0x45u8 % 16 == 5);
    assert(ipv4_payload_start(quoted) == 20);
    assert(ipv4_payload_end(quoted) == 28);
    let datagram = ipv4_payload(quoted);
    assert(datagram =~= probe.subrange(20, 28));
    assert(ipv4_source(packet) == ipv4_source(outer)) by {
        assert(packet[12] == outer[12] && packet[13] == outer[13] && packet[14] == outer[14] && packet[15] == outer[15]);
    }
}

} // verus!
