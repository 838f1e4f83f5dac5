//! The probe packet over IPv4: a 20-byte IPv4 header, an 8-byte UDP header
//! and 24 zero bytes.

use crate::addr::{IpAddr, Ipv4Addr};
use crate::error::TracerouteError;
use crate::packet::builder::{PacketBuilder, PacketBuilderTrait};
use crate::packet::checksum::{
    be_word, fold_carries, ipv4_checksum, ipv4_header_checksum, ipv4_word_sum, lemma_summed_buffer_verifies, sent_checksum,
    sum_be_words, udp_checksum, udp_ipv4_checksum,
};
use crate::probe::{Probe, ProbeBundle};
use crate::protocol::{Protocol, UdpParams};
use std::collections::hash_map::DefaultHasher;
use std::hash::Hasher;
use vstd::prelude::*;
use vstd::std_specs::hash::DefaultHasherAdditionalSpecFns;

verus! {

/// The length of a probe packet: 20 bytes of IPv4 header, 8 of UDP header
/// and 24 of payload.
pub const IPV4_BUFFER_SIZE: usize = 52;

/// The two bytes of `x` in network order.
pub open spec fn be_bytes(x: u16) -> Seq<u8> {
    seq![(x / 256) as u8, (x % 256) as u8]
}

/// The number that the bytes `hi`, `lo` spell in network order.
pub open spec fn be_value(hi: u8, lo: u8) -> u16 {
    (hi * 256 + lo) as u16
}

/// An IPv4 header without options, of a packet of 52 bytes: version 4, five
/// header words, no DSCP, no ECN, not fragmented.
pub open spec fn ipv4_header(ttl: u8, next_header: u8, source: Ipv4Addr, dest: Ipv4Addr, ip_id: u16, checksum: u16) -> Seq<u8> {
    seq![0x45u8, 0u8, 0u8, 52u8] + be_bytes(ip_id) + seq![0u8, 0u8, ttl, next_header] + be_bytes(checksum)
        + source.spec_octets() + dest.spec_octets()
}

/// A UDP datagram of 32 bytes: the header and 24 zero bytes.
pub open spec fn udp_datagram(params: UdpParams, checksum: u16) -> Seq<u8> {
    be_bytes(params.source_port) + be_bytes(params.destination_port) + seq![0u8, 32u8] + be_bytes(checksum)
        + Seq::new(24, |i: int| 0u8)
}

/// The checksum of the header of a probe packet.
pub open spec fn probe_header_checksum(ttl: u8, next_header: u8, source: Ipv4Addr, dest: Ipv4Addr, ip_id: u16) -> u16 {
    ipv4_header_checksum(ipv4_header(ttl, next_header, source, dest, ip_id, 0))
}

/// The checksum of the UDP datagram of a probe packet, as UDP sends it: a
/// checksum of zero is sent as 0xffff.
pub open spec fn probe_udp_checksum(params: UdpParams, source: Ipv4Addr, dest: Ipv4Addr) -> u16 {
    sent_checksum(udp_ipv4_checksum(udp_datagram(params, 0), source, dest))
}

/// The UDP probe packet, byte for byte.
pub open spec fn udp_probe_packet(params: UdpParams, source: Ipv4Addr, dest: Ipv4Addr, ttl: u8, ip_id: u16) -> Seq<u8> {
    ipv4_header(ttl, 17, source, dest, ip_id, probe_header_checksum(ttl, 17, source, dest, ip_id)) + udp_datagram(
        params,
        probe_udp_checksum(params, source, dest),
    )
}

/// What is fed to the hasher for a flow, write by write: DSCP, ECN, the
/// source port and the destination port where there are ports, the source
/// address, the destination address.
pub open spec fn flow_writes(dscp: u8, ecn: u8, source: Ipv4Addr, dest: Ipv4Addr, source_port: Option<u16>, dest_port: Option<u16>) -> Seq<Seq<u8>> {
    let head = seq![seq![dscp], seq![ecn]];
    let with_source = match source_port {
        Some(port) => head.push(be_bytes(port)),
        None => head,
    };
    let with_dest = match dest_port {
        Some(port) => with_source.push(be_bytes(port)),
        None => with_source,
    };
    with_dest.push(source.spec_octets()).push(dest.spec_octets())
}

/// The label of a flow: the low 16 bits of the hash of [`flow_writes`].
pub open spec fn spec_flowhash(dscp: u8, ecn: u8, source: Ipv4Addr, dest: Ipv4Addr, source_port: Option<u16>, dest_port: Option<u16>) -> u16 {
    (DefaultHasher::spec_finish(flow_writes(dscp, ecn, source, dest, source_port, dest_port)) % 0x1_0000) as u16
}

/// The probe that goes with the UDP probe packet.
pub open spec fn udp_probe(params: UdpParams, source: Ipv4Addr, dest: Ipv4Addr, ttl: u8, ip_id: u16) -> Probe {
    Probe {
        source: IpAddr::V4(source),
        ttl,
        id: ip_id,
        checksum: probe_udp_checksum(params, source, dest),
        flowhash: spec_flowhash(0, 0, source, dest, Some(params.source_port), Some(params.destination_port)),
    }
}

/// What building a probe gives: for UDP and a hop limit of at least 1, the
/// packet and its probe; for the other protocols, the error that names the
/// protocol; for UDP and the hop limit 0, which would not leave the host,
/// the error of a malformed packet.
pub open spec fn spec_build(protocol: Protocol, source: Ipv4Addr, dest: Ipv4Addr, ttl: u8, ip_id: u16) -> Result<(Seq<u8>, Probe), TracerouteError> {
    match protocol {
        Protocol::UDP(params) => if ttl == 0 {
            Err(TracerouteError::MalformedPacket)
        } else {
            Ok((udp_probe_packet(params, source, dest, ttl, ip_id), udp_probe(params, source, dest, ttl, ip_id)))
        },
        _ => Err(TracerouteError::UnimplimentedProtocol(protocol)),
    }
}

/// Whether `bundle` is what building for the hop limit `ttl` gives, with
/// the identification that the bundle's probe carries.
pub open spec fn built_as(bundle: ProbeBundle<Vec<u8>>, protocol: Protocol, source: Ipv4Addr, dest: Ipv4Addr, ttl: u8) -> bool {
    spec_build(protocol, source, dest, ttl, bundle.probe.id) == Ok::<(Seq<u8>, Probe), TracerouteError>(
        (bundle.packet@, bundle.probe),
    )
}

/// The error that building for the hop limit `ttl` ends in, whatever the
/// addresses and the identification.
pub open spec fn build_error(protocol: Protocol, ttl: u8) -> Option<TracerouteError> {
    match protocol {
        Protocol::UDP(_) => if ttl == 0 {
            Some(TracerouteError::MalformedPacket)
        } else {
            None
        },
        _ => Some(TracerouteError::UnimplimentedProtocol(protocol)),
    }
}

/// Whether `bundle` is what [`spec_build`] gives on `result`.
pub open spec fn bundle_is(result: Result<ProbeBundle<Vec<u8>>, TracerouteError>, built: Result<(Seq<u8>, Probe), TracerouteError>) -> bool {
    match (result, built) {
        (Ok(bundle), Ok((packet, probe))) => bundle.packet@ == packet && bundle.probe == probe,
        (Err(e), Err(expected)) => e == expected,
        _ => false,
    }
}

fn zeroed(n: usize) -> (buffer: Vec<u8>)
    ensures
        buffer@ == Seq::new(n as nat, |i: int| 0u8),
{
    let mut buffer: Vec<u8> = Vec::new();
    let mut i: usize = 0;
    while i < n
        invariant
            i <= n,
            buffer@ == Seq::new(i as nat, |i: int| 0u8),
        decreases n - i,
    {
        buffer.push(0);
        i += 1;
    }
    buffer
}

fn set_be(buffer: &mut Vec<u8>, at: usize, x: u16)
    requires
        at + 1 < old(buffer).len(),
    ensures
        final(buffer)@ == old(buffer)@.update(at as int, be_bytes(x)[0]).update(at + 1, be_bytes(x)[1]),
{
    buffer.set(at, (x / 256) as u8);
    buffer.set(at + 1, (x % 256) as u8);
}

fn set_addr(buffer: &mut Vec<u8>, at: usize, addr: Ipv4Addr)
    requires
        at + 3 < old(buffer).len(),
    ensures
        final(buffer)@ == old(buffer)@.update(at as int, addr.spec_octets()[0]).update(at + 1, addr.spec_octets()[1]).update(
            at + 2,
            addr.spec_octets()[2],
        ).update(at + 3, addr.spec_octets()[3]),
{
    let octets = addr.octets();
    buffer.set(at, octets[0]);
    buffer.set(at + 1, octets[1]);
    buffer.set(at + 2, octets[2]);
    buffer.set(at + 3, octets[3]);
}

/// Writes the IPv4 header of a probe packet over the first 20 bytes of
/// `buffer`, its checksum last.
fn set_ip_header_values(buffer: &mut Vec<u8>, ttl: u8, protocol: Protocol, source: Ipv4Addr, dest: Ipv4Addr, ip_id: u16) -> (done: Result<(), TracerouteError>)
    requires
        old(buffer)@.len() >= 20,
    ensures
        done is Ok,
        final(buffer)@ == ipv4_header(
            ttl,
            protocol.spec_next_header(),
            source,
            dest,
            ip_id,
            probe_header_checksum(ttl, protocol.spec_next_header(), source, dest, ip_id),
        ) + old(buffer)@.subrange(20, old(buffer)@.len() as int),
{
    let ghost rest = buffer@.subrange(20, buffer@.len() as int);
    let next_header = protocol.next_header();
    buffer.set(0, 0x45);
    buffer.set(1, 0);
    set_be(buffer, 2, 52);
    set_be(buffer, 4, ip_id);
    buffer.set(6, 0);
    buffer.set(7, 0);
    buffer.set(8, ttl);
    buffer.set(9, next_header);
    set_be(buffer, 10, 0);
    set_addr(buffer, 12, source);
    set_addr(buffer, 16, dest);
    let ghost unsummed = ipv4_header(ttl, next_header, source, dest, ip_id, 0);
    assert(buffer@ =~= unsummed + rest);
    let checksum = match ipv4_checksum(buffer.as_slice()) {
        Some(checksum) => checksum,
        None => 0,
    };
    proof {
        assert(0x45u8 % 16 == 5);
        assert(buffer@.subrange(0, 20) =~= unsummed);
        assert(unsummed.subrange(0, 20) =~= unsummed);
    }
    set_be(buffer, 10, checksum);
    assert(buffer@ =~= ipv4_header(ttl, next_header, source, dest, ip_id, checksum) + rest);
    Ok(())
}

/// The label of the flow that packets with these fields belong to.
pub fn flowhash(dscp: u8, ecn: u8, source: Ipv4Addr, dest: Ipv4Addr, source_port: Option<u16>, dest_port: Option<u16>) -> (hash: u16)
    ensures
        hash == spec_flowhash(dscp, ecn, source, dest, source_port, dest_port),
{
    let mut hasher = DefaultHasher::new();
    let first = [dscp];
    hasher.write(first.as_slice());
    let second = [ecn];
    hasher.write(second.as_slice());
    if let Some(port) = source_port {
        let bytes = [(port / 256) as u8, (port % 256) as u8];
        hasher.write(bytes.as_slice());
        assert(bytes@ =~= be_bytes(port));
    }
    if let Some(port) = dest_port {
        let bytes = [(port / 256) as u8, (port % 256) as u8];
        hasher.write(bytes.as_slice());
        assert(bytes@ =~= be_bytes(port));
    }
    let from = source.octets();
    hasher.write(from.as_slice());
    let to = dest.octets();
    hasher.write(to.as_slice());
    assert(first@ =~= seq![dscp]);
    assert(second@ =~= seq![ecn]);
    assert(hasher@ =~= flow_writes(dscp, ecn, source, dest, source_port, dest_port));
    (hasher.finish() % 0x1_0000) as u16
}

/// Writes the UDP datagram of a probe over the 32 bytes that follow the
/// IPv4 header in `buffer`, its checksum last, and returns the checksum.
fn build_udp_packet(buffer: &mut Vec<u8>, source: Ipv4Addr, destination_ip: Ipv4Addr, params: UdpParams) -> (done: Result<u16, TracerouteError>)
    requires
        old(buffer)@.len() == 52,
    ensures
        done == Ok::<u16, TracerouteError>(probe_udp_checksum(params, source, destination_ip)),
        final(buffer)@ == old(buffer)@.subrange(0, 20) + udp_datagram(params, probe_udp_checksum(params, source, destination_ip)),
{
    let ghost head = buffer@.subrange(0, 20);
    set_be(buffer, 20, params.source_port);
    set_be(buffer, 22, params.destination_port);
    set_be(buffer, 24, 32);
    set_be(buffer, 26, 0);
    let mut i: usize = 28;
    while i < 52
        invariant
            28 <= i <= 52,
            buffer@.len() == 52,
            buffer@.subrange(0, 28) == head + be_bytes(params.source_port) + be_bytes(params.destination_port) + seq![0u8, 32u8]
                + be_bytes(0),
            forall|j: int| 28 <= j < i ==> buffer@[j] == 0,
        decreases 52 - i,
    {
        let ghost before = buffer@;
        buffer.set(i, 0);
        assert(buffer@.subrange(0, 28) =~= before.subrange(0, 28));
        i += 1;
    }
    let ghost unsummed = udp_datagram(params, 0);
    proof {
        assert(buffer@.subrange(20, 52) =~= unsummed) by {
            assert forall|j: int| 0 <= j < 32 implies buffer@.subrange(20, 52)[j] == unsummed[j] by {
                if j < 8 {
                    assert(buffer@[20 + j] == buffer@.subrange(0, 28)[20 + j]);
                }
            }
        }
    }
    let datagram = vstd::slice::slice_subrange(buffer.as_slice(), 20, 52);
    let summed = match udp_checksum(datagram, source, destination_ip) {
        Some(checksum) => checksum,
        None => 0,
    };
    // A checksum of zero would say that none was made.
    let checksum: u16 = if summed == 0 {
        0xffff
    } else {
        summed
    };
    let ghost before = buffer@;
    set_be(buffer, 26, checksum);
    proof {
        assert(buffer@ =~= head + udp_datagram(params, checksum)) by {
            assert forall|j: int| 0 <= j < 52 implies buffer@[j] == (head + udp_datagram(params, checksum))[j] by {
                if j < 20 {
                    assert(before[j] == before.subrange(0, 28)[j]);
                } else if j < 28 {
                    assert(before[j] == before.subrange(20, 52)[j - 20]);
                } else {
                }
            }
        }
    }
    Ok(checksum)
}

impl PacketBuilder {
    /// Builds the probe packet whose IPv4 identification is `ip_id`.
    pub fn build_with_id(protocol: Protocol, source: Ipv4Addr, dest: Ipv4Addr, ttl: u8, ip_id: u16) -> (built: Result<ProbeBundle<Vec<u8>>, TracerouteError>)
        ensures
            bundle_is(built, spec_build(protocol, source, dest, ttl, ip_id)),
    {
        let params = match protocol {
            Protocol::UDP(params) => params,
            protocol => {
                return Err(TracerouteError::UnimplimentedProtocol(protocol));
            },
        };
        if ttl == 0 {
            return Err(TracerouteError::MalformedPacket);
        }
        let mut buffer = zeroed(IPV4_BUFFER_SIZE);
        let _ = set_ip_header_values(&mut buffer, ttl, protocol, source, dest, ip_id);
        let flowhash = flowhash(0, 0, source, dest, Some(params.source_port), Some(params.destination_port));
        let ghost summed = buffer@;
        let checksum = match build_udp_packet(&mut buffer, source, dest, params) {
            Ok(checksum) => checksum,
            Err(e) => {
                return Err(e);
            },
        };
        proof {
            assert(summed.subrange(0, 20) =~= ipv4_header(ttl, 17, source, dest, ip_id, probe_header_checksum(ttl, 17, source, dest, ip_id)));
        }
        let probe = Probe::new(IpAddr::V4(source), ttl, ip_id, checksum, flowhash);
        Ok(ProbeBundle { packet: buffer, probe })
    }
}

/// Calls `rand::random::<u16>`, which draws from the thread's generator.
/// Nothing is claimed of the number drawn.
#[verifier::external_body]
fn random_id() -> (id: u16) {
    rand::random::<u16>()
}

impl PacketBuilderTrait<Ipv4Addr, Vec<u8>> for PacketBuilder {
    /// Builds the probe packet with an IPv4 identification drawn at random:
    /// what [`PacketBuilder::build_with_id`] gives for the identification
    /// that the probe carries.
    fn build(protocol: Protocol, source: Ipv4Addr, dest: Ipv4Addr, ttl: u8) -> (built: Result<ProbeBundle<Vec<u8>>, TracerouteError>)
        ensures
            exists|ip_id: u16| bundle_is(built, spec_build(protocol, source, dest, ttl, ip_id)),
            built matches Ok(bundle) ==> bundle_is(built, spec_build(protocol, source, dest, ttl, bundle.probe.id)),
    {
        let ip_id = random_id();
        let built = PacketBuilder::build_with_id(protocol, source, dest, ttl, ip_id);
        assert(bundle_is(built, spec_build(protocol, source, dest, ttl, ip_id)));
        built
    }
}

/// Probes built for the same source, destination and protocol belong to
/// the same flow, whatever their hop limits and identifications: DSCP and
/// ECN are 0 in every probe, and the ports are the protocol's.
pub proof fn lemma_same_fields_same_flow(protocol: Protocol, source: Ipv4Addr, dest: Ipv4Addr, ttl: u8, ip_id: u16, other_ttl: u8, other_id: u16)
    requires
        spec_build(protocol, source, dest, ttl, ip_id) is Ok,
        spec_build(protocol, source, dest, other_ttl, other_id) is Ok,
    ensures
        spec_build(protocol, source, dest, ttl, ip_id)->Ok_0.1.flowhash == spec_build(protocol, source, dest, other_ttl, other_id)->Ok_0.1.flowhash,
        protocol matches Protocol::UDP(params) && spec_build(protocol, source, dest, ttl, ip_id)->Ok_0.1.flowhash == spec_flowhash(
            0,
            0,
            source,
            dest,
            Some(params.source_port),
            Some(params.destination_port),
        ),
{
}

/// Reading two bytes written in network order gives the number back.
pub proof fn lemma_be_round_trip(x: u16)
    ensures
        be_value(be_bytes(x)[0], be_bytes(x)[1]) == x,
{
}

/// A probe packet read back field by field gives what it was built from:
/// version 4 and five header words, no DSCP and no ECN, a total length of
/// 52, the identification, the hop limit, the protocol number of UDP, the
/// two addresses, the two ports, a UDP length of 32 and 24 zero bytes.
pub proof fn lemma_packet_reads_back(params: UdpParams, source: Ipv4Addr, dest: Ipv4Addr, ttl: u8, ip_id: u16)
    ensures
        ({
            let packet = udp_probe_packet(params, source, dest, ttl, ip_id);
            &&& packet.len() == 52
            &&& packet[0] == 0x45
            &&& packet[1] == 0
            &&& be_value(packet[2], packet[3]) == 52
            &&& be_value(packet[4], packet[5]) == ip_id
            &&& packet[6] == 0 && packet[7] == 0
            &&& packet[8] == ttl
            &&& packet[9] == 17
            &&& be_value(packet[10], packet[11]) == probe_header_checksum(ttl, 17, source, dest, ip_id)
            &&& packet.subrange(12, 16) == source.spec_octets()
            &&& packet.subrange(16, 20) == dest.spec_octets()
            &&& be_value(packet[20], packet[21]) == params.source_port
            &&& be_value(packet[22], packet[23]) == params.destination_port
            &&& be_value(packet[24], packet[25]) == 32
            &&& be_value(packet[26], packet[27]) == probe_udp_checksum(params, source, dest)
            &&& forall|i: int| 28 <= i < 52 ==> packet[i] == 0
        }),
{
    let packet = udp_probe_packet(params, source, dest, ttl, ip_id);
    lemma_be_round_trip(ip_id);
    lemma_be_round_trip(params.source_port);
    lemma_be_round_trip(params.destination_port);
    lemma_be_round_trip(probe_header_checksum(ttl, 17, source, dest, ip_id));
    lemma_be_round_trip(probe_udp_checksum(params, source, dest));
    assert(packet.subrange(12, 16) =~= source.spec_octets());
    assert(packet.subrange(16, 20) =~= dest.spec_octets());
}

/// The checksums of a probe packet verify: the words of the IPv4 header
/// add up, carries folded in, to 0xffff, and so do the words of the UDP
/// datagram with its pseudo-header, the two addresses, the protocol number
/// 17 and the datagram's length of 32.
pub proof fn lemma_probe_checksums_verify(params: UdpParams, source: Ipv4Addr, dest: Ipv4Addr, ttl: u8, ip_id: u16)
    ensures
        fold_carries(sum_be_words(udp_probe_packet(params, source, dest, ttl, ip_id).subrange(0, 20), -1)) == 0xffff,
        fold_carries(
            ipv4_word_sum(source) + ipv4_word_sum(dest) + 17 + 32 + sum_be_words(
                udp_probe_packet(params, source, dest, ttl, ip_id).subrange(20, 52),
                -1,
            ),
        ) == 0xffff,
{
    let packet = udp_probe_packet(params, source, dest, ttl, ip_id);
    let header_sum = probe_header_checksum(ttl, 17, source, dest, ip_id);
    let unsummed = ipv4_header(ttl, 17, source, dest, ip_id, 0);
    let summed = ipv4_header(ttl, 17, source, dest, ip_id, header_sum);
    assert(packet.subrange(0, 20) =~= summed);
    assert(0x45u8 % 16 == 5);
    assert(unsummed.subrange(0, 20) =~= unsummed);
    lemma_be_round_trip(header_sum);
    assert(be_word(summed, 5) == header_sum);
    lemma_summed_buffer_verifies(unsummed, summed, 5, 0);

    let udp_sum = probe_udp_checksum(params, source, dest);
    let plain = udp_datagram(params, 0);
    let datagram = udp_datagram(params, udp_sum);
    assert(packet.subrange(20, 52) =~= datagram);
    lemma_be_round_trip(udp_sum);
    assert(be_word(datagram, 3) == udp_sum);
    let extra = ipv4_word_sum(source) + ipv4_word_sum(dest) + 17 + 32;
    assert(udp_sum == sent_checksum(crate::packet::checksum::finalize_checksum(extra + sum_be_words(plain, 3))));
    lemma_summed_buffer_verifies(plain, datagram, 3, extra);
}

} // verus!
