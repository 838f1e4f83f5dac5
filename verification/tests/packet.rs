use pnet::packet::ip::IpNextHeaderProtocols;
use pnet::packet::ipv4::Ipv4Packet;
use pnet::packet::udp::UdpPacket;
use pnet::packet::Packet;
use traceroute::{
    IpAddr, Ipv4Addr, PacketBuilder, PacketBuilderTrait, Protocol, TracerouteError, UdpParams,
};

fn ones_complement_sum(words: &[u8]) -> u16 {
    let mut sum: u32 = 0;
    let mut i = 0;
    while i + 1 < words.len() {
        sum += ((words[i] as u32) << 8) | words[i + 1] as u32;
        i += 2;
    }
    if i < words.len() {
        sum += (words[i] as u32) << 8;
    }
    while sum >> 16 != 0 {
        sum = (sum >> 16) + (sum & 0xffff);
    }
    sum as u16
}

fn udp() -> Protocol {
    Protocol::UDP(UdpParams { source_port: 33434, destination_port: 33434 })
}

#[test]
fn build_lays_out_the_ipv4_header() {
    let source = Ipv4Addr::new(10, 1, 2, 3);
    let dest = Ipv4Addr::new(192, 168, 7, 9);
    let bundle = PacketBuilder::build_with_id(udp(), source, dest, 7, 0xbeef).unwrap();
    assert_eq!(bundle.packet.len(), 52);
    let packet = Ipv4Packet::new(&bundle.packet).unwrap();
    assert_eq!(packet.get_version(), 4);
    assert_eq!(packet.get_header_length(), 5);
    assert_eq!(packet.get_dscp(), 0);
    assert_eq!(packet.get_ecn(), 0);
    assert_eq!(packet.get_total_length(), 52);
    assert_eq!(packet.get_identification(), 0xbeef);
    assert_eq!(packet.get_flags(), 0);
    assert_eq!(packet.get_fragment_offset(), 0);
    assert_eq!(packet.get_ttl(), 7);
    assert_eq!(packet.get_next_level_protocol(), IpNextHeaderProtocols::Udp);
    assert_eq!(packet.get_source().octets(), [10, 1, 2, 3]);
    assert_eq!(packet.get_destination().octets(), [192, 168, 7, 9]);
    assert_eq!(packet.payload().len(), 32);
}

#[test]
fn build_lays_out_the_udp_datagram() {
    let source = Ipv4Addr::new(10, 1, 2, 3);
    let dest = Ipv4Addr::new(192, 168, 7, 9);
    let protocol = Protocol::UDP(UdpParams { source_port: 12345, destination_port: 33435 });
    let bundle = PacketBuilder::build_with_id(protocol, source, dest, 1, 1).unwrap();
    let datagram = UdpPacket::new(&bundle.packet[20..]).unwrap();
    assert_eq!(datagram.get_source(), 12345);
    assert_eq!(datagram.get_destination(), 33435);
    assert_eq!(datagram.get_length(), 32);
    assert_eq!(datagram.payload(), &[0u8; 24][..]);
    assert_eq!(bundle.probe.checksum, datagram.get_checksum());
}

#[test]
fn build_header_checksum_verifies() {
    let source = Ipv4Addr::new(10, 1, 2, 3);
    let dest = Ipv4Addr::new(192, 168, 7, 9);
    let bundle = PacketBuilder::build_with_id(udp(), source, dest, 64, 0x0102).unwrap();
    let packet = Ipv4Packet::new(&bundle.packet).unwrap();
    assert_eq!(pnet::packet::ipv4::checksum(&packet), packet.get_checksum());
    assert_eq!(ones_complement_sum(&bundle.packet[..20]), 0xffff);
}

#[test]
fn build_udp_checksum_verifies() {
    let source = Ipv4Addr::new(10, 1, 2, 3);
    let dest = Ipv4Addr::new(192, 168, 7, 9);
    let bundle = PacketBuilder::build_with_id(udp(), source, dest, 64, 0x0102).unwrap();
    let datagram = UdpPacket::new(&bundle.packet[20..]).unwrap();
    let summed = pnet::packet::udp::ipv4_checksum(&datagram, &[10, 1, 2, 3].into(), &[192, 168, 7, 9].into());
    assert_eq!(summed, datagram.get_checksum());
    let mut summed = vec![10, 1, 2, 3, 192, 168, 7, 9, 0, 17, 0, 32];
    summed.extend_from_slice(&bundle.packet[20..]);
    assert_eq!(ones_complement_sum(&summed), 0xffff);
}

#[test]
fn build_gives_exact_checksums_on_loopback() {
    let localhost = Ipv4Addr::new(127, 0, 0, 1);
    let bundle = PacketBuilder::build_with_id(udp(), localhost, localhost, 1, 0).unwrap();
    assert_eq!(&bundle.packet[10..12], &[0xbb, 0xb7]);
    assert_eq!(&bundle.packet[26..28], &[0xfc, 0x76]);
    assert_eq!(bundle.probe.checksum, 0xfc76);
}

#[test]
fn build_gives_exact_bytes_on_loopback() {
    let localhost = Ipv4Addr::new(127, 0, 0, 1);
    let bundle = PacketBuilder::build_with_id(udp(), localhost, localhost, 1, 0).unwrap();
    let mut expected = vec![
        0x45, 0, 0, 52, 0, 0, 0, 0, 1, 17, 0xbb, 0xb7, 127, 0, 0, 1, 127, 0, 0, 1, 0x82, 0x9a, 0x82, 0x9a, 0, 32,
        0xfc, 0x76,
    ];
    expected.extend_from_slice(&[0u8; 24]);
    assert_eq!(bundle.packet, expected);
}

#[test]
fn build_describes_the_probe() {
    let source = Ipv4Addr::new(10, 1, 2, 3);
    let dest = Ipv4Addr::new(192, 168, 7, 9);
    let bundle = PacketBuilder::build_with_id(udp(), source, dest, 9, 77).unwrap();
    assert_eq!(bundle.probe.source, IpAddr::V4(source));
    assert_eq!(bundle.probe.ttl, 9);
    assert_eq!(bundle.probe.id, 77);
    assert_eq!(bundle.probe.flowhash, traceroute::packet::ipv4::flowhash(0, 0, source, dest, Some(33434), Some(33434)));
}

#[test]
fn build_refuses_other_protocols() {
    let source = Ipv4Addr::new(10, 1, 2, 3);
    let dest = Ipv4Addr::new(192, 168, 7, 9);
    for protocol in [Protocol::DCCP, Protocol::ICMP, Protocol::SCTP, Protocol::TCP] {
        let built = PacketBuilder::build_with_id(protocol, source, dest, 3, 1);
        assert_eq!(built.err(), Some(TracerouteError::UnimplimentedProtocol(protocol)));
        let built = PacketBuilder::build(protocol, source, dest, 3);
        assert_eq!(built.err(), Some(TracerouteError::UnimplimentedProtocol(protocol)));
    }
}

#[test]
fn build_refuses_hop_limit_zero() {
    let source = Ipv4Addr::new(10, 1, 2, 3);
    let dest = Ipv4Addr::new(192, 168, 7, 9);
    let built = PacketBuilder::build_with_id(udp(), source, dest, 0, 1);
    assert_eq!(built.err(), Some(TracerouteError::MalformedPacket));
    let built = PacketBuilder::build_with_id(Protocol::TCP, source, dest, 0, 1);
    assert_eq!(built.err(), Some(TracerouteError::UnimplimentedProtocol(Protocol::TCP)));
}

#[test]
fn build_draws_an_identification() {
    let source = Ipv4Addr::new(10, 1, 2, 3);
    let dest = Ipv4Addr::new(192, 168, 7, 9);
    let bundle = PacketBuilder::build(udp(), source, dest, 4).unwrap();
    let again = PacketBuilder::build_with_id(udp(), source, dest, 4, bundle.probe.id).unwrap();
    assert_eq!(bundle.packet, again.packet);
    assert_eq!(bundle.probe.checksum, again.probe.checksum);
    assert_eq!(bundle.probe.flowhash, again.probe.flowhash);
    let packet = Ipv4Packet::new(&bundle.packet).unwrap();
    assert_eq!(packet.get_identification(), bundle.probe.id);
}

#[test]
fn flowhash_is_the_same_for_the_same_fields() {
    let source = Ipv4Addr::new(10, 1, 2, 3);
    let dest = Ipv4Addr::new(192, 168, 7, 9);
    let a = PacketBuilder::build_with_id(udp(), source, dest, 1, 100).unwrap();
    let b = PacketBuilder::build_with_id(udp(), source, dest, 30, 200).unwrap();
    assert_eq!(a.probe.flowhash, b.probe.flowhash);
    let hash = traceroute::packet::ipv4::flowhash(0, 0, source, dest, Some(33434), Some(33434));
    assert_eq!(hash, traceroute::packet::ipv4::flowhash(0, 0, source, dest, Some(33434), Some(33434)));
}

#[test]
fn flowhash_tells_flows_apart() {
    let source = Ipv4Addr::new(10, 1, 2, 3);
    let dest = Ipv4Addr::new(192, 168, 7, 9);
    let mut seen = std::collections::HashSet::new();
    for port in 33434..33450u16 {
        seen.insert(traceroute::packet::ipv4::flowhash(0, 0, source, dest, Some(port), Some(33434)));
    }
    assert!(seen.len() > 1);
}
