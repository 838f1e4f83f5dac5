use std::cmp::Ordering;
use traceroute::probe::response::duration_since;
use traceroute::sockets::senders::{SocketSender, SocketSenders};
use traceroute::sockets::setup_sockets;
use traceroute::trace::data::PINGS_KEPT;
use traceroute::trace::graph::{edge_of, key_of_edge, key_of_node, node_of};
use traceroute::trace::trace::hop_for;
use traceroute::traceroute::{Hop as HopAt, HostAgent};
use traceroute::utils::{get_available_interfaces, get_default_source_ip, MacAddr, NetworkInterface};
use traceroute::{
    Edge, Hop, IoError, IpAddr, Ipv4Addr, Ipv6Addr, Node, ParseProtocolErr, Probe, ProbeResponse, Protocol, TraceData,
    TraceOptions, TraceResponse, TracerouteError, UdpParams,
};

fn v4(a: u8, b: u8, c: u8, d: u8) -> IpAddr {
    IpAddr::V4(Ipv4Addr::new(a, b, c, d))
}

fn interface(lower_up: bool, loopback: bool, mac: Option<u64>, ips: Vec<IpAddr>) -> NetworkInterface {
    NetworkInterface { lower_up, loopback, mac: mac.map(|bits| MacAddr { bits }), ips }
}

#[test]
fn protocol_names_are_read() {
    assert_eq!(Protocol::parse("dccp"), Ok(Protocol::DCCP));
    assert_eq!(Protocol::parse("DCCP"), Ok(Protocol::DCCP));
    assert_eq!(Protocol::parse("icmp"), Ok(Protocol::ICMP));
    assert_eq!(Protocol::parse("ICMP"), Ok(Protocol::ICMP));
    assert_eq!(Protocol::parse("sctp"), Ok(Protocol::SCTP));
    assert_eq!(Protocol::parse("SCTP"), Ok(Protocol::SCTP));
    assert_eq!(Protocol::parse("tcp"), Ok(Protocol::TCP));
    assert_eq!(Protocol::parse("TCP"), Ok(Protocol::TCP));
    assert_eq!(Protocol::parse("udp"), Ok(Protocol::UDP(UdpParams::default())));
    assert_eq!(Protocol::parse("UDP"), Ok(Protocol::UDP(UdpParams::default())));
    assert_eq!("udp".parse::<Protocol>(), Ok(Protocol::UDP(UdpParams::default())));
}

#[test]
fn unknown_protocol_names_are_refused() {
    for name in ["", "Udp", "udp ", "ip", "udpp", "quic"] {
        assert_eq!(Protocol::parse(name), Err(ParseProtocolErr::UnknownProtocol));
        assert_eq!(name.parse::<Protocol>(), Err(ParseProtocolErr::UnknownProtocol));
    }
    assert_eq!(ParseProtocolErr::UnknownProtocol.to_string(), "Unknown Protocol");
}

#[test]
fn protocols_have_their_numbers_and_names() {
    assert_eq!(Protocol::DCCP.next_header(), 33);
    assert_eq!(Protocol::ICMP.next_header(), 1);
    assert_eq!(Protocol::SCTP.next_header(), 132);
    assert_eq!(Protocol::TCP.next_header(), 6);
    assert_eq!(Protocol::UDP(UdpParams::default()).next_header(), 17);
    assert_eq!(Protocol::DCCP.name(), "DCCP");
    assert_eq!(Protocol::ICMP.name(), "ICMP");
    assert_eq!(Protocol::SCTP.name(), "SCTP");
    assert_eq!(Protocol::TCP.name(), "TCP");
    assert_eq!(Protocol::UDP(UdpParams::default()).name(), "UDP");
}

#[test]
fn errors_are_put_in_words() {
    let denied = TracerouteError::Io(IoError { permission_denied: true, detail: "Operation not permitted".to_string() });
    assert_eq!(
        denied.to_string(),
        "Couldn't open network: PermissionDenied. Try again with sudo or boost this executable privilages with setcap cap_net_admin+ep"
    );
    let other = TracerouteError::Io(IoError { permission_denied: false, detail: "No target given".to_string() });
    assert_eq!(other.to_string(), "failed with unhandled error: No target given");
    assert_eq!(TracerouteError::UnmatchedPacket("odd").to_string(), "unmatched packet: odd");
    assert_eq!(TracerouteError::MalformedPacket.to_string(), "a malformed packet was encounted");
    assert_eq!(TracerouteError::NoIpv6.to_string(), "ipv6 is not yet supported");
    assert_eq!(TracerouteError::UnimplimentedProtocol(Protocol::TCP).to_string(), "TCP probe is unimplimented");
    assert_eq!(TracerouteError::ICMPTypeUnexpected(8).to_string(), "ran into an unimplimented ICMP type");
    assert_eq!(TracerouteError::ChannelUnexpectedlyClosed.to_string(), "channel unexptectedly closed");
    assert_eq!(TracerouteError::IpProtocolMismatch.to_string(), "attempted to use ipv4 with ipv6");
}

#[test]
fn probe_becomes_sent_and_answered() {
    let probe = Probe::new(v4(10, 0, 0, 1), 4, 99, 0xaaaa, 0xbbbb);
    let sent = probe.sent(1_000);
    assert_eq!(sent.source, v4(10, 0, 0, 1));
    assert_eq!((sent.ttl, sent.id, sent.checksum, sent.flowhash, sent.instant), (4, 99, 0xaaaa, 0xbbbb, 1_000));
    let response = ProbeResponse::new(sent, v4(172, 16, 0, 4), 4_500);
    assert_eq!(response.ttl, 4);
    assert_eq!(response.destination, v4(172, 16, 0, 4));
    assert_eq!(response.ping, 3_500);
    assert_eq!(response.sent.instant, 1_000);
    assert_eq!(ProbeResponse::new(sent, v4(172, 16, 0, 4), 999).ping, 0);
    assert_eq!(duration_since(7, 3), 4);
    assert_eq!(duration_since(3, 7), 0);
    assert_eq!(duration_since(u64::MAX, 0), u64::MAX);
}

#[test]
fn probes_are_equal_by_identification_and_ordered_by_hop_limit() {
    let a = Probe::new(v4(10, 0, 0, 1), 4, 99, 1, 2);
    let b = Probe::new(v4(10, 0, 0, 2), 9, 99, 3, 4);
    let c = Probe::new(v4(10, 0, 0, 1), 4, 100, 1, 2);
    assert!(a == b);
    assert!(a != c);
    assert_eq!(a.partial_cmp(&b), Some(Ordering::Less));
    assert_eq!(b.partial_cmp(&a), Some(Ordering::Greater));
    assert_eq!(a.partial_cmp(&c), Some(Ordering::Equal));
    assert!(a.sent(1) == b.sent(2));
    assert!(a.sent(1) != c.sent(1));
    assert_eq!(a.sent(1).partial_cmp(&b.sent(1)), Some(Ordering::Less));
    assert_eq!(b.sent(1).partial_cmp(&a.sent(1)), Some(Ordering::Greater));
    assert_eq!(a.sent(1).partial_cmp(&c.sent(9)), Some(Ordering::Equal));
}

#[test]
fn responses_tell_their_distance_and_replier() {
    let sent = Probe::new(v4(10, 0, 0, 1), 4, 99, 1, 2).sent(10);
    let received = TraceResponse::Received(ProbeResponse::new(sent, v4(172, 16, 0, 4), 30));
    assert_eq!(received.get_distance(), 4);
    assert_eq!(received.get_destination(), Some(v4(172, 16, 0, 4)));
    assert_eq!(TraceResponse::TimedOut(sent).get_distance(), 4);
    assert_eq!(TraceResponse::TimedOut(sent).get_destination(), None);
    assert_eq!(TraceResponse::Masked(7).get_distance(), 7);
    assert_eq!(TraceResponse::Masked(7).get_destination(), None);
    assert_eq!(received.flowhash(), Some(2));
    assert_eq!(TraceResponse::TimedOut(sent).flowhash(), Some(2));
    assert_eq!(TraceResponse::Masked(7).flowhash(), None);
    assert_eq!(hop_for(&received), Hop::Received(v4(172, 16, 0, 4), 20));
    assert_eq!(hop_for(&TraceResponse::TimedOut(sent)), Hop::TimedOut);
    assert_eq!(hop_for(&TraceResponse::Masked(7)), Hop::Masked);
}

#[test]
fn first_usable_interface_gives_the_source() {
    let all = vec![
        interface(true, true, Some(0), vec![v4(127, 0, 0, 1)]),
        interface(false, false, Some(0xaabb), vec![v4(10, 0, 0, 9)]),
        interface(true, false, None, vec![v4(10, 0, 0, 8)]),
        interface(true, false, Some(0), vec![v4(10, 0, 0, 7)]),
        interface(true, false, Some(0xaabb), vec![IpAddr::V6(Ipv6Addr { bits: 5 })]),
        interface(true, false, Some(0xaabb), vec![IpAddr::V6(Ipv6Addr { bits: 5 }), v4(192, 168, 1, 20), v4(192, 168, 1, 21)]),
        interface(true, false, Some(0xccdd), vec![v4(172, 16, 0, 2)]),
    ];
    let found = get_available_interfaces(&all);
    assert_eq!(found.len(), 2);
    assert_eq!(found[0].mac, Some(MacAddr { bits: 0xaabb }));
    assert_eq!(found[0].ips.len(), 3);
    assert_eq!(found[1].mac, Some(MacAddr { bits: 0xccdd }));
    assert_eq!(get_default_source_ip(&all), Ok(Ipv4Addr::new(192, 168, 1, 20)));
    assert!(all[5].available());
    assert!(!all[0].available());
    assert_eq!(all[5].ipv4(), Some(Ipv4Addr::new(192, 168, 1, 20)));
    assert_eq!(all[4].ipv4(), None);
}

#[test]
fn no_usable_interface_is_an_error() {
    let all = vec![interface(true, true, Some(1), vec![v4(127, 0, 0, 1)])];
    let expected = TracerouteError::Io(IoError { permission_denied: false, detail: "No interfaces available".to_string() });
    assert_eq!(get_default_source_ip(&all), Err(expected.clone()));
    assert_eq!(get_default_source_ip(&vec![]), Err(expected));
    assert!(get_available_interfaces(&vec![]).is_empty());
}

#[test]
fn senders_list_ipv4_addresses_first() {
    let a = Ipv4Addr::new(10, 0, 0, 1);
    let b = Ipv4Addr::new(10, 0, 0, 2);
    let x = Ipv6Addr { bits: 7 };
    assert_eq!(SocketSenders::V4(SocketSender::new(vec![a, b])).addresses(), vec![IpAddr::V4(a), IpAddr::V4(b)]);
    assert_eq!(SocketSenders::V6(SocketSender::new(vec![x])).addresses(), vec![IpAddr::V6(x)]);
    let both = SocketSenders::Both { v4: SocketSender::new(vec![a]), v6: SocketSender::new(vec![x]) };
    assert_eq!(both.addresses(), vec![IpAddr::V4(a), IpAddr::V6(x)]);
}

#[test]
fn only_an_ipv4_socket_alone_is_taken() {
    let a = Ipv4Addr::new(10, 0, 0, 1);
    let x = Ipv6Addr { bits: 7 };
    let denied = TracerouteError::Io(IoError { permission_denied: true, detail: "denied".to_string() });
    match setup_sockets(Ok(vec![a]), Err(TracerouteError::NoIpv6)) {
        Ok(SocketSenders::V4(socket)) => assert_eq!(socket.addresses, vec![a]),
        _ => panic!("no IPv4 socket"),
    }
    assert!(matches!(setup_sockets(Ok(vec![a]), Ok(vec![x])), Err(TracerouteError::NoIpv6)));
    assert!(matches!(setup_sockets(Err(denied.clone()), Ok(vec![x])), Err(TracerouteError::NoIpv6)));
    match setup_sockets(Err(denied.clone()), Err(TracerouteError::NoIpv6)) {
        Err(e) => assert_eq!(e, denied),
        Ok(_) => panic!("a socket"),
    }
}

#[test]
fn edges_are_ordered_by_kind_and_then_by_number() {
    let edges = [Edge::TTL(0), Edge::TTL(9), Edge::RTT(0), Edge::RTT(77), Edge::Connected];
    for (i, a) in edges.iter().enumerate() {
        for (j, b) in edges.iter().enumerate() {
            assert_eq!(a.order(b), i.cmp(&j));
            assert_eq!(a.partial_cmp(b), Some(i.cmp(&j)));
            assert_eq!(a.cmp(b), i.cmp(&j));
            assert_eq!(a == b, i == j);
        }
    }
}

#[test]
fn nodes_are_ordered_by_kind_and_then_by_what_they_hold() {
    let nodes = [
        Node::Flow(0),
        Node::Flow(0xffff),
        Node::Hop(v4(0, 0, 0, 1)),
        Node::Hop(v4(10, 0, 0, 1)),
        Node::Hop(v4(255, 0, 0, 1)),
        Node::Hop(IpAddr::V6(Ipv6Addr { bits: 0 })),
        Node::Hop(IpAddr::V6(Ipv6Addr { bits: u128::MAX })),
        Node::Hidden(0),
        Node::Hidden(9),
        Node::Masked(0),
        Node::Masked(9),
    ];
    for (i, a) in nodes.iter().enumerate() {
        for (j, b) in nodes.iter().enumerate() {
            assert_eq!(a.order(b), i.cmp(&j));
            assert_eq!(a.partial_cmp(b), Some(i.cmp(&j)));
            assert_eq!(a.cmp(b), i.cmp(&j));
            assert_eq!(a == b, i == j);
            assert_eq!(key_of_node(*a).cmp(&key_of_node(*b)), i.cmp(&j));
        }
        assert_eq!(node_of(key_of_node(*a)), Some(*a));
    }
    assert_eq!(v4(1, 2, 3, 4).order(&v4(1, 2, 3, 5)), Ordering::Less);
    assert_eq!(v4(1, 2, 3, 4).order(&IpAddr::V6(Ipv6Addr { bits: 0 })), Ordering::Less);
    assert_eq!(IpAddr::V6(Ipv6Addr { bits: 0 }).order(&v4(1, 2, 3, 4)), Ordering::Greater);
    assert_eq!(IpAddr::V6(Ipv6Addr { bits: 3 }).order(&IpAddr::V6(Ipv6Addr { bits: 3 })), Ordering::Equal);
}

#[test]
fn graph_keys_are_read_back() {
    for edge in [Edge::TTL(0), Edge::TTL(255), Edge::RTT(0), Edge::RTT(u64::MAX), Edge::Connected] {
        assert_eq!(edge_of(key_of_edge(edge)), Some(edge));
    }
    assert_eq!(key_of_node(Node::Flow(0x1234)), (0, 0x1234));
    assert_eq!(key_of_node(Node::Hop(v4(1, 2, 3, 4))), (1, 0x01020304));
    assert_eq!(key_of_node(Node::Hidden(7)), (3, 7));
    assert_eq!(key_of_node(Node::Masked(7)), (4, 7));
    assert_eq!(key_of_edge(Edge::TTL(7)), (0, 7));
    assert_eq!(key_of_edge(Edge::RTT(7)), (1, 7));
    assert_eq!(key_of_edge(Edge::Connected), (2, 0));
    assert_eq!(node_of((0, 0x1_0000)), None);
    assert_eq!(node_of((1, 0x1_0000_0000)), None);
    assert_eq!(node_of((3, 256)), None);
    assert_eq!(node_of((4, 256)), None);
    assert_eq!(node_of((5, 0)), None);
    assert_eq!(edge_of((0, 256)), None);
    assert_eq!(edge_of((2, 1)), None);
    assert_eq!(edge_of((3, 0)), None);
}

#[test]
fn host_averages_its_pings() {
    let mut host = HostAgent::new(v4(172, 16, 0, 1));
    assert_eq!(host.source(), v4(172, 16, 0, 1));
    host.add_ping(10);
    assert_eq!(host.average_ping(), 10);
    host.add_ping(15);
    assert_eq!(host.average_ping(), 12);
    host.add_ping(u64::MAX);
    host.add_ping(u64::MAX);
    assert_eq!(host.average_ping(), ((25u128 + 2 * u64::MAX as u128) / 4) as u64);
    assert!(host == HostAgent::new(v4(172, 16, 0, 1)));
    assert!(host != HostAgent::new(v4(172, 16, 0, 2)));
}

#[test]
fn hop_keeps_each_host_once() {
    let mut hop = HopAt::new(3);
    assert!(hop.is_empty());
    assert_eq!(hop.distance(), 3);
    hop.get_host_mut(v4(172, 16, 0, 1)).add_ping(10);
    hop.get_host_mut(v4(172, 16, 0, 2)).add_ping(50);
    hop.get_host_mut(v4(172, 16, 0, 1)).add_ping(30);
    assert!(!hop.is_empty());
    assert_eq!(hop.get_host_mut(v4(172, 16, 0, 1)).average_ping(), 20);
    assert_eq!(hop.get_host_mut(v4(172, 16, 0, 2)).average_ping(), 50);
    assert_eq!(hop.distance(), 3);
}

#[test]
fn data_draws_a_round_with_its_flow() {
    let source = v4(10, 0, 0, 1);
    let mut data = TraceData::new(TraceOptions::default());
    let hops = vec![Hop::Received(v4(172, 16, 0, 1), 5), Hop::TimedOut, Hop::Masked, Hop::Received(v4(8, 8, 8, 8), 9)];
    data.process(source, 0x4242, 1, &hops);
    assert_eq!(data.flows(), &vec![0x4242]);
    let flow = key_of_node(Node::Flow(0x4242));
    let origin = key_of_node(Node::Hop(source));
    let first = key_of_node(Node::Hop(v4(172, 16, 0, 1)));
    let hidden = key_of_node(Node::Hidden(2));
    let masked = key_of_node(Node::Masked(3));
    let last = key_of_node(Node::Hop(v4(8, 8, 8, 8)));
    let graph = data.graph();
    assert_eq!(graph.node_count(), 6);
    assert_eq!(graph.edge_count(), 9);
    assert_eq!(graph.edge_weight(flow, origin), Some(&key_of_edge(Edge::TTL(0))));
    assert_eq!(graph.edge_weight(flow, first), Some(&key_of_edge(Edge::TTL(1))));
    assert_eq!(graph.edge_weight(flow, hidden), Some(&key_of_edge(Edge::TTL(2))));
    assert_eq!(graph.edge_weight(flow, masked), Some(&key_of_edge(Edge::TTL(3))));
    assert_eq!(graph.edge_weight(flow, last), Some(&key_of_edge(Edge::TTL(4))));
    assert_eq!(graph.edge_weight(origin, first), Some(&key_of_edge(Edge::Connected)));
    assert_eq!(graph.edge_weight(first, hidden), Some(&key_of_edge(Edge::Connected)));
    assert_eq!(graph.edge_weight(hidden, masked), Some(&key_of_edge(Edge::Connected)));
    assert_eq!(graph.edge_weight(masked, last), Some(&key_of_edge(Edge::Connected)));
    assert!(!graph.contains_edge(first, origin));
    assert_eq!(data.get_pings(source, v4(172, 16, 0, 1)), Some(&vec![5]));
    assert_eq!(data.get_pings(source, v4(8, 8, 8, 8)), Some(&vec![9]));
    assert_eq!(data.get_pings(source, v4(8, 8, 4, 4)), None);
    assert_eq!(data.get_pings(v4(8, 8, 8, 8), source), None);
}

#[test]
fn data_draws_a_round_without_its_flow_for_dot_output() {
    let source = v4(10, 0, 0, 1);
    let mut data = TraceData::new(TraceOptions { dot: true, ..TraceOptions::default() });
    assert!(data.options().dot);
    let hops = vec![Hop::Received(v4(172, 16, 0, 1), 5), Hop::Received(v4(172, 16, 0, 1), 6), Hop::TimedOut];
    data.process(source, 0x4242, 4, &hops);
    assert!(data.flows().is_empty());
    let flow = key_of_node(Node::Flow(0x4242));
    let origin = key_of_node(Node::Hop(source));
    let first = key_of_node(Node::Hop(v4(172, 16, 0, 1)));
    let hidden = key_of_node(Node::Hidden(6));
    let graph = data.graph();
    assert_eq!(graph.node_count(), 4);
    assert_eq!(graph.edge_count(), 3);
    assert_eq!(graph.edge_weight(flow, first), Some(&key_of_edge(Edge::RTT(6))));
    assert_eq!(graph.edge_weight(origin, first), Some(&key_of_edge(Edge::Connected)));
    assert_eq!(graph.edge_weight(first, hidden), Some(&key_of_edge(Edge::Connected)));
    assert!(!graph.contains_edge(first, first));
    assert!(!graph.contains_edge(flow, origin));
    assert_eq!(data.get_pings(source, v4(172, 16, 0, 1)), Some(&vec![6, 5]));
}

#[test]
fn data_does_not_draw_a_round_in_which_nothing_replied() {
    let mut data = TraceData::new(TraceOptions::default());
    data.process(v4(10, 0, 0, 1), 0x4242, 1, &vec![Hop::TimedOut, Hop::Masked]);
    data.process(v4(10, 0, 0, 1), 0x4242, 1, &vec![]);
    assert!(data.flows().is_empty());
    assert_eq!(data.graph().node_count(), 0);
    assert_eq!(data.graph().edge_count(), 0);
}

#[test]
fn data_keeps_the_latest_ten_pings() {
    let source = v4(10, 0, 0, 1);
    let replier = v4(172, 16, 0, 1);
    let mut data = TraceData::new(TraceOptions::default());
    for ping in 1..=12u64 {
        data.process(source, 7, 1, &vec![Hop::Received(replier, ping)]);
    }
    assert_eq!(PINGS_KEPT, 10);
    assert_eq!(data.get_pings(source, replier), Some(&vec![12, 11, 10, 9, 8, 7, 6, 5, 4, 3]));
    assert_eq!(data.flows().len(), 12);
    assert_eq!(data.graph().node_count(), 3);
}

#[test]
fn listing_shows_the_hops_of_the_first_flow() {
    let source = v4(10, 0, 0, 1);
    let mut data = TraceData::new(TraceOptions::default());
    assert!(data.listing().is_empty());
    let hops = vec![
        Hop::Received(v4(172, 16, 0, 1), 5),
        Hop::TimedOut,
        Hop::Masked,
        Hop::Received(v4(8, 8, 8, 8), 9),
        Hop::TimedOut,
        Hop::TimedOut,
    ];
    data.process(source, 0x4242, 1, &hops);
    data.process(source, 0x4242, 1, &vec![Hop::Received(v4(172, 16, 0, 1), 7)]);
    data.process(v4(10, 0, 0, 2), 0x5151, 1, &vec![Hop::Received(v4(172, 16, 0, 9), 1)]);
    let rows = data.listing();
    let shown: Vec<(u8, IpAddr, Vec<u64>)> = rows.into_iter().map(|row| (row.ttl, row.replier, row.pings)).collect();
    assert_eq!(
        shown,
        vec![(0, source, vec![]), (1, v4(172, 16, 0, 1), vec![7, 5]), (4, v4(8, 8, 8, 8), vec![9])]
    );
}

#[test]
fn listing_is_empty_for_dot_output() {
    let mut data = TraceData::new(TraceOptions { dot: true, ..TraceOptions::default() });
    data.process(v4(10, 0, 0, 1), 0x4242, 1, &vec![Hop::Received(v4(172, 16, 0, 1), 5)]);
    assert!(data.listing().is_empty());
}

#[test]
fn listing_orders_hops_at_one_distance_by_address() {
    let source = v4(10, 0, 0, 1);
    let mut data = TraceData::new(TraceOptions::default());
    data.process(source, 0x4242, 1, &vec![Hop::Received(v4(172, 16, 0, 9), 5)]);
    data.process(source, 0x4242, 1, &vec![Hop::Received(v4(172, 16, 0, 1), 6)]);
    let shown: Vec<(u8, IpAddr)> = data.listing().into_iter().map(|row| (row.ttl, row.replier)).collect();
    assert_eq!(shown, vec![(0, source), (1, v4(172, 16, 0, 1)), (1, v4(172, 16, 0, 9))]);
}
