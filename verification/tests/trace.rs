use traceroute::sockets::senders::{is_sendable, sender_step, Batch, SenderStep, Submission, IDLE_SLEEP};
use traceroute::sockets::Receiver;
use traceroute::{
    Hop, IoError, IpAddr, Ipv4Addr, Ipv6Addr, Polled, Probe, ProbeBundle, Protocol, Step, Trace, TraceOptions, TraceRequest,
    TraceResponse, TraceSent, TracerouteError, UdpParams,
};

const MS: u64 = 1_000_000;

fn v4(a: u8, b: u8, c: u8, d: u8) -> IpAddr {
    IpAddr::V4(Ipv4Addr::new(a, b, c, d))
}

fn options(min_ttl: u8, max_ttl: u8, timeout: u16) -> TraceOptions {
    TraceOptions { min_ttl, max_ttl, timeout, ..TraceOptions::default() }
}

fn submit(trace: &mut Trace) -> TraceRequest {
    match trace.next(Polled::Empty) {
        Step::Submit(request) => {
            trace.submitted(bundles_of(&request).len());
            request
        }
        Step::Pending => panic!("pending"),
        Step::Yield(result) => panic!("yielded {:?}", result),
    }
}

fn yielded(step: Step) -> Result<Vec<Hop>, TracerouteError> {
    match step {
        Step::Yield(result) => result,
        Step::Pending => panic!("pending"),
        Step::Submit(_) => panic!("submitted"),
    }
}

fn bundles_of(request: &TraceRequest) -> &Vec<ProbeBundle<Vec<u8>>> {
    match request {
        TraceRequest::V4 { bundles, .. } => bundles,
        TraceRequest::V6 { bundles, .. } => bundles,
    }
}

fn send_all(request: TraceRequest, clock: &mut u64) -> TraceSent {
    let mut batch = match sender_step(Submission::Request(request)) {
        SenderStep::Send(batch) => batch,
        _ => panic!("not sent"),
    };
    while batch.next_packet().is_some() {
        *clock += MS;
        batch.mark_sent(*clock);
    }
    batch.finish()
}

#[test]
fn default_options_are_as_documented() {
    let options = TraceOptions::default();
    assert_eq!(options.min_ttl, 1);
    assert_eq!(options.max_ttl, 32);
    assert_eq!(options.delay, 10);
    assert_eq!(options.timeout, 300);
    assert_eq!(options.mask, [false; 32]);
    assert_eq!(options.protocol, Protocol::UDP(UdpParams { source_port: 33434, destination_port: 33434 }));
    assert!(!options.dot);
    assert_eq!(UdpParams::default(), UdpParams { source_port: 33434, destination_port: 33434 });
    assert_eq!(Protocol::default(), Protocol::UDP(UdpParams::default()));
}

#[test]
fn unmasked_options_probe_the_whole_range() {
    let options = TraceOptions::default();
    assert!(options.get_masked().is_empty());
    assert_eq!(options.get_ttl_range(), (1..=32).collect::<Vec<u8>>());
    assert!(options.get_skipped().is_empty());
}

#[test]
fn masked_hop_limits_are_skipped() {
    let mut options = options(3, 8, 300);
    options.mask(5);
    options.mask(6);
    options.mask(20);
    options.mask(1);
    assert_eq!(options.get_masked(), vec![1, 5, 6, 20]);
    assert_eq!(options.get_ttl_range(), vec![3, 4, 7, 8]);
    assert_eq!(options.get_skipped(), vec![5, 6]);
    assert!(options.masks(5));
    assert!(!options.masks(4));
    assert!(!options.masks(0));
    assert!(!options.masks(33));
}

#[test]
fn mask_covers_hop_limits_one_to_thirty_two() {
    let mut options = options(1, 255, 300);
    options.mask(1);
    options.mask(32);
    assert!(options.mask[0]);
    assert!(options.mask[31]);
    assert_eq!(options.get_masked(), vec![1, 32]);
    let range = options.get_ttl_range();
    assert_eq!(range.len(), 253);
    assert_eq!(range[0], 2);
    assert_eq!(range[30], 33);
    assert_eq!(range[252], 255);
}

#[test]
fn range_is_empty_where_lowest_is_above_highest() {
    let options = options(9, 3, 300);
    assert!(options.get_ttl_range().is_empty());
    assert!(options.get_skipped().is_empty());
}

#[test]
fn trace_needs_two_ipv4_addresses() {
    let v6 = IpAddr::V6(Ipv6Addr { bits: 1 });
    assert!(Trace::new(TraceOptions::default(), v4(10, 0, 0, 1), v4(8, 8, 8, 8)).is_ok());
    assert_eq!(Trace::new(TraceOptions::default(), v6, v6).err(), Some(TracerouteError::NoIpv6));
    assert_eq!(Trace::new(TraceOptions::default(), v4(10, 0, 0, 1), v6).err(), Some(TracerouteError::IpProtocolMismatch));
    assert_eq!(Trace::new(TraceOptions::default(), v6, v4(10, 0, 0, 1)).err(), Some(TracerouteError::IpProtocolMismatch));
}

#[test]
fn new_trace_has_sent_nothing() {
    let trace = Trace::new(options(1, 4, 300), v4(10, 0, 0, 1), v4(8, 8, 8, 8)).unwrap();
    assert_eq!(trace.probes_sent(), 0);
    assert!(!trace.in_round());
    assert_eq!(trace.source(), v4(10, 0, 0, 1));
    assert_eq!(trace.destination(), v4(8, 8, 8, 8));
    assert_eq!(trace.options(), options(1, 4, 300));
}

#[test]
fn round_request_holds_one_probe_for_each_hop_limit() {
    let mut trace = Trace::new(options(2, 6, 250), v4(10, 0, 0, 1), v4(8, 8, 8, 8)).unwrap();
    let request = submit(&mut trace);
    assert!(trace.in_round());
    assert_eq!(trace.probes_sent(), 5);
    match &request {
        TraceRequest::V4 { bundles, timeout } => {
            assert_eq!(*timeout, 250 * MS);
            assert_eq!(bundles.iter().map(|b| b.probe.ttl).collect::<Vec<u8>>(), vec![2, 3, 4, 5, 6]);
            for bundle in bundles {
                assert_eq!(bundle.packet.len(), 52);
                assert_eq!(bundle.packet[8], bundle.probe.ttl);
                assert_eq!(&bundle.packet[12..16], &[10, 0, 0, 1]);
                assert_eq!(&bundle.packet[16..20], &[8, 8, 8, 8]);
                assert_eq!(bundle.probe.flowhash, bundles[0].probe.flowhash);
                assert_eq!(bundle.probe.source, v4(10, 0, 0, 1));
            }
            assert!(is_sendable(bundles));
        }
        TraceRequest::V6 { .. } => panic!("a request for IPv6"),
    }
}

#[test]
fn masked_only_range_yields_masked_hops_and_sends_nothing() {
    let mut options = options(5, 7, 300);
    options.mask(5);
    options.mask(6);
    options.mask(7);
    let mut trace = Trace::new(options, v4(10, 0, 0, 1), v4(8, 8, 8, 8)).unwrap();
    let request = submit(&mut trace);
    assert!(bundles_of(&request).is_empty());
    assert_eq!(trace.probes_sent(), 0);
    let mut clock = 0;
    let handoff = send_all(request, &mut clock);
    assert!(handoff.probes.is_empty());
    let mut receiver = Receiver::new();
    assert!(receiver.on_trace_sent(handoff).is_empty());
    assert_eq!(receiver.flow_count(), 0);
    let hops = yielded(trace.next(Polled::Closed)).unwrap();
    assert_eq!(hops, vec![Hop::Masked, Hop::Masked, Hop::Masked]);
    assert!(!trace.in_round());
}

#[test]
fn loopback_round_yields_one_received_hop() {
    let localhost = v4(127, 0, 0, 1);
    let mut trace = Trace::new(options(1, 1, 500), localhost, localhost).unwrap();
    let request = submit(&mut trace);
    let id = bundles_of(&request)[0].probe.id;
    let mut clock = 0;
    let handoff = send_all(request, &mut clock);
    let mut receiver = Receiver::new();
    assert!(receiver.on_trace_sent(handoff).is_empty());
    let answer = receiver.on_reply(localhost, id, clock + 40_000).unwrap();
    assert!(matches!(trace.next(Polled::Item(Ok(answer))), Step::Pending));
    let swept = receiver.sweep(clock + 50_000);
    assert!(swept.timed_out.is_empty());
    assert_eq!(swept.closed.len(), 1);
    let hops = yielded(trace.next(Polled::Closed)).unwrap();
    assert_eq!(hops, vec![Hop::Received(localhost, 40_000)]);
    match hops[0] {
        Hop::Received(replier, rtt) => {
            assert_eq!(replier, localhost);
            assert!(rtt < 10 * MS);
        }
        _ => panic!("not received"),
    }
}

#[test]
fn black_hole_round_yields_timed_out_hops() {
    let mut trace = Trace::new(options(1, 3, 200), v4(10, 0, 0, 1), v4(203, 0, 113, 1)).unwrap();
    let request = submit(&mut trace);
    let mut clock = 0;
    let handoff = send_all(request, &mut clock);
    let last_send = clock;
    let mut receiver = Receiver::new();
    assert!(receiver.on_trace_sent(handoff).is_empty());
    let first = receiver.sweep(last_send + 200 * MS);
    assert_eq!(first.timed_out.len(), 2);
    assert!(first.closed.is_empty());
    let second = receiver.sweep(last_send + 200 * MS + 1);
    assert_eq!(second.timed_out.len(), 1);
    assert_eq!(second.timed_out[0].ttl, 3);
    assert_eq!(second.closed.len(), 1);
    for probe in first.timed_out.into_iter().chain(second.timed_out) {
        assert!(matches!(trace.next(Polled::Item(Ok(TraceResponse::TimedOut(probe)))), Step::Pending));
    }
    let hops = yielded(trace.next(Polled::Closed)).unwrap();
    assert_eq!(hops, vec![Hop::TimedOut, Hop::TimedOut, Hop::TimedOut]);
    assert_eq!(receiver.probe_count(), 0);
    assert_eq!(receiver.flow_count(), 0);
}

#[test]
fn round_yields_hops_in_ascending_order_whatever_the_order_of_arrival() {
    let mut options = options(2, 6, 300);
    options.mask(4);
    let mut trace = Trace::new(options, v4(10, 0, 0, 1), v4(8, 8, 8, 8)).unwrap();
    let request = submit(&mut trace);
    assert_eq!(trace.probes_sent(), 4);
    let ids: Vec<(u8, u16)> = bundles_of(&request).iter().map(|b| (b.probe.ttl, b.probe.id)).collect();
    let mut clock = 0;
    let handoff = send_all(request, &mut clock);
    let mut receiver = Receiver::new();
    let _ = receiver.on_trace_sent(handoff);
    let mut arrivals = Vec::new();
    for (ttl, id) in ids.iter().rev() {
        if *ttl == 5 {
            continue;
        }
        clock += MS;
        if receiver.probe_count() + arrivals.len() == 4 {
            arrivals.push(receiver.on_reply(v4(172, 16, 0, *ttl), *id, clock).unwrap());
        }
    }
    assert_eq!(arrivals.len(), 3);
    let swept = receiver.sweep(clock + 400 * MS);
    assert_eq!(swept.timed_out.len(), 1);
    assert_eq!(swept.timed_out[0].ttl, 5);
    assert!(matches!(trace.next(Polled::Empty), Step::Pending));
    for answer in arrivals {
        assert!(matches!(trace.next(Polled::Item(Ok(answer))), Step::Pending));
    }
    assert!(matches!(trace.next(Polled::Item(Ok(TraceResponse::TimedOut(swept.timed_out[0])))), Step::Pending));
    let hops = yielded(trace.next(Polled::Closed)).unwrap();
    assert_eq!(hops.len(), 6 - 2 + 1);
    assert!(matches!(hops[0], Hop::Received(replier, _) if replier == v4(172, 16, 0, 2)));
    assert!(matches!(hops[1], Hop::Received(replier, _) if replier == v4(172, 16, 0, 3)));
    assert_eq!(hops[2], Hop::Masked);
    assert_eq!(hops[3], Hop::TimedOut);
    assert!(matches!(hops[4], Hop::Received(replier, _) if replier == v4(172, 16, 0, 6)));
}

#[test]
fn trace_runs_round_after_round() {
    let mut trace = Trace::new(options(1, 2, 300), v4(10, 0, 0, 1), v4(8, 8, 8, 8)).unwrap();
    let first = submit(&mut trace);
    assert_eq!(bundles_of(&first).len(), 2);
    assert_eq!(yielded(trace.next(Polled::Closed)).unwrap(), vec![]);
    let second = submit(&mut trace);
    assert_eq!(bundles_of(&second).len(), 2);
    assert_eq!(trace.probes_sent(), 4);
    assert_ne!(
        (bundles_of(&first)[0].probe.id, bundles_of(&first)[1].probe.id),
        (bundles_of(&second)[0].probe.id, bundles_of(&second)[1].probe.id)
    );
}

#[test]
fn trace_hands_errors_on() {
    let mut trace = Trace::new(options(1, 2, 300), v4(10, 0, 0, 1), v4(8, 8, 8, 8)).unwrap();
    let _ = submit(&mut trace);
    let step = trace.next(Polled::Item(Err(TracerouteError::ChannelUnexpectedlyClosed)));
    assert_eq!(yielded(step), Err(TracerouteError::ChannelUnexpectedlyClosed));
    assert!(trace.in_round());
}

#[test]
fn trace_passes_over_outcomes_outside_its_queue() {
    let mut trace = Trace::new(options(1, 2, 300), v4(10, 0, 0, 1), v4(8, 8, 8, 8)).unwrap();
    let _ = submit(&mut trace);
    let stray = Probe::new(v4(10, 0, 0, 1), 9, 1, 2, 3).sent(0);
    assert!(matches!(trace.next(Polled::Item(Ok(TraceResponse::TimedOut(stray)))), Step::Pending));
    let zero = Probe::new(v4(10, 0, 0, 1), 0, 1, 2, 3).sent(0);
    assert!(matches!(trace.next(Polled::Item(Ok(TraceResponse::TimedOut(zero)))), Step::Pending));
    assert!(matches!(trace.next(Polled::Item(Ok(TraceResponse::Masked(2)))), Step::Pending));
    assert_eq!(yielded(trace.next(Polled::Closed)).unwrap(), vec![Hop::Masked]);
}

#[test]
fn other_protocols_end_the_round_in_an_error() {
    for protocol in [Protocol::DCCP, Protocol::ICMP, Protocol::SCTP, Protocol::TCP] {
        let options = TraceOptions { protocol, ..options(1, 3, 300) };
        let mut trace = Trace::new(options, v4(10, 0, 0, 1), v4(8, 8, 8, 8)).unwrap();
        let step = trace.next(Polled::Empty);
        assert_eq!(yielded(step), Err(TracerouteError::UnimplimentedProtocol(protocol)));
        assert_eq!(trace.probes_sent(), 0);
        assert!(trace.in_round());
        assert_eq!(yielded(trace.next(Polled::Closed)).unwrap(), vec![]);
    }
}

#[test]
fn hop_limit_zero_ends_the_round_in_an_error() {
    let mut trace = Trace::new(options(0, 3, 300), v4(10, 0, 0, 1), v4(8, 8, 8, 8)).unwrap();
    assert_eq!(yielded(trace.next(Polled::Empty)), Err(TracerouteError::MalformedPacket));
}

#[test]
fn traces_with_the_same_ends_share_a_flow() {
    let a = Trace::new(options(1, 3, 300), v4(10, 0, 0, 1), v4(8, 8, 8, 8)).unwrap();
    let b = Trace::new(options(4, 9, 100), v4(10, 0, 0, 1), v4(8, 8, 8, 8)).unwrap();
    assert_eq!(a.flowhash(), b.flowhash());
    let mut seen = std::collections::HashSet::new();
    for last in 1..=16u8 {
        seen.insert(Trace::new(options(1, 3, 300), v4(10, 0, 0, 1), v4(8, 8, 8, last)).unwrap().flowhash());
    }
    assert!(seen.len() > 1);
}

#[test]
fn two_traces_share_the_receiver_without_mixing() {
    let mut near = Trace::new(options(1, 2, 300), v4(10, 0, 0, 1), v4(8, 8, 8, 8)).unwrap();
    let mut far = Trace::new(options(1, 2, 300), v4(10, 0, 0, 1), v4(9, 9, 9, 9)).unwrap();
    let near_request = submit(&mut near);
    let far_request = submit(&mut far);
    let near_flow = bundles_of(&near_request)[0].probe.flowhash;
    let far_flow = bundles_of(&far_request)[0].probe.flowhash;
    let near_ids: Vec<u16> = bundles_of(&near_request).iter().map(|b| b.probe.id).collect();
    let far_ids: Vec<u16> = bundles_of(&far_request).iter().map(|b| b.probe.id).collect();
    if near_flow == far_flow || near_ids.iter().any(|id| far_ids.contains(id)) || near_ids[0] == near_ids[1] || far_ids[0] == far_ids[1] {
        return;
    }
    let mut clock = 0;
    let mut receiver = Receiver::new();
    let _ = receiver.on_trace_sent(send_all(near_request, &mut clock));
    let _ = receiver.on_trace_sent(send_all(far_request, &mut clock));
    let mut outcomes = Vec::new();
    outcomes.push(receiver.on_reply(v4(1, 1, 1, 1), near_ids[0], clock + MS).unwrap());
    outcomes.push(receiver.on_reply(v4(2, 2, 2, 2), far_ids[1], clock + 2 * MS).unwrap());
    let swept = receiver.sweep(clock + 400 * MS);
    for probe in swept.timed_out {
        outcomes.push(TraceResponse::TimedOut(probe));
    }
    assert_eq!(outcomes.len(), 4);
    for outcome in outcomes {
        let flow = match &outcome {
            TraceResponse::Received(r) => r.sent.flowhash,
            TraceResponse::TimedOut(p) => p.flowhash,
            TraceResponse::Masked(_) => panic!("masked"),
        };
        if flow == near_flow {
            let _ = near.next(Polled::Item(Ok(outcome)));
        } else {
            assert_eq!(flow, far_flow);
            let _ = far.next(Polled::Item(Ok(outcome)));
        }
    }
    assert_eq!(yielded(near.next(Polled::Closed)).unwrap(), vec![Hop::Received(v4(1, 1, 1, 1), 4 * MS), Hop::TimedOut]);
    assert_eq!(yielded(far.next(Polled::Closed)).unwrap(), vec![Hop::TimedOut, Hop::Received(v4(2, 2, 2, 2), 2 * MS)]);
}

#[test]
fn sender_sleeps_stops_sends_and_refuses() {
    assert_eq!(IDLE_SLEEP, 10 * MS);
    assert!(matches!(sender_step(Submission::Empty), SenderStep::Sleep(span) if span == IDLE_SLEEP));
    assert!(matches!(sender_step(Submission::Disconnected), SenderStep::Stop));
    let v6 = TraceRequest::V6 { bundles: vec![], timeout: 300 * MS };
    assert!(matches!(sender_step(Submission::Request(v6)), SenderStep::Refuse(TracerouteError::NoIpv6)));
    let short = TraceRequest::V4 {
        bundles: vec![ProbeBundle { probe: Probe::new(v4(10, 0, 0, 1), 1, 1, 2, 3), packet: vec![0x45; 19] }],
        timeout: 300 * MS,
    };
    assert!(matches!(sender_step(Submission::Request(short)), SenderStep::Refuse(TracerouteError::MalformedPacket)));
    let mixed = TraceRequest::V4 {
        bundles: vec![
            ProbeBundle { probe: Probe::new(v4(10, 0, 0, 1), 1, 1, 2, 3), packet: vec![0x45; 20] },
            ProbeBundle { probe: Probe::new(v4(10, 0, 0, 1), 2, 2, 2, 4), packet: vec![0x45; 20] },
        ],
        timeout: 300 * MS,
    };
    assert!(matches!(Batch::new(mixed), Err(TracerouteError::MalformedPacket)));
}

#[test]
fn batch_sends_in_order_and_hands_over_what_was_sent() {
    let mut trace = Trace::new(options(1, 3, 300), v4(10, 0, 0, 1), v4(8, 8, 4, 4)).unwrap();
    let request = submit(&mut trace);
    let probes: Vec<Probe> = bundles_of(&request).iter().map(|b| b.probe).collect();
    let packets: Vec<Vec<u8>> = bundles_of(&request).iter().map(|b| b.packet.clone()).collect();
    let mut batch = Batch::new(request).ok().unwrap();
    let (packet, destination) = batch.next_packet().unwrap();
    assert_eq!(packet, &packets[0]);
    assert_eq!(destination, Ipv4Addr::new(8, 8, 4, 4));
    batch.mark_sent(100);
    let (packet, _) = batch.next_packet().unwrap();
    assert_eq!(packet, &packets[1]);
    batch.mark_sent(200);
    let handoff = batch.finish();
    assert_eq!(handoff.timeout, 300 * MS);
    assert_eq!(handoff.probes.len(), 2);
    assert!(handoff.is_wf());
    for (i, sent) in handoff.probes.iter().enumerate() {
        assert_eq!(sent.id, probes[i].id);
        assert_eq!(sent.ttl, probes[i].ttl);
        assert_eq!(sent.checksum, probes[i].checksum);
        assert_eq!(sent.flowhash, probes[i].flowhash);
        assert_eq!(sent.source, probes[i].source);
        assert_eq!(sent.instant, 100 * (i as u64 + 1));
    }
}

#[test]
fn batch_that_is_all_sent_stays_as_it_is() {
    let mut trace = Trace::new(options(1, 1, 300), v4(10, 0, 0, 1), v4(8, 8, 4, 4)).unwrap();
    let mut batch = Batch::new(submit(&mut trace)).ok().unwrap();
    batch.mark_sent(1);
    assert!(batch.next_packet().is_none());
    batch.mark_sent(2);
    let handoff = batch.finish();
    assert_eq!(handoff.probes.len(), 1);
    assert_eq!(handoff.probes[0].instant, 1);
}

#[test]
fn aborted_batch_hands_over_what_was_sent() {
    let mut trace = Trace::new(options(1, 3, 300), v4(10, 0, 0, 1), v4(8, 8, 4, 4)).unwrap();
    let mut batch = Batch::new(submit(&mut trace)).ok().unwrap();
    batch.mark_sent(100);
    let failure = IoError { permission_denied: false, detail: "Network is unreachable".to_string() };
    assert_eq!(batch.abort(failure.clone()), TracerouteError::Io(failure));
    assert!(batch.next_packet().is_none());
    batch.mark_sent(200);
    let handoff = batch.finish();
    assert_eq!(handoff.probes.len(), 1);
    assert_eq!(handoff.probes[0].ttl, 1);
    assert_eq!(handoff.probes[0].instant, 100);
    let mut receiver = Receiver::new();
    let _ = receiver.on_trace_sent(handoff);
    let swept = receiver.sweep(100 + 300 * MS + 1);
    assert_eq!(swept.timed_out.len(), 1);
    assert_eq!(swept.closed.len(), 1);
}

#[test]
fn probes_are_counted_only_when_the_request_was_submitted() {
    let mut trace = Trace::new(TraceOptions::default(), v4(127, 0, 0, 1), v4(127, 0, 0, 1)).unwrap();
    let request = match trace.next(Polled::Empty) {
        Step::Submit(request) => request,
        _ => panic!("no request"),
    };
    assert_eq!(bundles_of(&request).len(), 32);
    assert!(trace.in_round());
    assert_eq!(trace.probes_sent(), 0);
    trace.submitted(32);
    assert_eq!(trace.probes_sent(), 32);
    trace.submitted(usize::MAX);
    assert_eq!(trace.probes_sent(), usize::MAX);
}
