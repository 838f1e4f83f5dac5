use crate::addr::{IpAddr, Ipv4Addr};
use crate::error::TracerouteError;
use crate::packet::builder::{PacketBuilder, PacketBuilderTrait};
use crate::packet::ipv4::{be_bytes, build_error, built_as};
use crate::prelude::{Duration, TTL};
use crate::probe::ProbeBundle;
use crate::protocol::Protocol;
use crate::trace::options::{increasing, TraceOptions};
use crate::trace::request::TraceRequest;
use crate::trace::response::TraceResponse;
use crate::trace::TraceResult;
use crate::utils::hop::Hop;
use std::collections::hash_map::DefaultHasher;
use std::hash::Hasher;
use vstd::prelude::*;
use vstd::std_specs::hash::DefaultHasherAdditionalSpecFns;

verus! {

/// What a look at a trace's reply channel found.
pub enum Polled {
    /// Nothing has arrived
    Empty,
    /// The channel was closed: the round is over
    Closed,
    /// The outcome of a probe, or the error that the batch ended in
    Item(TraceResult),
}

/// What becomes of a call of [`Trace::next`].
pub enum Step {
    /// A round began: the request is to be handed to the sender, with the
    /// sending end of a fresh reply channel
    Submit(TraceRequest),
    /// Nothing to hand out yet
    Pending,
    /// The hops of a round in ascending order of hop limit, or an error
    Yield(Result<Vec<Hop>, TracerouteError>),
}

/// A trace as plain mathematical values.
#[verifier::ext_equal]
pub struct TraceState {
    pub source: IpAddr,
    pub destination: IpAddr,
    pub options: TraceOptions,
    /// How many probes the trace has asked to be sent
    pub probes_sent: nat,
    /// What the round has found so far: entry `i` is for the hop limit
    /// `i + 1`
    pub queue: Seq<Option<Hop>>,
    /// Whether a round is under way
    pub in_round: bool,
}

/// What a probe's outcome says of its hop.
pub open spec fn hop_of(response: TraceResponse) -> Hop {
    match response {
        TraceResponse::Received(response) => Hop::Received(response.destination, response.ping),
        TraceResponse::TimedOut(_) => Hop::TimedOut,
        TraceResponse::Masked(_) => Hop::Masked,
    }
}

/// The queue with `hop` put at the hop limit `ttl`; unchanged where the
/// queue has no entry for `ttl`.
pub open spec fn placed(queue: Seq<Option<Hop>>, ttl: TTL, hop: Hop) -> Seq<Option<Hop>> {
    if 1 <= ttl <= queue.len() {
        queue.update(ttl - 1, Some(hop))
    } else {
        queue
    }
}

/// The queue with each hop limit that the options skip marked as masked.
pub open spec fn with_skipped(queue: Seq<Option<Hop>>, options: TraceOptions) -> Seq<Option<Hop>> {
    Seq::new(
        queue.len(),
        |i: int|
            if i < 255 && options.is_skipped((i + 1) as u8) {
                Some(Hop::Masked)
            } else {
                queue[i]
            },
    )
}

/// The hops that the queue holds, in ascending order of hop limit.
pub open spec fn filled(queue: Seq<Option<Hop>>) -> Seq<Hop>
    decreases queue.len(),
{
    if queue.len() == 0 {
        Seq::empty()
    } else {
        match queue.last() {
            Some(hop) => filled(queue.drop_last()).push(hop),
            None => filled(queue.drop_last()),
        }
    }
}

/// A queue of `n` empty entries.
pub open spec fn vacant(n: nat) -> Seq<Option<Hop>> {
    Seq::new(n, |i: int| None::<Hop>)
}

/// The error that a round's request ends in, if any: probing with a protocol
/// other than UDP, or with the hop limit 0.
pub open spec fn request_error(options: TraceOptions) -> Option<TracerouteError> {
    match options.protocol {
        Protocol::UDP(_) => if options.is_probed(0) {
            Some(TracerouteError::MalformedPacket)
        } else {
            None
        },
        protocol => if exists|ttl: u8| options.is_probed(ttl) {
            Some(TracerouteError::UnimplimentedProtocol(protocol))
        } else {
            None
        },
    }
}

/// The hop limits of the probes of `bundles`, in their order.
pub open spec fn ttls_of(bundles: Seq<ProbeBundle<Vec<u8>>>) -> Seq<u8> {
    Seq::new(bundles.len(), |i: int| bundles[i].probe.ttl)
}

/// A number of milliseconds as a span of time.
pub open spec fn millis(ms: u16) -> Duration {
    (ms * 1_000_000) as u64
}

/// Whether `request` is the request of a round of a trace from `source` to
/// `destination`: one probe for each hop limit that the options probe, in
/// ascending order, each built for these addresses and the protocol of the
/// options, all of one flow; and the timeout of the options.
pub open spec fn is_round_request(request: TraceRequest, options: TraceOptions, source: Ipv4Addr, destination: Ipv4Addr) -> bool {
    &&& request matches TraceRequest::V4 { bundles, timeout }
    &&& timeout == millis(options.timeout)
    &&& increasing(ttls_of(bundles@))
    &&& forall|ttl: u8| ttls_of(bundles@).contains(ttl) <==> options.is_probed(ttl)
    &&& forall|i: int| 0 <= i < bundles@.len() ==> built_as(#[trigger] bundles@[i], options.protocol, source, destination, bundles@[i].probe.ttl)
}

/// What is fed to the hasher for a trace, write by write: DSCP 0, ECN 0,
/// the octets of the source, the octets of the destination, the protocol's
/// number, and for UDP the two ports.
pub open spec fn trace_writes(source: IpAddr, destination: IpAddr, protocol: Protocol) -> Seq<Seq<u8>> {
    let head = seq![seq![0u8], seq![0u8], source.spec_octets(), destination.spec_octets(), seq![protocol.spec_next_header()]];
    match protocol {
        Protocol::UDP(params) => head.push(be_bytes(params.source_port)).push(be_bytes(params.destination_port)),
        _ => head,
    }
}

/// The label of the flow of a trace: the low 16 bits of the hash of
/// [`trace_writes`].
pub open spec fn spec_trace_flowhash(source: IpAddr, destination: IpAddr, protocol: Protocol) -> u16 {
    (DefaultHasher::spec_finish(trace_writes(source, destination, protocol)) % 0x1_0000) as u16
}

/// A trace from a source to a destination: round after round of probes,
/// each round one sweep over the hop limits of its options.
#[derive(Debug)]
pub struct Trace {
    source: IpAddr,
    destination: IpAddr,
    options: TraceOptions,
    probes_sent: usize,
    queue: Vec<Option<Hop>>,
    in_round: bool,
}

impl View for Trace {
    type V = TraceState;

    closed spec fn view(&self) -> TraceState {
        TraceState {
            source: self.source,
            destination: self.destination,
            options: self.options,
            probes_sent: self.probes_sent as nat,
            queue: self.queue@,
            in_round: self.in_round,
        }
    }
}

impl TraceState {
    /// The queue has one entry for each hop limit up to the highest.
    pub open spec fn wf(self) -> bool {
        self.queue.len() == self.options.max_ttl
    }

    /// The trace after the hop limits that its options skip are marked.
    pub open spec fn marked(self) -> Self {
        TraceState { queue: with_skipped(self.queue, self.options), ..self }
    }

    /// The trace after `count` more probes are counted as sent.
    pub open spec fn counted(self, count: nat) -> Self {
        TraceState { probes_sent: capped_sum(self.probes_sent, count), ..self }
    }

    /// The trace after an outcome has been put in its queue.
    pub open spec fn inserted(self, response: TraceResponse) -> Self {
        TraceState { queue: placed(self.queue, response.spec_distance(), hop_of(response)), ..self }
    }
}

fn vacant_queue(n: usize) -> (queue: Vec<Option<Hop>>)
    ensures
        queue@ == vacant(n as nat),
{
    let mut queue: Vec<Option<Hop>> = Vec::new();
    let mut i: usize = 0;
    while i < n
        invariant
            i <= n,
            queue@ == vacant(i as nat),
        decreases n - i,
    {
        queue.push(None);
        assert(queue@ =~= vacant((i + 1) as nat));
        i += 1;
    }
    queue
}

impl Trace {
    /// The queue has one entry for each hop limit up to the highest.
    pub open spec fn wf(&self) -> bool {
        self@.wf()
    }

    /// A trace between two IPv4 addresses. Two IPv6 addresses are refused
    /// as long as IPv6 is not supported, and so is one address of each
    /// family.
    pub fn new(options: TraceOptions, source: IpAddr, destination: IpAddr) -> (made: Result<Self, TracerouteError>)
        ensures
            match (source, destination) {
                (IpAddr::V4(_), IpAddr::V4(_)) => made matches Ok(trace) && trace.wf() && trace@ == (TraceState {
                    source,
                    destination,
                    options,
                    probes_sent: 0,
                    queue: vacant(options.max_ttl as nat),
                    in_round: false,
                }),
                (IpAddr::V6(_), IpAddr::V6(_)) => made matches Err(e) && e == TracerouteError::NoIpv6,
                _ => made matches Err(e) && e == TracerouteError::IpProtocolMismatch,
            },
    {
        match (source, destination) {
            (IpAddr::V4(_), IpAddr::V4(_)) => {},
            (IpAddr::V6(_), IpAddr::V6(_)) => {
                return Err(TracerouteError::NoIpv6);
            },
            _ => {
                return Err(TracerouteError::IpProtocolMismatch);
            },
        }
        let queue = vacant_queue(options.max_ttl as usize);
        Ok(Self { source, destination, options, probes_sent: 0, queue, in_round: false })
    }

    /// How many probes the trace has asked to be sent.
    pub fn probes_sent(&self) -> (count: usize)
        ensures
            count == self@.probes_sent,
    {
        self.probes_sent
    }

    /// Whether a round is under way.
    pub fn in_round(&self) -> (under_way: bool)
        ensures
            under_way == self@.in_round,
    {
        self.in_round
    }

    /// The address that the trace probes from.
    pub fn source(&self) -> (addr: IpAddr)
        ensures
            addr == self@.source,
    {
        self.source
    }

    /// The address that the trace probes towards.
    pub fn destination(&self) -> (addr: IpAddr)
        ensures
            addr == self@.destination,
    {
        self.destination
    }

    /// The options that the trace runs with.
    pub fn options(&self) -> (options: TraceOptions)
        ensures
            options == self@.options,
    {
        self.options
    }

    /// The label of the trace's flow. Traces with the same source,
    /// destination and protocol have the same label.
    pub fn flowhash(&self) -> (hash: u16)
        ensures
            hash == spec_trace_flowhash(self@.source, self@.destination, self@.options.protocol),
    {
        let mut hasher = DefaultHasher::new();
        let zero = [0u8];
        hasher.write(zero.as_slice());
        hasher.write(zero.as_slice());
        let from = self.source.octets();
        hasher.write(from.as_slice());
        let to = self.destination.octets();
        hasher.write(to.as_slice());
        let number = [self.options.protocol.next_header()];
        hasher.write(number.as_slice());
        if let Protocol::UDP(params) = self.options.protocol {
            let first = [(params.source_port / 256) as u8, (params.source_port % 256) as u8];
            hasher.write(first.as_slice());
            let second = [(params.destination_port / 256) as u8, (params.destination_port % 256) as u8];
            hasher.write(second.as_slice());
            assert(first@ =~= be_bytes(params.source_port));
            assert(second@ =~= be_bytes(params.destination_port));
        }
        assert(zero@ =~= seq![0u8]);
        assert(number@ =~= seq![self.options.protocol.spec_next_header()]);
        assert(hasher@ =~= trace_writes(self.source, self.destination, self.options.protocol));
        (hasher.finish() % 0x1_0000) as u16
    }

    /// Puts `hop` in the queue at the hop limit `ttl`. A hop limit that the
    /// queue has no entry for is passed over.
    fn insert_response(&mut self, ttl: TTL, hop: Hop)
        ensures
            final(self)@ == (TraceState { queue: placed(old(self)@.queue, ttl, hop), ..old(self)@ }),
    {
        if 1 <= ttl && ttl as usize <= self.queue.len() {
            self.queue.set((ttl - 1) as usize, Some(hop));
        }
    }

    /// Takes the hops of the round out of the queue, in ascending order of
    /// hop limit, and leaves the queue empty for the next round.
    fn collect_results(&mut self) -> (hops: Vec<Hop>)
        ensures
            hops@ == filled(old(self)@.queue),
            final(self)@ == (TraceState { queue: vacant(old(self)@.queue.len()), ..old(self)@ }),
    {
        let ghost start = self.queue@;
        let mut hops: Vec<Hop> = Vec::new();
        let mut i: usize = 0;
        while i < self.queue.len()
            invariant
                i <= self.queue.len(),
                self.queue@.len() == start.len(),
                hops@ == filled(start.take(i as int)),
                forall|k: int| 0 <= k < i ==> self.queue@[k] == None::<Hop>,
                forall|k: int| i <= k < start.len() ==> self.queue@[k] == start[k],
                self.source == old(self).source,
                self.destination == old(self).destination,
                self.options == old(self).options,
                self.probes_sent == old(self).probes_sent,
                self.in_round == old(self).in_round,
            decreases self.queue.len() - i,
        {
            proof {
                assert(start.take(i + 1).drop_last() =~= start.take(i as int));
                assert(start.take(i + 1).last() == start[i as int]);
            }
            if let Some(hop) = self.queue[i] {
                hops.push(hop);
                self.queue.set(i, None);
            }
            i += 1;
        }
        proof {
            assert(start.take(start.len() as int) =~= start);
            assert(self.queue@ =~= vacant(start.len()));
        }
        hops
    }

    /// Marks each hop limit that the options skip as masked.
    fn mark_skipped(&mut self)
        requires
            old(self).wf(),
        ensures
            final(self)@ == old(self)@.marked(),
    {
        let ghost start = self.queue@;
        let mut i: usize = 0;
        while i < self.queue.len()
            invariant
                i <= self.queue.len(),
                self.queue@.len() == start.len(),
                start.len() == self.options.max_ttl,
                forall|k: int| 0 <= k < i ==> self.queue@[k] == with_skipped(start, self.options)[k],
                forall|k: int| i <= k < start.len() ==> self.queue@[k] == start[k],
                self.source == old(self).source,
                self.destination == old(self).destination,
                self.options == old(self).options,
                self.probes_sent == old(self).probes_sent,
                self.in_round == old(self).in_round,
            decreases self.queue.len() - i,
        {
            let ttl = (i + 1) as u8;
            if self.options.min_ttl <= ttl && ttl <= self.options.max_ttl && self.options.masks(ttl) {
                self.queue.set(i, Some(Hop::Masked));
            }
            i += 1;
        }
        proof {
            assert(self.queue@ =~= with_skipped(start, self.options));
        }
    }

    /// Begins a round from `source` to `destination`: marks the hop limits
    /// that are skipped, and builds the probes of the others, in ascending
    /// order. The first probe that cannot be built ends the request in its
    /// error.
    fn ipv4_probe_request(&mut self, source: Ipv4Addr, destination: Ipv4Addr) -> (request: Result<TraceRequest, TracerouteError>)
        requires
            old(self).wf(),
        ensures
            final(self)@ == old(self)@.marked(),
            match request_error(old(self)@.options) {
                Some(e) => request matches Err(err) && err == e,
                None => request matches Ok(asked) && is_round_request(asked, old(self)@.options, source, destination),
            },
    {
        self.mark_skipped();
        let range = self.options.get_ttl_range();
        let protocol = self.options.protocol;
        let mut bundles: Vec<ProbeBundle<Vec<u8>>> = Vec::new();
        let mut i: usize = 0;
        while i < range.len()
            invariant
                i <= range.len(),
                self@ == old(self)@.marked(),
                protocol == self.options.protocol,
                increasing(range@),
                forall|ttl: u8| range@.contains(ttl) <==> self.options.is_probed(ttl),
                bundles@.len() == i,
                forall|k: int| 0 <= k < i ==> (#[trigger] bundles@[k]).probe.ttl == range@[k],
                forall|k: int| 0 <= k < i ==> built_as(#[trigger] bundles@[k], protocol, source, destination, range@[k]),
                forall|k: int| 0 <= k < i ==> build_error(protocol, #[trigger] range@[k]) is None,
            decreases range.len() - i,
        {
            let ttl = range[i];
            proof {
                assert(range@.contains(range@[i as int]));
            }
            match PacketBuilder::build(protocol, source, destination, ttl) {
                Ok(bundle) => {
                    bundles.push(bundle);
                },
                Err(e) => {
                    proof {
                        assert(build_error(protocol, ttl) == Some(e));
                        if protocol is UDP {
                            assert(ttl == 0);
                        }
                    }
                    return Err(e);
                },
            }
            i += 1;
        }
        let timeout: u64 = (self.options.timeout as u64) * 1_000_000;
        proof {
            assert(ttls_of(bundles@) =~= range@);
            assert(request_error(self.options) is None) by {
                if request_error(self.options) is Some {
                    if protocol is UDP {
                        assert(range@.contains(0u8));
                        let k = choose|k: int| 0 <= k < range@.len() && range@[k] == 0u8;
                        assert(build_error(protocol, range@[k]) is None);
                    } else {
                        let ttl = choose|ttl: u8| self.options.is_probed(ttl);
                        assert(range@.contains(ttl));
                        let k = choose|k: int| 0 <= k < range@.len() && range@[k] == ttl;
                        assert(build_error(protocol, range@[k]) is None);
                    }
                }
            }
        }
        Ok(TraceRequest::V4 { bundles, timeout })
    }

    /// Records that a request of `count` probes, handed out by
    /// [`Trace::next`], was taken by the sender: its probes are counted as
    /// sent. The count is held at the largest `usize`. A request that could
    /// not be submitted is not recorded, and its probes are not counted.
    pub fn submitted(&mut self, count: usize)
        ensures
            final(self)@ == old(self)@.counted(count as nat),
            old(self).wf() ==> final(self).wf(),
    {
        self.probes_sent = self.probes_sent.saturating_add(count);
    }

    /// What the trace does next, given what a look at its reply channel
    /// found.
    ///
    /// Between rounds, whatever was found, a round begins: its request is
    /// handed out, or the error that the request ended in. The probes of
    /// the request are not counted as sent before [`Trace::submitted`] says
    /// that the sender took it.
    /// In a round, an outcome that arrived is put in the queue; an error
    /// that arrived is handed on; when the channel is closed the round is
    /// over and its hops are handed out in ascending order of hop limit.
    pub fn next(&mut self, polled: Polled) -> (step: Step)
        requires
            old(self).wf(),
        ensures
            final(self).wf(),
            !old(self)@.in_round ==> begun(old(self)@, final(self)@, step),
            old(self)@.in_round ==> polled_step(old(self)@, polled, final(self)@, step),
    {
        if !self.in_round {
            self.in_round = true;
            let begun = match (self.source, self.destination) {
                (IpAddr::V4(source), IpAddr::V4(destination)) => self.ipv4_probe_request(source, destination),
                (IpAddr::V6(_), IpAddr::V6(_)) => Err(TracerouteError::NoIpv6),
                _ => Err(TracerouteError::IpProtocolMismatch),
            };
            return match begun {
                Ok(request) => Step::Submit(request),
                Err(e) => Step::Yield(Err(e)),
            };
        }
        match polled {
            Polled::Empty => Step::Pending,
            Polled::Closed => {
                self.in_round = false;
                Step::Yield(Ok(self.collect_results()))
            },
            Polled::Item(Err(e)) => Step::Yield(Err(e)),
            Polled::Item(Ok(response)) => {
                self.insert_response(response.get_distance(), hop_for(&response));
                Step::Pending
            },
        }
    }
}

/// What a probe's outcome says of its hop.
pub fn hop_for(response: &TraceResponse) -> (hop: Hop)
    ensures
        hop == hop_of(*response),
{
    match response {
        TraceResponse::Received(response) => Hop::Received(response.destination, response.ping),
        TraceResponse::TimedOut(_) => Hop::TimedOut,
        TraceResponse::Masked(_) => Hop::Masked,
    }
}

/// The sum of `a` and `b`, held at the largest `usize`.
pub open spec fn capped_sum(a: nat, b: nat) -> nat {
    if a + b > usize::MAX {
        usize::MAX as nat
    } else {
        a + b
    }
}

/// How a round begins: the trace is in a round and the hop limits that it
/// skips are marked; nothing else changes. Between two IPv4 addresses the
/// request of the round is handed out, or the request's error; between
/// other addresses, the error that says so.
pub open spec fn begun(before: TraceState, after: TraceState, step: Step) -> bool {
    match (before.source, before.destination) {
        (IpAddr::V4(source), IpAddr::V4(destination)) => match request_error(before.options) {
            Some(e) => step matches Step::Yield(Err(err)) && err == e && after == (TraceState {
                in_round: true,
                ..before.marked()
            }),
            None => step matches Step::Submit(request) && is_round_request(request, before.options, source, destination)
                && after == (TraceState { in_round: true, ..before.marked() }),
        },
        (IpAddr::V6(_), IpAddr::V6(_)) => step matches Step::Yield(Err(err)) && err == TracerouteError::NoIpv6 && after == (
        TraceState { in_round: true, ..before }),
        _ => step matches Step::Yield(Err(err)) && err == TracerouteError::IpProtocolMismatch && after == (TraceState {
            in_round: true,
            ..before
        }),
    }
}

/// What a trace in a round makes of a look at its reply channel.
pub open spec fn polled_step(before: TraceState, polled: Polled, after: TraceState, step: Step) -> bool {
    match polled {
        Polled::Empty => step is Pending && after == before,
        Polled::Closed => step matches Step::Yield(Ok(hops)) && hops@ == filled(before.queue) && after == (TraceState {
            in_round: false,
            queue: vacant(before.queue.len()),
            ..before
        }),
        Polled::Item(Err(e)) => step matches Step::Yield(Err(err)) && err == e && after == before,
        Polled::Item(Ok(response)) => step is Pending && after == before.inserted(response),
    }
}

/// Traces with the same source, destination and protocol have the same
/// flow label, whatever else their options say.
pub proof fn lemma_same_trace_same_flow(a: TraceState, b: TraceState)
    requires
        a.source == b.source,
        a.destination == b.destination,
        a.options.protocol == b.options.protocol,
    ensures
        spec_trace_flowhash(a.source, a.destination, a.options.protocol) == spec_trace_flowhash(b.source, b.destination, b.options.protocol),
{
}

/// The probes of a round's request all belong to one flow, and the request
/// can be sent: each packet has the 52 bytes of a probe packet.
pub proof fn lemma_round_request_one_flow(request: TraceRequest, options: TraceOptions, source: Ipv4Addr, destination: Ipv4Addr)
    requires
        is_round_request(request, options, source, destination),
    ensures
        request matches TraceRequest::V4 { bundles, .. } && crate::sockets::senders::sendable(bundles@) && forall|i: int|
            0 <= i < bundles@.len() ==> (#[trigger] bundles@[i]).packet@.len() == 52,
{
    let bundles = request->V4_bundles;
    assert forall|i: int| 0 <= i < bundles@.len() implies (#[trigger] bundles@[i]).packet@.len() == 52 && bundles@[i].probe.flowhash
        == bundles@[0].probe.flowhash by {
        assert(built_as(bundles@[i], options.protocol, source, destination, bundles@[i].probe.ttl));
        assert(built_as(bundles@[0], options.protocol, source, destination, bundles@[0].probe.ttl));
    }
}

} // verus!
