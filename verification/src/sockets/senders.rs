//! The sending actor: it takes the requests of the traces, sends their
//! packets in order, and hands the probes it sent over to the receiver.
//!
//! The actor's decisions are [`sender_step`] and the methods of [`Batch`].
//! Its owner polls the channel, writes to the socket and reads the clock.

use crate::addr::{bits_of_octets, IpAddr, Ipv4Addr, Ipv6Addr};
use crate::error::{IoError, TracerouteError};
use crate::prelude::{Duration, Instant};
use crate::probe::{ProbeBundle, ProbeSent};
use crate::trace::sent::one_flow;
use crate::trace::{TraceRequest, TraceSent};
use vstd::prelude::*;

verus! {

/// How long the sender sleeps when no request waits: 10 milliseconds.
pub const IDLE_SLEEP: Duration = 10_000_000;

/// The addresses that one socket can send from.
pub struct SocketSender<I> {
    pub addresses: Vec<I>,
}

impl<I> SocketSender<I> {
    pub fn new(addresses: Vec<I>) -> (sender: Self)
        ensures
            sender.addresses == addresses,
    {
        Self { addresses }
    }
}

/// The sockets that the sender holds: one for IPv4, one for IPv6, or both.
pub enum SocketSenders {
    V4(SocketSender<Ipv4Addr>),
    V6(SocketSender<Ipv6Addr>),
    Both { v4: SocketSender<Ipv4Addr>, v6: SocketSender<Ipv6Addr> },
}

/// The IPv4 addresses `v4` followed by the IPv6 addresses `v6`.
pub open spec fn all_addresses(v4: Seq<Ipv4Addr>, v6: Seq<Ipv6Addr>) -> Seq<IpAddr> {
    Seq::new(v4.len(), |i: int| IpAddr::V4(v4[i])) + Seq::new(v6.len(), |i: int| IpAddr::V6(v6[i]))
}

impl SocketSenders {
    /// The IPv4 addresses that can be sent from.
    pub open spec fn v4_addresses(self) -> Seq<Ipv4Addr> {
        match self {
            SocketSenders::V4(socket) => socket.addresses@,
            SocketSenders::V6(_) => Seq::empty(),
            SocketSenders::Both { v4, .. } => v4.addresses@,
        }
    }

    /// The IPv6 addresses that can be sent from.
    pub open spec fn v6_addresses(self) -> Seq<Ipv6Addr> {
        match self {
            SocketSenders::V4(_) => Seq::empty(),
            SocketSenders::V6(socket) => socket.addresses@,
            SocketSenders::Both { v6, .. } => v6.addresses@,
        }
    }

    /// The addresses that can be sent from: those of IPv4 first.
    pub fn addresses(&self) -> (all: Vec<IpAddr>)
        ensures
            all@ == all_addresses(self.v4_addresses(), self.v6_addresses()),
    {
        let mut all: Vec<IpAddr> = Vec::new();
        let ghost v4 = self.v4_addresses();
        let ghost v6 = self.v6_addresses();
        match self {
            SocketSenders::V4(socket) => {
                push_v4(&mut all, &socket.addresses);
            },
            SocketSenders::V6(socket) => {
                push_v6(&mut all, &socket.addresses);
            },
            SocketSenders::Both { v4, v6 } => {
                push_v4(&mut all, &v4.addresses);
                push_v6(&mut all, &v6.addresses);
            },
        }
        assert(all@ =~= all_addresses(v4, v6));
        all
    }
}

fn push_v4(all: &mut Vec<IpAddr>, addresses: &Vec<Ipv4Addr>)
    ensures
        final(all)@ == old(all)@ + Seq::new(addresses@.len(), |i: int| IpAddr::V4(addresses@[i])),
{
    let mut i: usize = 0;
    while i < addresses.len()
        invariant
            i <= addresses.len(),
            all@ == old(all)@ + Seq::new(i as nat, |i: int| IpAddr::V4(addresses@[i])),
        decreases addresses.len() - i,
    {
        all.push(IpAddr::V4(addresses[i]));
        assert(all@ =~= old(all)@ + Seq::new((i + 1) as nat, |i: int| IpAddr::V4(addresses@[i])));
        i += 1;
    }
}

fn push_v6(all: &mut Vec<IpAddr>, addresses: &Vec<Ipv6Addr>)
    ensures
        final(all)@ == old(all)@ + Seq::new(addresses@.len(), |i: int| IpAddr::V6(addresses@[i])),
{
    let mut i: usize = 0;
    while i < addresses.len()
        invariant
            i <= addresses.len(),
            all@ == old(all)@ + Seq::new(i as nat, |i: int| IpAddr::V6(addresses@[i])),
        decreases addresses.len() - i,
    {
        all.push(IpAddr::V6(addresses[i]));
        assert(all@ =~= old(all)@ + Seq::new((i + 1) as nat, |i: int| IpAddr::V6(addresses@[i])));
        i += 1;
    }
}

/// Whether the probes of `bundles` all belong to one flow, and each packet
/// has the 20 bytes of an IPv4 header.
pub open spec fn sendable(bundles: Seq<ProbeBundle<Vec<u8>>>) -> bool {
    &&& forall|i: int| 0 <= i < bundles.len() ==> (#[trigger] bundles[i]).probe.flowhash == bundles[0].probe.flowhash
    &&& forall|i: int| 0 <= i < bundles.len() ==> (#[trigger] bundles[i]).packet@.len() >= 20
}

/// Whether `bundles` can be sent: see [`sendable`].
pub fn is_sendable(bundles: &Vec<ProbeBundle<Vec<u8>>>) -> (ok: bool)
    ensures
        ok == sendable(bundles@),
{
    let mut i: usize = 0;
    while i < bundles.len()
        invariant
            i <= bundles.len(),
            forall|j: int| 0 <= j < i ==> (#[trigger] bundles@[j]).probe.flowhash == bundles@[0].probe.flowhash,
            forall|j: int| 0 <= j < i ==> (#[trigger] bundles@[j]).packet@.len() >= 20,
        decreases bundles.len() - i,
    {
        if bundles[i].probe.flowhash != bundles[0].probe.flowhash || bundles[i].packet.len() < 20 {
            return false;
        }
        i += 1;
    }
    true
}

/// The destination address in the IPv4 header that `packet` begins with.
pub open spec fn ipv4_destination(packet: Seq<u8>) -> Ipv4Addr {
    Ipv4Addr { bits: bits_of_octets(packet[16], packet[17], packet[18], packet[19]) as u32 }
}

/// A batch on its way out, as plain mathematical values.
#[verifier::ext_equal]
pub struct BatchState {
    /// The packets of the batch and their probes, in the order of sending
    pub bundles: Seq<ProbeBundle<Vec<u8>>>,
    /// The time that the replies are given
    pub timeout: Duration,
    /// The probes sent so far
    pub sent: Seq<ProbeSent>,
    /// Whether a packet could not be sent, so that no more are
    pub aborted: bool,
}

impl BatchState {
    /// The probes sent so far are those of the first bundles, in order.
    pub open spec fn wf(self) -> bool {
        &&& sendable(self.bundles)
        &&& self.sent.len() <= self.bundles.len()
        &&& forall|i: int| 0 <= i < self.sent.len() ==> #[trigger] self.sent[i] == self.bundles[i].probe.spec_sent(self.sent[i].instant)
    }

    /// Whether a packet is left to send: the batch was not aborted, and not
    /// all its packets were sent.
    pub open spec fn unfinished(self) -> bool {
        !self.aborted && self.sent.len() < self.bundles.len()
    }

    /// The batch of `bundles` with nothing sent yet.
    pub open spec fn fresh(bundles: Seq<ProbeBundle<Vec<u8>>>, timeout: Duration) -> Self {
        BatchState { bundles, timeout, sent: Seq::empty(), aborted: false }
    }
}

/// The batch of one request on its way out: the packets left to send and
/// the probes sent so far.
pub struct Batch {
    bundles: Vec<ProbeBundle<Vec<u8>>>,
    timeout: Duration,
    sent: Vec<ProbeSent>,
    aborted: bool,
}

impl View for Batch {
    type V = BatchState;

    closed spec fn view(&self) -> BatchState {
        BatchState { bundles: self.bundles@, timeout: self.timeout, sent: self.sent@, aborted: self.aborted }
    }
}

impl Batch {
    /// See [`BatchState::wf`].
    pub open spec fn wf(&self) -> bool {
        self@.wf()
    }

    /// The batch of `request`, with nothing sent yet. A request for IPv6 is
    /// refused as long as IPv6 is not supported; so is, as malformed, a
    /// request whose probes are of several flows or whose packets are too
    /// short for an IPv4 header.
    pub fn new(request: TraceRequest) -> (made: Result<Batch, TracerouteError>)
        ensures
            match request {
                TraceRequest::V4 { bundles, timeout } => if sendable(bundles@) {
                    made matches Ok(batch) && batch.wf() && batch@ == BatchState::fresh(bundles@, timeout)
                } else {
                    made matches Err(e) && e == TracerouteError::MalformedPacket
                },
                TraceRequest::V6 { .. } => made matches Err(e) && e == TracerouteError::NoIpv6,
            },
    {
        match request {
            TraceRequest::V4 { bundles, timeout } => {
                if is_sendable(&bundles) {
                    Ok(Batch { bundles, timeout, sent: Vec::new(), aborted: false })
                } else {
                    Err(TracerouteError::MalformedPacket)
                }
            },
            TraceRequest::V6 { .. } => Err(TracerouteError::NoIpv6),
        }
    }

    /// The packet to send next and the address to send it to, the
    /// destination in the packet's own header; nothing when all are sent, or
    /// when the batch was aborted.
    pub fn next_packet(&self) -> (next: Option<(&Vec<u8>, Ipv4Addr)>)
        requires
            self.wf(),
        ensures
            !self@.unfinished() ==> next is None,
            self@.unfinished() ==> (next matches Some((packet, destination)) && packet@ == self@.bundles[self@.sent.len() as int].packet@
                && destination == ipv4_destination(packet@)),
    {
        let i = self.sent.len();
        if !self.aborted && i < self.bundles.len() {
            let packet = &self.bundles[i].packet;
            let destination = Ipv4Addr::new(packet[16], packet[17], packet[18], packet[19]);
            Some((packet, destination))
        } else {
            None
        }
    }

    /// Records that the packet of [`Batch::next_packet`] left at `now`: its
    /// probe is marked as sent then. Changes nothing when no packet was
    /// left to send.
    pub fn mark_sent(&mut self, now: Instant)
        requires
            old(self).wf(),
        ensures
            final(self).wf(),
            old(self)@.unfinished() ==> final(self)@ == (BatchState {
                sent: old(self)@.sent.push(old(self)@.bundles[old(self)@.sent.len() as int].probe.spec_sent(now)),
                ..old(self)@
            }),
            !old(self)@.unfinished() ==> final(self)@ == old(self)@,
    {
        let i = self.sent.len();
        if !self.aborted && i < self.bundles.len() {
            let probe = self.bundles[i].probe;
            self.sent.push(probe.sent(now));
        }
    }

    /// Records that the packet of [`Batch::next_packet`] could not be sent:
    /// the batch is aborted, no more of its packets are sent, and the error
    /// to tell the trace is returned. The probes sent before stay sent: it
    /// is for the receiver to time them out.
    pub fn abort(&mut self, failure: IoError) -> (error: TracerouteError)
        requires
            old(self).wf(),
        ensures
            final(self).wf(),
            final(self)@ == (BatchState { aborted: true, ..old(self)@ }),
            error == TracerouteError::Io(failure),
    {
        self.aborted = true;
        TracerouteError::Io(failure)
    }

    /// Ends the batch, after its last packet or after a packet that could
    /// not be sent: what is handed over to the receiver, the probes sent so
    /// far with the batch's timeout.
    pub fn finish(self) -> (handoff: TraceSent)
        requires
            self.wf(),
        ensures
            handoff.probes@ == self@.sent,
            handoff.timeout == self@.timeout,
            handoff.wf(),
    {
        proof {
            assert(one_flow(self.sent@)) by {
                assert forall|i: int| 0 <= i < self.sent@.len() implies (#[trigger] self.sent@[i]).flowhash == self.sent@[0].flowhash by {
                    assert(self.sent@[i] == self.bundles@[i].probe.spec_sent(self.sent@[i].instant));
                    assert(self.sent@[0] == self.bundles@[0].probe.spec_sent(self.sent@[0].instant));
                    assert(self.bundles@[i].probe.flowhash == self.bundles@[0].probe.flowhash);
                }
            }
        }
        TraceSent { probes: self.sent, timeout: self.timeout }
    }
}

/// What a look at the sender's submission channel found.
pub enum Submission {
    /// No request waits
    Empty,
    /// Every trace and the supervisor have gone
    Disconnected,
    /// A request
    Request(TraceRequest),
}

/// What the sender does after a look at its channel.
pub enum SenderStep {
    /// Leave the loop
    Stop,
    /// Sleep for the span given, then look again
    Sleep(Duration),
    /// Send the packets of the batch, then hand it over
    Send(Batch),
    /// Tell the trace that its request was refused, with the error
    Refuse(TracerouteError),
}

/// What the sender does after a look at its channel: it leaves when the
/// channel is closed, sleeps for [`IDLE_SLEEP`] when no request waits, and
/// makes a batch of a request, or refuses it as [`Batch::new`] does.
pub fn sender_step(polled: Submission) -> (step: SenderStep)
    ensures
        match polled {
            Submission::Empty => step matches SenderStep::Sleep(span) && span == IDLE_SLEEP,
            Submission::Disconnected => step is Stop,
            Submission::Request(TraceRequest::V4 { bundles, timeout }) => if sendable(bundles@) {
                step matches SenderStep::Send(batch) && batch.wf() && batch@ == BatchState::fresh(bundles@, timeout)
            } else {
                step matches SenderStep::Refuse(e) && e == TracerouteError::MalformedPacket
            },
            Submission::Request(TraceRequest::V6 { .. }) => step matches SenderStep::Refuse(e) && e == TracerouteError::NoIpv6,
        },
{
    match polled {
        Submission::Empty => SenderStep::Sleep(IDLE_SLEEP),
        Submission::Disconnected => SenderStep::Stop,
        Submission::Request(request) => match Batch::new(request) {
            Ok(batch) => SenderStep::Send(batch),
            Err(e) => SenderStep::Refuse(e),
        },
    }
}

} // verus!
