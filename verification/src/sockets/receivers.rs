//! The receiving actor: it matches replies to probes, times probes out, and
//! forgets what nobody waits for.
//!
//! The actor's decisions are the methods of [`Receiver`]. Its owner reads the
//! socket and the clock, hands what it read to the methods in the order in
//! which it arrived, and delivers the outcomes they return to the trace that
//! each probe's flow belongs to.

use crate::addr::IpAddr;
use crate::error::TracerouteError;
use crate::packet::reply::{handle_ipv4_packet, spec_handle_ipv4_packet};
use crate::prelude::{Duration, Flowhash, Instant, TcpId};
use crate::probe::response::{duration_since, elapsed};
use crate::probe::{ProbeResponse, ProbeSent};
use crate::trace::{TraceResponse, TraceSent};
use std::collections::HashMap;
use vstd::prelude::*;
use vstd::std_specs::hash::spec_keys_iter;
use vstd::std_specs::iter::IteratorSpec;

verus! {

/// How long the socket is waited on for a packet before the sweep runs:
/// 100 microseconds.
pub const RECEIVE_TIMEOUT: Duration = 100_000;

/// How long a reply that matches no probe is kept for a probe to claim it:
/// 10 seconds.
pub const UNMATCHED_PACKETS_TIMEOUT: Duration = 10_000_000_000;

/// A reply that arrived before the probe it answers was handed over.
#[derive(Clone, Copy, Debug)]
pub struct Arrival {
    /// The address that replied
    pub source: IpAddr,
    /// The instant the reply was read
    pub instant: Instant,
}

/// The receiver's tables as mathematical maps.
#[verifier::ext_equal]
pub struct ReceiverState {
    /// For each flow with probes outstanding, the time its probes are given
    pub flows: Map<Flowhash, Duration>,
    /// The probes that wait for a reply, by identification
    pub probes: Map<TcpId, ProbeSent>,
    /// The replies that wait for a probe, by identification
    pub unmatched: Map<TcpId, Arrival>,
}

impl ReceiverState {
    /// The state of a receiver that has seen nothing yet.
    pub open spec fn empty() -> Self {
        ReceiverState { flows: Map::empty(), probes: Map::empty(), unmatched: Map::empty() }
    }

    /// The tables are consistent: each probe is filed under its own
    /// identification, the flow of each probe is known, and no identification
    /// has both a probe waiting and a reply waiting.
    pub open spec fn wf(self) -> bool {
        &&& forall|id: TcpId| #![trigger self.probes[id]] self.probes.contains_key(id) ==> self.probes[id].id == id
        &&& forall|id: TcpId| #![trigger self.probes[id]] self.probes.contains_key(id) ==> self.flows.contains_key(self.probes[id].flowhash)
        &&& forall|id: TcpId| #![trigger self.probes.contains_key(id)] #![trigger self.unmatched.contains_key(id)] !(self.probes.contains_key(id) && self.unmatched.contains_key(id))
    }

    /// A reply from `source` that echoes `id` is read at `now`: the probe
    /// with that identification, if one waits, is answered and leaves; else
    /// the reply is kept for a probe to claim.
    pub open spec fn on_reply(self, source: IpAddr, id: TcpId, now: Instant) -> (Self, Option<TraceResponse>) {
        if self.probes.contains_key(id) {
            (
                ReceiverState { probes: self.probes.remove(id), ..self },
                Some(TraceResponse::Received(ProbeResponse::spec_new(self.probes[id], source, now))),
            )
        } else {
            (
                ReceiverState { unmatched: self.unmatched.insert(id, Arrival { source, instant: now }), ..self },
                None,
            )
        }
    }

    /// A sent probe is handed over: if its reply waits already, the probe is
    /// answered by it and the reply leaves; else the probe waits.
    pub open spec fn claim(self, sent: ProbeSent) -> (Self, Option<TraceResponse>) {
        if self.unmatched.contains_key(sent.id) {
            let arrival = self.unmatched[sent.id];
            (
                ReceiverState { unmatched: self.unmatched.remove(sent.id), ..self },
                Some(TraceResponse::Received(ProbeResponse::spec_new(sent, arrival.source, arrival.instant))),
            )
        } else {
            (ReceiverState { probes: self.probes.insert(sent.id, sent), ..self }, None)
        }
    }

    /// The probes of a batch are handed over one after another; the answers
    /// come out in the order of the probes.
    pub open spec fn claim_all(self, probes: Seq<ProbeSent>) -> (Self, Seq<TraceResponse>)
        decreases probes.len(),
    {
        if probes.len() == 0 {
            (self, Seq::empty())
        } else {
            let (before, answers) = self.claim_all(probes.drop_last());
            let (after, answer) = before.claim(probes.last());
            (
                after,
                match answer {
                    Some(response) => answers.push(response),
                    None => answers,
                },
            )
        }
    }

    /// A batch is handed over: its probes are claimed in order, and the
    /// batch's flow, that of its first probe, is given the batch's timeout.
    /// An empty batch changes nothing.
    pub open spec fn on_trace_sent(self, probes: Seq<ProbeSent>, timeout: Duration) -> (Self, Seq<TraceResponse>) {
        let (claimed, answers) = self.claim_all(probes);
        if probes.len() == 0 {
            (claimed, answers)
        } else {
            (ReceiverState { flows: claimed.flows.insert(probes[0].flowhash, timeout), ..claimed }, answers)
        }
    }

    /// The tables after a sweep at `now`: the replies that expired are gone,
    /// the probes that timed out are gone, and so are the flows that no
    /// remaining probe belongs to.
    pub open spec fn sweep(self, now: Instant) -> Self {
        let unmatched = live_arrivals(self.unmatched, now);
        let probes = live_probes(self.probes, self.flows, now);
        ReceiverState { flows: flows_in_use(probes, self.flows), probes, unmatched }
    }
}

/// The replies that have not waited longer than [`UNMATCHED_PACKETS_TIMEOUT`].
pub open spec fn live_arrivals(unmatched: Map<TcpId, Arrival>, now: Instant) -> Map<TcpId, Arrival> {
    unmatched.remove_keys(
        Set::new(|id: TcpId| unmatched.contains_key(id) && elapsed(unmatched[id].instant, now) > UNMATCHED_PACKETS_TIMEOUT),
    )
}

/// Whether `sent` has waited longer at `now` than its flow gives it.
pub open spec fn timed_out(sent: ProbeSent, flows: Map<Flowhash, Duration>, now: Instant) -> bool {
    elapsed(sent.instant, now) > flows[sent.flowhash]
}

/// The probes that have not waited longer than their flows give them.
pub open spec fn live_probes(probes: Map<TcpId, ProbeSent>, flows: Map<Flowhash, Duration>, now: Instant) -> Map<TcpId, ProbeSent> {
    probes.remove_keys(Set::new(|id: TcpId| probes.contains_key(id) && timed_out(probes[id], flows, now)))
}

/// Whether `sent` is one of `probes` and has timed out at `now`.
pub open spec fn is_stale(sent: ProbeSent, probes: Map<TcpId, ProbeSent>, flows: Map<Flowhash, Duration>, now: Instant) -> bool {
    probes.contains_key(sent.id) && probes[sent.id] == sent && timed_out(sent, flows, now)
}

/// Whether one of `probes` belongs to `flow`.
pub open spec fn has_probe_of(probes: Map<TcpId, ProbeSent>, flow: Flowhash) -> bool {
    exists|id: TcpId| probes.contains_key(id) && (#[trigger] probes[id]).flowhash == flow
}

/// The flows that one of `probes` belongs to.
pub open spec fn flows_in_use(probes: Map<TcpId, ProbeSent>, flows: Map<Flowhash, Duration>) -> Map<Flowhash, Duration> {
    flows.remove_keys(Set::new(|flow: Flowhash| flows.contains_key(flow) && !has_probe_of(probes, flow)))
}

/// The keys of `m`, each once, in the order in which the map hands them out.
pub fn keys_of<V>(m: &HashMap<u16, V>) -> (keys: Vec<u16>)
    ensures
        keys@.no_duplicates(),
        keys@.to_set() == m@.dom(),
        keys@.len() == m@.dom().len(),
{
    let mut keys: Vec<u16> = Vec::new();
    let ghost all = spec_keys_iter(m).remaining();
    for k in it: m.keys()
        invariant
            it.seq() == all,
            all == spec_keys_iter(m).remaining(),
            keys@ == all.unref().take(it.index()),
    {
        keys.push(*k);
        proof {
            assert(all.unref().take(it.index() + 1) =~= all.unref().take(it.index()).push(*k));
        }
    }
    proof {
        assert(keys@ =~= all.unref());
    }
    keys
}

/// Forgets the replies that have waited longer than
/// [`UNMATCHED_PACKETS_TIMEOUT`] for a probe to claim them.
pub fn remove_expired_unmatched_packets(now: Instant, unmatched_packets: &mut HashMap<TcpId, Arrival>)
    ensures
        final(unmatched_packets)@ == live_arrivals(old(unmatched_packets)@, now),
{
    let ids = keys_of(unmatched_packets);
    let ghost start = unmatched_packets@;
    let mut i: usize = 0;
    while i < ids.len()
        invariant
            i <= ids.len(),
            ids@.no_duplicates(),
            ids@.to_set() == start.dom(),
            forall|id: TcpId| #![trigger unmatched_packets@.contains_key(id)] unmatched_packets@.contains_key(id) ==> start.contains_key(id) && unmatched_packets@[id] == start[id],
            forall|j: int| 0 <= j < i ==> (unmatched_packets@.contains_key(#[trigger] ids@[j]) <==> !(elapsed(start[ids@[j]].instant, now) > UNMATCHED_PACKETS_TIMEOUT)),
            forall|j: int| i <= j < ids.len() ==> unmatched_packets@.contains_key(#[trigger] ids@[j]),
        decreases ids.len() - i,
    {
        let id = ids[i];
        proof {
            assert(ids@.to_set().contains(ids@[i as int]));
        }
        let expired = match unmatched_packets.get(&id) {
            Some(arrival) => duration_since(now, arrival.instant) > UNMATCHED_PACKETS_TIMEOUT,
            None => false,
        };
        if expired {
            let _ = unmatched_packets.remove(&id);
        }
        i += 1;
    }
    proof {
        let swept = live_arrivals(start, now);
        assert forall|id: TcpId| swept.contains_key(id) <==> unmatched_packets@.contains_key(id) by {
            if start.contains_key(id) {
                assert(ids@.to_set().contains(id));
                let j = choose|j: int| 0 <= j < ids@.len() && ids@[j] == id;
                assert(ids@[j] == id);
            }
        }
        assert(unmatched_packets@ =~= swept);
    }
}

/// Whether each of `probes` is filed under its own identification and
/// belongs to one of `flows`.
pub open spec fn probes_filed(probes: Map<TcpId, ProbeSent>, flows: Map<Flowhash, Duration>) -> bool {
    &&& forall|id: TcpId| #![trigger probes[id]] probes.contains_key(id) ==> probes[id].id == id
    &&& forall|id: TcpId| #![trigger probes[id]] probes.contains_key(id) ==> flows.contains_key(probes[id].flowhash)
}

/// Takes out the probes that have waited longer than their flows give them,
/// and returns them, each once.
pub fn remove_timed_out_probes(now: Instant, probes: &mut HashMap<TcpId, ProbeSent>, flows: &HashMap<Flowhash, Duration>) -> (stale: Vec<ProbeSent>)
    requires
        probes_filed(old(probes)@, flows@),
    ensures
        final(probes)@ == live_probes(old(probes)@, flows@, now),
        stale@.no_duplicates(),
        forall|sent: ProbeSent| stale@.contains(sent) <==> is_stale(sent, old(probes)@, flows@, now),
{
    let ids = keys_of(probes);
    let ghost start = probes@;
    let mut stale: Vec<ProbeSent> = Vec::new();
    let mut i: usize = 0;
    while i < ids.len()
        invariant
            i <= ids.len(),
            ids@.no_duplicates(),
            ids@.to_set() == start.dom(),
            probes_filed(start, flows@),
            forall|id: TcpId| #![trigger probes@.contains_key(id)] probes@.contains_key(id) ==> start.contains_key(id) && probes@[id] == start[id],
            forall|j: int| 0 <= j < i ==> (probes@.contains_key(#[trigger] ids@[j]) <==> !timed_out(start[ids@[j]], flows@, now)),
            forall|j: int| i <= j < ids.len() ==> probes@.contains_key(#[trigger] ids@[j]),
            forall|k: int| 0 <= k < stale@.len() ==> is_stale(#[trigger] stale@[k], start, flows@, now),
            forall|k: int| 0 <= k < stale@.len() ==> exists|j: int| 0 <= j < i && ids@[j] == (#[trigger] stale@[k]).id,
            forall|j: int| 0 <= j < i && timed_out(start[#[trigger] ids@[j]], flows@, now) ==> stale@.contains(start[ids@[j]]),
            forall|k: int, l: int| 0 <= k < l < stale@.len() ==> (#[trigger] stale@[k]).id != (#[trigger] stale@[l]).id,
        decreases ids.len() - i,
    {
        let id = ids[i];
        proof {
            assert(ids@.to_set().contains(ids@[i as int]));
        }
        let found = match probes.get(&id) {
            Some(sent) => Some(*sent),
            None => None,
        };
        if let Some(sent) = found {
            assert(sent == start[id]);
            let late = match flows.get(&sent.flowhash) {
                Some(timeout) => duration_since(now, sent.instant) > *timeout,
                None => false,
            };
            if late {
                let _ = probes.remove(&id);
                let ghost before = stale@;
                stale.push(sent);
                proof {
                    assert(stale@ == before.push(sent));
                    assert(stale@[before.len() as int] == sent);
                    assert forall|j: int| 0 <= j < i + 1 && timed_out(start[#[trigger] ids@[j]], flows@, now) implies stale@.contains(start[ids@[j]]) by {
                        if j < i {
                            assert(before.contains(start[ids@[j]]));
                            let k = choose|k: int| 0 <= k < before.len() && before[k] == start[ids@[j]];
                            assert(stale@[k] == start[ids@[j]]);
                        }
                    }
                    assert forall|k: int| 0 <= k < stale@.len() implies exists|j: int| 0 <= j < i + 1 && ids@[j] == (#[trigger] stale@[k]).id by {
                        if k < before.len() {
                            let j = choose|j: int| 0 <= j < i && ids@[j] == before[k].id;
                            assert(ids@[j] == stale@[k].id);
                        } else {
                            assert(ids@[i as int] == stale@[k].id);
                        }
                    }
                    assert forall|k: int, l: int| 0 <= k < l < stale@.len() implies (#[trigger] stale@[k]).id != (#[trigger] stale@[l]).id by {
                        if l == before.len() {
                            let j = choose|j: int| 0 <= j < i && ids@[j] == before[k].id;
                            assert(ids@[j] != ids@[i as int]);
                        }
                    }
                }
            }
        }
        i += 1;
    }
    proof {
        let swept = live_probes(start, flows@, now);
        assert forall|id: TcpId| swept.contains_key(id) <==> probes@.contains_key(id) by {
            if start.contains_key(id) {
                assert(ids@.to_set().contains(id));
                let j = choose|j: int| 0 <= j < ids@.len() && ids@[j] == id;
                assert(ids@[j] == id);
            }
        }
        assert(probes@ =~= swept);
        assert forall|sent: ProbeSent| stale@.contains(sent) <==> is_stale(sent, start, flows@, now) by {
            if is_stale(sent, start, flows@, now) {
                assert(ids@.to_set().contains(sent.id));
                let j = choose|j: int| 0 <= j < ids@.len() && ids@[j] == sent.id;
                assert(stale@.contains(start[ids@[j]]));
            }
            if stale@.contains(sent) {
                let k = choose|k: int| 0 <= k < stale@.len() && stale@[k] == sent;
                assert(is_stale(stale@[k], start, flows@, now));
            }
        }
        assert forall|k: int, l: int| 0 <= k < stale@.len() && 0 <= l < stale@.len() && k != l implies stale@[k] != stale@[l] by {
            if k < l {
                assert(stale@[k].id != stale@[l].id);
            } else {
                assert(stale@[l].id != stale@[k].id);
            }
        }
    }
    stale
}

/// Whether one of `probes` belongs to `flow`. `ids` are the probes'
/// identifications.
fn probe_of_flow(probes: &HashMap<TcpId, ProbeSent>, ids: &Vec<TcpId>, flow: Flowhash) -> (found: bool)
    requires
        ids@.to_set() == probes@.dom(),
    ensures
        found == has_probe_of(probes@, flow),
{
    let mut i: usize = 0;
    while i < ids.len()
        invariant
            i <= ids.len(),
            ids@.to_set() == probes@.dom(),
            forall|j: int| 0 <= j < i ==> probes@[#[trigger] ids@[j]].flowhash != flow,
        decreases ids.len() - i,
    {
        proof {
            assert(ids@.to_set().contains(ids@[i as int]));
        }
        if let Some(sent) = probes.get(&ids[i]) {
            if sent.flowhash == flow {
                assert(probes@.contains_key(ids@[i as int]) && probes@[ids@[i as int]].flowhash == flow);
                return true;
            }
        }
        i += 1;
    }
    proof {
        if has_probe_of(probes@, flow) {
            let id = choose|id: TcpId| probes@.contains_key(id) && (#[trigger] probes@[id]).flowhash == flow;
            assert(ids@.to_set().contains(id));
            let j = choose|j: int| 0 <= j < ids@.len() && ids@[j] == id;
            assert(probes@[ids@[j]].flowhash != flow);
        }
    }
    false
}

/// Whether `flow` is one of `flows` and none of `probes` belongs to it.
pub open spec fn is_idle(flow: Flowhash, probes: Map<TcpId, ProbeSent>, flows: Map<Flowhash, Duration>) -> bool {
    flows.contains_key(flow) && !has_probe_of(probes, flow)
}

/// Takes out the flows that none of `probes` belongs to, and returns their
/// labels, each once.
pub fn remove_empty_flows(probes: &HashMap<TcpId, ProbeSent>, flows: &mut HashMap<Flowhash, Duration>) -> (closed: Vec<Flowhash>)
    ensures
        final(flows)@ == flows_in_use(probes@, old(flows)@),
        closed@.no_duplicates(),
        forall|flow: Flowhash| closed@.contains(flow) <==> is_idle(flow, probes@, old(flows)@),
{
    let ids = keys_of(probes);
    let labels = keys_of(flows);
    let ghost start = flows@;
    let mut closed: Vec<Flowhash> = Vec::new();
    let mut i: usize = 0;
    while i < labels.len()
        invariant
            i <= labels.len(),
            ids@.to_set() == probes@.dom(),
            labels@.no_duplicates(),
            labels@.to_set() == start.dom(),
            forall|flow: Flowhash| #![trigger flows@.contains_key(flow)] flows@.contains_key(flow) ==> start.contains_key(flow) && flows@[flow] == start[flow],
            forall|j: int| 0 <= j < i ==> (flows@.contains_key(#[trigger] labels@[j]) <==> has_probe_of(probes@, labels@[j])),
            forall|j: int| i <= j < labels.len() ==> flows@.contains_key(#[trigger] labels@[j]),
            forall|k: int| 0 <= k < closed@.len() ==> is_idle(#[trigger] closed@[k], probes@, start),
            forall|k: int| 0 <= k < closed@.len() ==> exists|j: int| 0 <= j < i && labels@[j] == #[trigger] closed@[k],
            forall|j: int| 0 <= j < i && !has_probe_of(probes@, #[trigger] labels@[j]) ==> closed@.contains(labels@[j]),
            closed@.no_duplicates(),
        decreases labels.len() - i,
    {
        let flow = labels[i];
        proof {
            assert(labels@.to_set().contains(labels@[i as int]));
        }
        if !probe_of_flow(probes, &ids, flow) {
            let _ = flows.remove(&flow);
            let ghost before = closed@;
            closed.push(flow);
            proof {
                assert(closed@ == before.push(flow));
                assert(closed@[before.len() as int] == flow);
                assert forall|j: int| 0 <= j < i + 1 && !has_probe_of(probes@, #[trigger] labels@[j]) implies closed@.contains(labels@[j]) by {
                    if j < i {
                        assert(before.contains(labels@[j]));
                        let k = choose|k: int| 0 <= k < before.len() && before[k] == labels@[j];
                        assert(closed@[k] == labels@[j]);
                    }
                }
                assert forall|k: int| 0 <= k < closed@.len() implies exists|j: int| 0 <= j < i + 1 && labels@[j] == #[trigger] closed@[k] by {
                    if k < before.len() {
                        let j = choose|j: int| 0 <= j < i && labels@[j] == before[k];
                        assert(labels@[j] == closed@[k]);
                    } else {
                        assert(labels@[i as int] == closed@[k]);
                    }
                }
                assert forall|k: int, l: int| 0 <= k < closed@.len() && 0 <= l < closed@.len() && k != l implies closed@[k] != closed@[l] by {
                    if k < before.len() && l < before.len() {
                        assert(before[k] != before[l]);
                    } else if k < before.len() {
                        let j = choose|j: int| 0 <= j < i && labels@[j] == before[k];
                        assert(labels@[j] != labels@[i as int]);
                    } else {
                        let j = choose|j: int| 0 <= j < i && labels@[j] == before[l];
                        assert(labels@[j] != labels@[i as int]);
                    }
                }
            }
        }
        i += 1;
    }
    proof {
        let swept = flows_in_use(probes@, start);
        assert forall|flow: Flowhash| swept.contains_key(flow) <==> flows@.contains_key(flow) by {
            if start.contains_key(flow) {
                assert(labels@.to_set().contains(flow));
                let j = choose|j: int| 0 <= j < labels@.len() && labels@[j] == flow;
                assert(labels@[j] == flow);
            }
        }
        assert(flows@ =~= swept);
        assert forall|flow: Flowhash| closed@.contains(flow) <==> is_idle(flow, probes@, start) by {
            if is_idle(flow, probes@, start) {
                assert(labels@.to_set().contains(flow));
                let j = choose|j: int| 0 <= j < labels@.len() && labels@[j] == flow;
                assert(closed@.contains(labels@[j]));
            }
            if closed@.contains(flow) {
                let k = choose|k: int| 0 <= k < closed@.len() && closed@[k] == flow;
                assert(is_idle(closed@[k], probes@, start));
            }
        }
    }
    closed
}

/// What a sweep took out.
pub struct Sweep {
    /// The probes that timed out, each once; each is owed a `TimedOut` to the
    /// trace of its flow
    pub timed_out: Vec<ProbeSent>,
    /// The flows that no probe belongs to any more, each once; the trace of
    /// each is to be told that its round is over
    pub closed: Vec<Flowhash>,
}

/// The receiving actor's tables.
pub struct Receiver {
    flows: HashMap<Flowhash, Duration>,
    probes: HashMap<TcpId, ProbeSent>,
    unmatched: HashMap<TcpId, Arrival>,
}

impl View for Receiver {
    type V = ReceiverState;

    closed spec fn view(&self) -> ReceiverState {
        ReceiverState { flows: self.flows@, probes: self.probes@, unmatched: self.unmatched@ }
    }
}

impl ReceiverState {
    /// As [`ReceiverState::wf`], but a probe may also belong to `flow`, known
    /// or not.
    pub open spec fn wf_but(self, flow: Flowhash) -> bool {
        &&& forall|id: TcpId| #![trigger self.probes[id]] self.probes.contains_key(id) ==> self.probes[id].id == id
        &&& forall|id: TcpId| #![trigger self.probes[id]] self.probes.contains_key(id) ==> self.flows.contains_key(self.probes[id].flowhash) || self.probes[id].flowhash == flow
        &&& forall|id: TcpId| #![trigger self.probes.contains_key(id)] #![trigger self.unmatched.contains_key(id)] !(self.probes.contains_key(id) && self.unmatched.contains_key(id))
    }
}

/// Handing over probes that all belong to `flow` leaves the flows as they
/// were and the tables consistent but for that flow.
pub proof fn lemma_claim_all(state: ReceiverState, probes: Seq<ProbeSent>, flow: Flowhash)
    requires
        state.wf_but(flow),
        forall|i: int| 0 <= i < probes.len() ==> (#[trigger] probes[i]).flowhash == flow,
    ensures
        state.claim_all(probes).0.wf_but(flow),
        state.claim_all(probes).0.flows == state.flows,
    decreases probes.len(),
{
    if probes.len() > 0 {
        lemma_claim_all(state, probes.drop_last(), flow);
        let before = state.claim_all(probes.drop_last()).0;
        let after = before.claim(probes.last()).0;
        assert(probes.last() == probes[probes.len() - 1]);
        assert(after.wf_but(flow));
    }
}

/// A well-formed batch handed to consistent tables leaves them consistent.
pub proof fn lemma_on_trace_sent_wf(state: ReceiverState, probes: Seq<ProbeSent>, timeout: Duration)
    requires
        state.wf(),
        crate::trace::sent::one_flow(probes),
    ensures
        state.on_trace_sent(probes, timeout).0.wf(),
{
    if probes.len() > 0 {
        lemma_claim_all(state, probes, probes[0].flowhash);
    }
}

/// A reply read by consistent tables leaves them consistent.
pub proof fn lemma_on_reply_wf(state: ReceiverState, source: IpAddr, id: TcpId, now: Instant)
    requires
        state.wf(),
    ensures
        state.on_reply(source, id, now).0.wf(),
{
}

/// A sweep of consistent tables leaves them consistent.
pub proof fn lemma_sweep_wf(state: ReceiverState, now: Instant)
    requires
        state.wf(),
    ensures
        state.sweep(now).wf(),
{
    let swept = state.sweep(now);
    assert forall|id: TcpId| #![trigger swept.probes[id]] swept.probes.contains_key(id) implies swept.flows.contains_key(swept.probes[id].flowhash) by {
        assert(state.probes.contains_key(id));
        assert(has_probe_of(swept.probes, swept.probes[id].flowhash));
    }
}

impl Receiver {
    /// The tables are consistent: see [`ReceiverState::wf`].
    pub open spec fn wf(&self) -> bool {
        self@.wf()
    }

    /// A receiver that has seen nothing yet.
    pub fn new() -> (receiver: Self)
        ensures
            receiver@ == ReceiverState::empty(),
            receiver.wf(),
    {
        Receiver { flows: HashMap::new(), probes: HashMap::new(), unmatched: HashMap::new() }
    }

    /// Takes a batch from the sender. Each probe whose reply came before it
    /// is answered at once: those answers are returned, in the order of the
    /// probes. The others wait, and the batch's flow is given its timeout.
    pub fn on_trace_sent(&mut self, sent: TraceSent) -> (answers: Vec<TraceResponse>)
        requires
            old(self).wf(),
            sent.wf(),
        ensures
            (final(self)@, answers@) == old(self)@.on_trace_sent(sent.probes@, sent.timeout),
            final(self).wf(),
    {
        let TraceSent { probes, timeout } = sent;
        let ghost start = self@;
        let mut answers: Vec<TraceResponse> = Vec::new();
        let mut i: usize = 0;
        while i < probes.len()
            invariant
                i <= probes.len(),
                (self@, answers@) == start.claim_all(probes@.take(i as int)),
            decreases probes.len() - i,
        {
            let probe = probes[i];
            proof {
                assert(probes@.take(i + 1).drop_last() == probes@.take(i as int));
                assert(probes@.take(i + 1).last() == probe);
            }
            let ghost before = self@;
            let ghost earlier = answers@;
            match self.unmatched.remove(&probe.id) {
                Some(arrival) => {
                    answers.push(TraceResponse::Received(ProbeResponse::new(probe, arrival.source, arrival.instant)));
                },
                None => {
                    let _ = self.probes.insert(probe.id, probe);
                },
            }
            proof {
                let (after, answer) = before.claim(probe);
                assert(self@ =~~= after);
                assert(answers@ =~= match answer {
                    Some(response) => earlier.push(response),
                    None => earlier,
                });
            }
            i += 1;
        }
        proof {
            assert(probes@.take(probes@.len() as int) == probes@);
            lemma_on_trace_sent_wf(start, probes@, timeout);
        }
        if probes.len() > 0 {
            let _ = self.flows.insert(probes[0].flowhash, timeout);
        }
        answers
    }

    /// Takes a reply from `source` that echoes the identification `id`, read
    /// at `now`. If the probe it answers waits, the probe leaves and its
    /// answer is returned; else the reply is kept, for a later batch to
    /// claim, and nothing is returned.
    pub fn on_reply(&mut self, source: IpAddr, id: TcpId, now: Instant) -> (answer: Option<TraceResponse>)
        requires
            old(self).wf(),
        ensures
            (final(self)@, answer) == old(self)@.on_reply(source, id, now),
            final(self).wf(),
    {
        let ghost start = self@;
        let answer = match self.probes.remove(&id) {
            Some(sent) => Some(TraceResponse::Received(ProbeResponse::new(sent, source, now))),
            None => {
                let _ = self.unmatched.insert(id, Arrival { source, instant: now });
                None
            },
        };
        proof {
            assert(self@ =~~= start.on_reply(source, id, now).0);
            lemma_on_reply_wf(start, source, id, now);
        }
        answer
    }

    /// Takes a packet read from the socket at `now`. A packet that is no
    /// reply to a probe is refused with the error that says why, and changes
    /// nothing; a reply is handled as [`Receiver::on_reply`] does.
    pub fn on_packet(&mut self, packet: &[u8], now: Instant) -> (handled: Result<Option<TraceResponse>, TracerouteError>)
        requires
            old(self).wf(),
        ensures
            final(self).wf(),
            match spec_handle_ipv4_packet(packet@) {
                Ok((source, id, _)) => handled is Ok && (final(self)@, handled->Ok_0) == old(self)@.on_reply(source, id, now),
                Err(e) => handled == Err::<Option<TraceResponse>, TracerouteError>(e) && final(self)@ == old(self)@,
            },
    {
        match handle_ipv4_packet(packet) {
            Ok((source, id, _checksum)) => Ok(self.on_reply(source, id, now)),
            Err(e) => Err(e),
        }
    }

    /// Sweeps the tables at `now`: forgets the replies that no probe claimed
    /// in time, takes out the probes that timed out, and then the flows that
    /// no probe belongs to any more.
    pub fn sweep(&mut self, now: Instant) -> (swept: Sweep)
        requires
            old(self).wf(),
        ensures
            final(self)@ == old(self)@.sweep(now),
            final(self).wf(),
            swept.timed_out@.no_duplicates(),
            forall|sent: ProbeSent| swept.timed_out@.contains(sent) <==> is_stale(sent, old(self)@.probes, old(self)@.flows, now),
            swept.closed@.no_duplicates(),
            forall|flow: Flowhash| swept.closed@.contains(flow) <==> is_idle(flow, final(self)@.probes, old(self)@.flows),
    {
        proof {
            lemma_sweep_wf(self@, now);
        }
        remove_expired_unmatched_packets(now, &mut self.unmatched);
        let timed_out = remove_timed_out_probes(now, &mut self.probes, &self.flows);
        let closed = remove_empty_flows(&self.probes, &mut self.flows);
        Sweep { timed_out, closed }
    }

    /// How many probes wait for a reply.
    pub fn probe_count(&self) -> (count: usize)
        ensures
            count == self@.probes.len(),
    {
        self.probes.len()
    }

    /// How many flows have probes outstanding.
    pub fn flow_count(&self) -> (count: usize)
        ensures
            count == self@.flows.len(),
    {
        self.flows.len()
    }

    /// How many replies wait for a probe to claim them.
    pub fn unmatched_count(&self) -> (count: usize)
        ensures
            count == self@.unmatched.len(),
    {
        self.unmatched.len()
    }

    /// The time that the probes of `flow` are given, if the flow is known.
    pub fn timeout_of(&self, flow: Flowhash) -> (timeout: Option<Duration>)
        ensures
            timeout == (if self@.flows.contains_key(flow) {
                Some(self@.flows[flow])
            } else {
                None
            }),
    {
        match self.flows.get(&flow) {
            Some(timeout) => Some(*timeout),
            None => None,
        }
    }
}

} // verus!
