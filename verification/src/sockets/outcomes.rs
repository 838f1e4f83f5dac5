//! What the receiver owes each probe: one outcome, and no more.
//!
//! A probe is outstanding from the moment it is handed over until it is
//! answered or timed out; in that very step it leaves the table, so that no
//! later step can give it a second outcome. Replies that no probe claims
//! give no outcome at all, and a sweep leaves nothing behind that has
//! outlived its time.

use crate::addr::{IpAddr, Ipv4Addr};
use crate::packet::ipv4::{be_value, lemma_packet_reads_back, probe_udp_checksum, udp_probe_packet};
use crate::packet::reply::{
    ipv4_source, lemma_reply_reads_probe, spec_handle_ipv4_packet, ICMP_DESTINATION_UNREACHABLE, ICMP_ECHO_REPLY,
    ICMP_TIME_EXCEEDED, IP_PROTOCOL_ICMP,
};
use crate::protocol::UdpParams;
use crate::prelude::{Duration, Flowhash, Instant, TcpId};
use crate::probe::response::elapsed;
use crate::probe::{ProbeResponse, ProbeSent};
use crate::sockets::receivers::{has_probe_of, timed_out, Arrival, ReceiverState, UNMATCHED_PACKETS_TIMEOUT};
use crate::trace::TraceResponse;
use vstd::prelude::*;

verus! {

/// Whether no two of `probes` carry the same identification.
pub open spec fn distinct_ids(probes: Seq<ProbeSent>) -> bool {
    forall|i: int, j: int| 0 <= i < j < probes.len() ==> probes[i].id != probes[j].id
}

/// Whether none of `probes` carries an identification under which a probe
/// waits in `state`.
pub open spec fn none_waiting(state: ReceiverState, probes: Seq<ProbeSent>) -> bool {
    forall|i: int| 0 <= i < probes.len() ==> !state.probes.contains_key((#[trigger] probes[i]).id)
}

/// The answer that the reply waiting for `sent` in `state` gives it.
pub open spec fn early_answer(state: ReceiverState, sent: ProbeSent) -> TraceResponse {
    TraceResponse::Received(ProbeResponse::spec_new(sent, state.unmatched[sent.id].source, state.unmatched[sent.id].instant))
}

/// Whether `probes` holds a probe with the identification `id`.
pub open spec fn has_id(probes: Seq<ProbeSent>, id: TcpId) -> bool {
    exists|i: int| 0 <= i < probes.len() && (#[trigger] probes[i]).id == id
}

/// Handing over a batch, no two of whose probes share an identification
/// and none of which is waited for already, gives each probe of the batch
/// its due: a probe whose reply waits is answered by it, once, and does not
/// wait; every other probe waits and gets no answer. Probes that waited
/// before still wait, and only replies that were claimed have left.
pub proof fn lemma_claim_all_settles(state: ReceiverState, probes: Seq<ProbeSent>)
    requires
        distinct_ids(probes),
        none_waiting(state, probes),
    ensures
        ({
            let (after, answers) = state.claim_all(probes);
            &&& after.flows == state.flows
            &&& forall|k: int| 0 <= k < answers.len() ==> exists|i: int| 0 <= i < probes.len() && state.unmatched.contains_key(probes[i].id)
                && #[trigger] answers[k] == early_answer(state, probes[i])
            &&& forall|i: int| 0 <= i < probes.len() && state.unmatched.contains_key((#[trigger] probes[i]).id) ==> answers.contains(
                early_answer(state, probes[i]),
            ) && !after.probes.contains_key(probes[i].id)
            &&& forall|i: int| 0 <= i < probes.len() && !state.unmatched.contains_key((#[trigger] probes[i]).id)
                ==> after.probes.contains_key(probes[i].id) && after.probes[probes[i].id] == probes[i]
            &&& forall|k: int, l: int| 0 <= k < l < answers.len() ==> answers[k]->Received_0.sent.id != answers[l]->Received_0.sent.id
            &&& forall|id: TcpId| #![trigger after.probes.contains_key(id)] after.probes.contains_key(id) <==> state.probes.contains_key(id) || (
            has_id(probes, id) && !state.unmatched.contains_key(id))
            &&& forall|id: TcpId| #![trigger after.probes[id]] state.probes.contains_key(id) ==> after.probes[id] == state.probes[id]
            &&& forall|id: TcpId| #![trigger after.unmatched.contains_key(id)] after.unmatched.contains_key(id) <==> state.unmatched.contains_key(id) && !has_id(
                probes,
                id,
            )
            &&& forall|id: TcpId| #![trigger after.unmatched[id]] after.unmatched.contains_key(id) ==> after.unmatched[id] == state.unmatched[id]
        }),
    decreases probes.len(),
{
    let (after, answers) = state.claim_all(probes);
    if probes.len() == 0 {
        assert forall|id: TcpId| !has_id(probes, id) by {}
    } else {
        let front = probes.drop_last();
        let last = probes.last();
        let n = front.len() as int;
        assert(probes[n] == last);
        assert forall|i: int| 0 <= i < front.len() implies front[i] == probes[i] by {}
        assert(distinct_ids(front));
        assert(none_waiting(state, front)) by {
            assert forall|i: int| 0 <= i < front.len() implies !state.probes.contains_key((#[trigger] front[i]).id) by {
                assert(front[i] == probes[i]);
            }
        }
        lemma_claim_all_settles(state, front);
        let (before, earlier) = state.claim_all(front);
        assert(!has_id(front, last.id)) by {
            if has_id(front, last.id) {
                let i = choose|i: int| 0 <= i < front.len() && (#[trigger] front[i]).id == last.id;
                assert(probes[i].id != probes[n].id);
            }
        }
        assert(!state.probes.contains_key(probes[n].id));
        assert(before.unmatched.contains_key(last.id) <==> state.unmatched.contains_key(last.id));
        assert(!before.probes.contains_key(last.id));
        assert forall|id: TcpId| has_id(probes, id) <==> has_id(front, id) || id == last.id by {
            if has_id(front, id) {
                let i = choose|i: int| 0 <= i < front.len() && (#[trigger] front[i]).id == id;
                assert(probes[i].id == id);
            }
            if has_id(probes, id) {
                let i = choose|i: int| 0 <= i < probes.len() && (#[trigger] probes[i]).id == id;
                if i < n {
                    assert(front[i].id == id);
                }
            }
        }
        if state.unmatched.contains_key(last.id) {
            let answer = early_answer(state, last);
            assert(before.unmatched[last.id] == state.unmatched[last.id]);
            assert(answers == earlier.push(answer));
            assert(answers[earlier.len() as int] == answer);
            assert forall|k: int| 0 <= k < answers.len() implies exists|i: int| 0 <= i < probes.len() && state.unmatched.contains_key(probes[i].id)
                && #[trigger] answers[k] == early_answer(state, probes[i]) by {
                if k < earlier.len() {
                    let i = choose|i: int| 0 <= i < front.len() && state.unmatched.contains_key(front[i].id) && earlier[k] == early_answer(state, front[i]);
                    assert(answers[k] == early_answer(state, probes[i]));
                } else {
                    assert(answers[k] == early_answer(state, probes[n]));
                }
            }
            assert forall|i: int| 0 <= i < probes.len() && state.unmatched.contains_key((#[trigger] probes[i]).id) implies answers.contains(
                early_answer(state, probes[i]),
            ) && !after.probes.contains_key(probes[i].id) by {
                if i < n {
                    assert(front[i] == probes[i]);
                    assert(earlier.contains(early_answer(state, front[i])));
                    let k = choose|k: int| 0 <= k < earlier.len() && earlier[k] == early_answer(state, front[i]);
                    assert(answers[k] == early_answer(state, probes[i]));
                }
            }
            assert forall|i: int| 0 <= i < probes.len() && !state.unmatched.contains_key((#[trigger] probes[i]).id) implies after.probes.contains_key(
                probes[i].id,
            ) && after.probes[probes[i].id] == probes[i] by {
                assert(i < n);
                assert(front[i] == probes[i]);
            }
            assert forall|k: int, l: int| 0 <= k < l < answers.len() implies answers[k]->Received_0.sent.id != answers[l]->Received_0.sent.id by {
                if l == earlier.len() {
                    let i = choose|i: int| 0 <= i < front.len() && state.unmatched.contains_key(front[i].id) && earlier[k] == early_answer(state, front[i]);
                    assert(probes[i].id != probes[n].id);
                }
            }
        } else {
            assert(answers == earlier);
            assert forall|k: int| 0 <= k < answers.len() implies exists|i: int| 0 <= i < probes.len() && state.unmatched.contains_key(probes[i].id)
                && #[trigger] answers[k] == early_answer(state, probes[i]) by {
                let i = choose|i: int| 0 <= i < front.len() && state.unmatched.contains_key(front[i].id) && earlier[k] == early_answer(state, front[i]);
                assert(answers[k] == early_answer(state, probes[i]));
            }
            assert forall|i: int| 0 <= i < probes.len() && state.unmatched.contains_key((#[trigger] probes[i]).id) implies answers.contains(
                early_answer(state, probes[i]),
            ) && !after.probes.contains_key(probes[i].id) by {
                assert(i < n);
                assert(front[i] == probes[i]);
                assert(front[i].id != last.id);
            }
            assert forall|i: int| 0 <= i < probes.len() && !state.unmatched.contains_key((#[trigger] probes[i]).id) implies after.probes.contains_key(
                probes[i].id,
            ) && after.probes[probes[i].id] == probes[i] by {
                if i < n {
                    assert(front[i] == probes[i]);
                    assert(front[i].id != last.id);
                }
            }
        }
    }
}

/// Whether each probe that waits in `state` has waited at `at` no longer
/// than its flow gives it.
pub open spec fn within_timeouts(state: ReceiverState, at: Instant) -> bool {
    forall|id: TcpId| #![trigger state.probes[id]] state.probes.contains_key(id) ==> !timed_out(state.probes[id], state.flows, at)
}

/// A sweep leaves nothing behind that has outlived its time: no probe that
/// has waited longer than its flow gives it, no reply that has waited
/// longer than 10 seconds for a probe, and no flow without a probe.
pub proof fn lemma_sweep_leaves_nothing_stale(state: ReceiverState, now: Instant)
    requires
        state.wf(),
    ensures
        within_timeouts(state.sweep(now), now),
        forall|id: TcpId| #![trigger state.sweep(now).unmatched[id]] state.sweep(now).unmatched.contains_key(id) ==> elapsed(state.sweep(now).unmatched[id].instant, now)
            <= UNMATCHED_PACKETS_TIMEOUT,
        forall|flow: Flowhash| #![trigger state.sweep(now).flows.contains_key(flow)] state.sweep(now).flows.contains_key(flow) ==> has_probe_of(
            state.sweep(now).probes,
            flow,
        ),
{
    let swept = state.sweep(now);
    assert forall|id: TcpId| #![trigger swept.probes[id]] swept.probes.contains_key(id) implies !timed_out(swept.probes[id], swept.flows, now) by {
        assert(has_probe_of(swept.probes, swept.probes[id].flowhash));
        assert(swept.flows[swept.probes[id].flowhash] == state.flows[swept.probes[id].flowhash]);
    }
}

/// Once every probe has waited longer than its flow gives it, a sweep
/// leaves no probe and no flow behind.
pub proof fn lemma_sweep_clears(state: ReceiverState, now: Instant)
    requires
        state.wf(),
        forall|id: TcpId| #![trigger state.probes[id]] state.probes.contains_key(id) ==> timed_out(state.probes[id], state.flows, now),
    ensures
        state.sweep(now).probes == Map::<TcpId, ProbeSent>::empty(),
        state.sweep(now).flows == Map::<Flowhash, Duration>::empty(),
{
    let swept = state.sweep(now);
    assert forall|id: TcpId| !swept.probes.contains_key(id) by {
        if state.probes.contains_key(id) {
            assert(timed_out(state.probes[id], state.flows, now));
        }
    }
    assert(swept.probes =~= Map::<TcpId, ProbeSent>::empty());
    assert(swept.flows =~= Map::<Flowhash, Duration>::empty());
}

/// A probe that was within its time at a sweep and is answered no later
/// than `slack` after the sweep has a round-trip time of no more than its
/// flow's timeout and `slack`.
pub proof fn lemma_ping_bounded(state: ReceiverState, swept_at: Instant, source: IpAddr, id: TcpId, now: Instant, slack: Duration)
    requires
        state.wf(),
        within_timeouts(state, swept_at),
        swept_at <= now,
        now - swept_at <= slack,
    ensures
        state.on_reply(source, id, now).1 matches Some(TraceResponse::Received(response)) ==> 0 <= response.ping <= state.flows[response.sent.flowhash]
            + slack,
{
    if state.probes.contains_key(id) {
        assert(!timed_out(state.probes[id], state.flows, swept_at));
    }
}

/// A reply that echoes an identification under which no probe waits gives
/// no outcome when it is read, and is gone after a sweep more than 10
/// seconds later, if no batch has claimed it before.
pub proof fn lemma_unclaimed_reply_expires(state: ReceiverState, source: IpAddr, id: TcpId, now: Instant, later: Instant)
    requires
        state.wf(),
        !state.probes.contains_key(id),
        elapsed(now, later) > UNMATCHED_PACKETS_TIMEOUT,
    ensures
        state.on_reply(source, id, now).1 is None,
        state.on_reply(source, id, now).0.probes == state.probes,
        state.on_reply(source, id, now).0.unmatched[id] == (Arrival { source, instant: now }),
        !state.on_reply(source, id, now).0.sweep(later).unmatched.contains_key(id),
{
}

/// A batch is answered only by replies that wait: where no reply waits
/// under the identification of any of its probes, handing the batch over
/// gives no outcome.
pub proof fn lemma_no_answer_without_reply(state: ReceiverState, probes: Seq<ProbeSent>, timeout: Duration)
    requires
        forall|i: int| 0 <= i < probes.len() ==> !state.unmatched.contains_key((#[trigger] probes[i]).id),
    ensures
        state.on_trace_sent(probes, timeout).1 == Seq::<TraceResponse>::empty(),
        state.claim_all(probes).0.unmatched == state.unmatched,
    decreases probes.len(),
{
    if probes.len() > 0 {
        let front = probes.drop_last();
        assert forall|i: int| 0 <= i < front.len() implies !state.unmatched.contains_key((#[trigger] front[i]).id) by {
            assert(front[i] == probes[i]);
        }
        lemma_no_answer_without_reply(state, front, timeout);
        assert(probes.last() == probes[probes.len() - 1]);
    }
}

/// A message that quotes a probe answers the probe that waits under the
/// probe's identification, and that probe waits no longer.
///
/// `outer` is an IPv4 header of five words that carries ICMP and states a
/// total length of at least 56 bytes; `head` is the eight bytes of an ICMP
/// header of an accepted type; the probe is quoted by its first 28 bytes.
pub proof fn lemma_quoted_probe_is_answered(
    state: ReceiverState,
    outer: Seq<u8>,
    head: Seq<u8>,
    params: UdpParams,
    source: Ipv4Addr,
    dest: Ipv4Addr,
    ttl: u8,
    ip_id: u16,
    now: Instant,
)
    requires
        state.wf(),
        state.probes.contains_key(ip_id),
        outer.len() == 20,
        outer[0] % 16 == 5,
        outer[9] == IP_PROTOCOL_ICMP,
        be_value(outer[2], outer[3]) >= 56,
        head.len() == 8,
        head[0] == ICMP_TIME_EXCEEDED || head[0] == ICMP_ECHO_REPLY || head[0] == ICMP_DESTINATION_UNREACHABLE,
    ensures
        ({
            let packet = outer + head + udp_probe_packet(params, source, dest, ttl, ip_id).subrange(0, 28);
            let from = IpAddr::V4(ipv4_source(outer));
            &&& spec_handle_ipv4_packet(packet) == Ok::<(IpAddr, u16, u16), crate::error::TracerouteError>(
                (from, ip_id, probe_udp_checksum(params, source, dest)),
            )
            &&& state.on_reply(from, ip_id, now).1 == Some(
                TraceResponse::Received(ProbeResponse::spec_new(state.probes[ip_id], from, now)),
            )
            &&& !state.on_reply(from, ip_id, now).0.probes.contains_key(ip_id)
        }),
{
    lemma_packet_reads_back(params, source, dest, ttl, ip_id);
    lemma_reply_reads_probe(outer, head, udp_probe_packet(params, source, dest, ttl, ip_id));
}

} // verus!
