//! The receiver over a whole run of events: batches handed over, replies
//! read and sweeps, in whatever order they come.
//!
//! Over every run the outcomes balance: the outcomes that a probe was given
//! and its waiting at the end are as many as its waiting at the beginning
//! and the times it was handed over. So a probe handed over once is given
//! at most one outcome, and exactly one once it waits no longer; a probe
//! never handed over is given none; and a reply that no probe claims gives
//! none.

use crate::addr::IpAddr;
use crate::prelude::{Duration, Flowhash, Instant, TcpId};
use crate::probe::response::elapsed;
use crate::probe::ProbeSent;
use crate::sockets::outcomes::{
    distinct_ids, early_answer, lemma_claim_all_settles, lemma_sweep_leaves_nothing_stale, none_waiting, within_timeouts,
};
use crate::sockets::receivers::{
    has_probe_of, is_stale, lemma_on_reply_wf, lemma_on_trace_sent_wf, lemma_sweep_wf, ReceiverState,
    UNMATCHED_PACKETS_TIMEOUT,
};
use crate::trace::sent::one_flow;
use crate::trace::TraceResponse;
use vstd::prelude::*;

verus! {

/// What the receiver is given, one thing at a time.
pub enum Event {
    /// A batch from the sender: its probes and the time they are given
    Handoff { probes: Seq<ProbeSent>, timeout: Duration },
    /// A reply read from the socket: who sent it, the identification it
    /// echoes, and when it was read
    Reply { source: IpAddr, id: TcpId, now: Instant },
    /// A sweep of the tables at an instant
    Sweep { now: Instant },
}

/// The tables after `event`.
pub open spec fn after(state: ReceiverState, event: Event) -> ReceiverState {
    match event {
        Event::Handoff { probes, timeout } => state.on_trace_sent(probes, timeout).0,
        Event::Reply { source, id, now } => state.on_reply(source, id, now).0,
        Event::Sweep { now } => state.sweep(now),
    }
}

/// The tables after `events`, one after another.
pub open spec fn after_all(state: ReceiverState, events: Seq<Event>) -> ReceiverState
    decreases events.len(),
{
    if events.len() == 0 {
        state
    } else {
        after(after_all(state, events.drop_last()), events.last())
    }
}

/// Whether `answer` is the answer to the probe `sent`.
pub open spec fn answers(answer: TraceResponse, sent: ProbeSent) -> bool {
    answer matches TraceResponse::Received(response) && response.sent == sent
}

/// How many of `given` are answers to the probe `sent`.
pub open spec fn answers_to(given: Seq<TraceResponse>, sent: ProbeSent) -> nat
    decreases given.len(),
{
    if given.len() == 0 {
        0
    } else {
        answers_to(given.drop_last(), sent) + if answers(given.last(), sent) {
            1nat
        } else {
            0nat
        }
    }
}

/// How many times `sent` is among `probes`.
pub open spec fn times_in(probes: Seq<ProbeSent>, sent: ProbeSent) -> nat
    decreases probes.len(),
{
    if probes.len() == 0 {
        0
    } else {
        times_in(probes.drop_last(), sent) + if probes.last() == sent {
            1nat
        } else {
            0nat
        }
    }
}

/// How many outcomes `event` gives the probe `sent` when it meets the
/// tables `state`: its answers at a handoff, its answer by a reply, its
/// timing out at a sweep.
pub open spec fn outcomes_of(state: ReceiverState, event: Event, sent: ProbeSent) -> nat {
    match event {
        Event::Handoff { probes, timeout } => answers_to(state.on_trace_sent(probes, timeout).1, sent),
        Event::Reply { source, id, now } => match state.on_reply(source, id, now).1 {
            Some(answer) => if answers(answer, sent) {
                1
            } else {
                0
            },
            None => 0,
        },
        Event::Sweep { now } => if is_stale(sent, state.probes, state.flows, now) {
            1
        } else {
            0
        },
    }
}

/// How many outcomes the run of `events` from `state` gives the probe
/// `sent`.
pub open spec fn outcomes_in(state: ReceiverState, events: Seq<Event>, sent: ProbeSent) -> nat
    decreases events.len(),
{
    if events.len() == 0 {
        0
    } else {
        outcomes_in(state, events.drop_last(), sent) + outcomes_of(after_all(state, events.drop_last()), events.last(), sent)
    }
}

/// How many times `event` hands the probe `sent` over.
pub open spec fn handed_by(event: Event, sent: ProbeSent) -> nat {
    match event {
        Event::Handoff { probes, .. } => times_in(probes, sent),
        _ => 0,
    }
}

/// How many times `events` hand the probe `sent` over.
pub open spec fn handed_in(events: Seq<Event>, sent: ProbeSent) -> nat
    decreases events.len(),
{
    if events.len() == 0 {
        0
    } else {
        handed_in(events.drop_last(), sent) + handed_by(events.last(), sent)
    }
}

/// 1 where the probe `sent` waits in `state`, else 0.
pub open spec fn waits(state: ReceiverState, sent: ProbeSent) -> nat {
    if state.probes.contains_key(sent.id) && state.probes[sent.id] == sent {
        1
    } else {
        0
    }
}

/// Whether `event` may meet the tables `state`: a batch is of one flow, no
/// two of its probes carry the same identification, and none carries one
/// under which a probe waits.
pub open spec fn fits(state: ReceiverState, event: Event) -> bool {
    match event {
        Event::Handoff { probes, .. } => one_flow(probes) && distinct_ids(probes) && none_waiting(state, probes),
        _ => true,
    }
}

/// Whether each of `events` fits the tables that it meets in the run from
/// `state`.
pub open spec fn orderly(state: ReceiverState, events: Seq<Event>) -> bool
    decreases events.len(),
{
    if events.len() == 0 {
        true
    } else {
        orderly(state, events.drop_last()) && fits(after_all(state, events.drop_last()), events.last())
    }
}

/// Where none of `given` answers `sent`, no answer to it is counted.
pub proof fn lemma_no_answers(given: Seq<TraceResponse>, sent: ProbeSent)
    requires
        forall|k: int| 0 <= k < given.len() ==> !answers(#[trigger] given[k], sent),
    ensures
        answers_to(given, sent) == 0,
    decreases given.len(),
{
    if given.len() > 0 {
        assert forall|k: int| 0 <= k < given.drop_last().len() implies !answers(#[trigger] given.drop_last()[k], sent) by {
            assert(given.drop_last()[k] == given[k]);
        }
        lemma_no_answers(given.drop_last(), sent);
        assert(given.last() == given[given.len() - 1]);
    }
}

/// Where just the answer at `at` answers `sent`, one answer to it is
/// counted.
pub proof fn lemma_one_answer(given: Seq<TraceResponse>, sent: ProbeSent, at: int)
    requires
        0 <= at < given.len(),
        answers(given[at], sent),
        forall|k: int| 0 <= k < given.len() && k != at ==> !answers(#[trigger] given[k], sent),
    ensures
        answers_to(given, sent) == 1,
    decreases given.len(),
{
    let front = given.drop_last();
    assert(given.last() == given[given.len() - 1]);
    assert forall|k: int| 0 <= k < front.len() implies front[k] == given[k] by {}
    if at == given.len() - 1 {
        assert forall|k: int| 0 <= k < front.len() implies !answers(#[trigger] front[k], sent) by {
            assert(front[k] == given[k]);
        }
        lemma_no_answers(front, sent);
    } else {
        assert forall|k: int| 0 <= k < front.len() && k != at implies !answers(#[trigger] front[k], sent) by {
            assert(front[k] == given[k]);
        }
        lemma_one_answer(front, sent, at);
    }
}

/// Where `sent` is none of `probes`, it is counted no time among them.
pub proof fn lemma_not_among(probes: Seq<ProbeSent>, sent: ProbeSent)
    requires
        forall|k: int| 0 <= k < probes.len() ==> #[trigger] probes[k] != sent,
    ensures
        times_in(probes, sent) == 0,
    decreases probes.len(),
{
    if probes.len() > 0 {
        assert forall|k: int| 0 <= k < probes.drop_last().len() implies #[trigger] probes.drop_last()[k] != sent by {
            assert(probes.drop_last()[k] == probes[k]);
        }
        lemma_not_among(probes.drop_last(), sent);
        assert(probes.last() == probes[probes.len() - 1]);
    }
}

/// Where just the probe at `at` is `sent`, it is counted once among
/// `probes`.
pub proof fn lemma_once_among(probes: Seq<ProbeSent>, sent: ProbeSent, at: int)
    requires
        0 <= at < probes.len(),
        probes[at] == sent,
        forall|k: int| 0 <= k < probes.len() && k != at ==> #[trigger] probes[k] != sent,
    ensures
        times_in(probes, sent) == 1,
    decreases probes.len(),
{
    let front = probes.drop_last();
    assert(probes.last() == probes[probes.len() - 1]);
    assert forall|k: int| 0 <= k < front.len() implies front[k] == probes[k] by {}
    if at == probes.len() - 1 {
        assert forall|k: int| 0 <= k < front.len() implies #[trigger] front[k] != sent by {
            assert(front[k] == probes[k]);
        }
        lemma_not_among(front, sent);
    } else {
        assert forall|k: int| 0 <= k < front.len() && k != at implies #[trigger] front[k] != sent by {
            assert(front[k] == probes[k]);
        }
        lemma_once_among(front, sent, at);
    }
}

/// The outcomes balance over one handoff.
proof fn lemma_handoff_balances(state: ReceiverState, probes: Seq<ProbeSent>, timeout: Duration, sent: ProbeSent)
    requires
        state.wf(),
        distinct_ids(probes),
        none_waiting(state, probes),
    ensures
        answers_to(state.on_trace_sent(probes, timeout).1, sent) + waits(state.on_trace_sent(probes, timeout).0, sent) == waits(state, sent)
            + times_in(probes, sent),
{
    lemma_claim_all_settles(state, probes);
    let (claimed, given) = state.claim_all(probes);
    let after = state.on_trace_sent(probes, timeout).0;
    assert(state.on_trace_sent(probes, timeout).1 == given);
    assert(after.probes == claimed.probes);
    if exists|i: int| 0 <= i < probes.len() && probes[i] == sent {
        let i = choose|i: int| 0 <= i < probes.len() && probes[i] == sent;
        assert(!state.probes.contains_key(probes[i].id));
        assert forall|k: int| 0 <= k < probes.len() && k != i implies #[trigger] probes[k] != sent by {
            if k < i {
                assert(probes[k].id != probes[i].id);
            } else {
                assert(probes[i].id != probes[k].id);
            }
        }
        lemma_once_among(probes, sent, i);
        if state.unmatched.contains_key(sent.id) {
            assert(given.contains(early_answer(state, probes[i])));
            let at = choose|at: int| 0 <= at < given.len() && given[at] == early_answer(state, probes[i]);
            assert forall|k: int| 0 <= k < given.len() && k != at implies !answers(#[trigger] given[k], sent) by {
                if answers(given[k], sent) {
                    if k < at {
                        assert(given[k]->Received_0.sent.id != given[at]->Received_0.sent.id);
                    } else {
                        assert(given[at]->Received_0.sent.id != given[k]->Received_0.sent.id);
                    }
                }
            }
            lemma_one_answer(given, sent, at);
        } else {
            assert forall|k: int| 0 <= k < given.len() implies !answers(#[trigger] given[k], sent) by {
                let j = choose|j: int| 0 <= j < probes.len() && state.unmatched.contains_key(probes[j].id) && given[k] == early_answer(state, probes[j]);
                assert(given[k] == early_answer(state, probes[j]));
            }
            lemma_no_answers(given, sent);
        }
    } else {
        assert forall|k: int| 0 <= k < probes.len() implies #[trigger] probes[k] != sent by {}
        lemma_not_among(probes, sent);
        assert forall|k: int| 0 <= k < given.len() implies !answers(#[trigger] given[k], sent) by {
            let j = choose|j: int| 0 <= j < probes.len() && state.unmatched.contains_key(probes[j].id) && given[k] == early_answer(state, probes[j]);
            assert(given[k] == early_answer(state, probes[j]));
        }
        lemma_no_answers(given, sent);
        if claimed.probes.contains_key(sent.id) && !state.probes.contains_key(sent.id) {
            let j = choose|j: int| 0 <= j < probes.len() && (#[trigger] probes[j]).id == sent.id;
            assert(claimed.probes[probes[j].id] == probes[j]);
        }
    }
}

/// The outcomes balance over one event: the outcomes that the event gives
/// a probe and the probe's waiting after it are as many as its waiting
/// before it and the times the event hands it over. The tables stay
/// consistent.
pub proof fn lemma_event_balances(state: ReceiverState, event: Event, sent: ProbeSent)
    requires
        state.wf(),
        fits(state, event),
    ensures
        after(state, event).wf(),
        outcomes_of(state, event, sent) + waits(after(state, event), sent) == waits(state, sent) + handed_by(event, sent),
{
    match event {
        Event::Handoff { probes, timeout } => {
            lemma_on_trace_sent_wf(state, probes, timeout);
            lemma_handoff_balances(state, probes, timeout, sent);
        },
        Event::Reply { source, id, now } => {
            lemma_on_reply_wf(state, source, id, now);
        },
        Event::Sweep { now } => {
            lemma_sweep_wf(state, now);
        },
    }
}

/// The outcomes balance over every orderly run: the outcomes that a probe
/// was given and its waiting at the end are as many as its waiting at the
/// beginning and the times it was handed over. The tables stay consistent.
pub proof fn lemma_run_balances(state: ReceiverState, events: Seq<Event>, sent: ProbeSent)
    requires
        state.wf(),
        orderly(state, events),
    ensures
        after_all(state, events).wf(),
        outcomes_in(state, events, sent) + waits(after_all(state, events), sent) == waits(state, sent) + handed_in(events, sent),
    decreases events.len(),
{
    if events.len() > 0 {
        lemma_run_balances(state, events.drop_last(), sent);
        lemma_event_balances(after_all(state, events.drop_last()), events.last(), sent);
    }
}

/// A probe that did not wait before and was handed over once in an orderly
/// run is given at most one outcome, whatever replies were read, twice or
/// never, and whatever sweeps were made; and it is given exactly one once
/// it waits no longer.
pub proof fn lemma_one_outcome_each(state: ReceiverState, events: Seq<Event>, sent: ProbeSent)
    requires
        state.wf(),
        orderly(state, events),
        waits(state, sent) == 0,
        handed_in(events, sent) == 1,
    ensures
        outcomes_in(state, events, sent) <= 1,
        outcomes_in(state, events, sent) == 1 <==> waits(after_all(state, events), sent) == 0,
{
    lemma_run_balances(state, events, sent);
}

/// A probe that did not wait before and was not handed over in an orderly
/// run is given no outcome. So a reply that echoes an identification gives
/// no outcome as long as no probe with that identification is handed over,
/// and the outcomes of one flow are for the probes of that flow alone.
pub proof fn lemma_no_outcome_unasked(state: ReceiverState, events: Seq<Event>, sent: ProbeSent)
    requires
        state.wf(),
        orderly(state, events),
        waits(state, sent) == 0,
        handed_in(events, sent) == 0,
    ensures
        outcomes_in(state, events, sent) == 0,
        waits(after_all(state, events), sent) == 0,
{
    lemma_run_balances(state, events, sent);
}

/// After an orderly run that ends in a sweep, whatever became of the
/// traces, nothing is left that has outlived its time at the sweep: no
/// probe that has waited longer than its flow gives it, no flow without a
/// probe, and no reply that has waited longer than 10 seconds.
pub proof fn lemma_run_ends_swept(state: ReceiverState, events: Seq<Event>, now: Instant)
    requires
        state.wf(),
        orderly(state, events),
        events.len() > 0,
        events.last() == (Event::Sweep { now }),
    ensures
        within_timeouts(after_all(state, events), now),
        forall|flow: Flowhash| #![trigger after_all(state, events).flows.contains_key(flow)] after_all(state, events).flows.contains_key(flow) ==> has_probe_of(
            after_all(state, events).probes,
            flow,
        ),
        forall|id: TcpId| #![trigger after_all(state, events).unmatched[id]] after_all(state, events).unmatched.contains_key(id) ==> elapsed(
            after_all(state, events).unmatched[id].instant,
            now,
        ) <= UNMATCHED_PACKETS_TIMEOUT,
{
    let before = after_all(state, events.drop_last());
    lemma_run_wf(state, events.drop_last());
    lemma_sweep_leaves_nothing_stale(before, now);
}

/// The tables stay consistent over every orderly run.
pub proof fn lemma_run_wf(state: ReceiverState, events: Seq<Event>)
    requires
        state.wf(),
        orderly(state, events),
    ensures
        after_all(state, events).wf(),
    decreases events.len(),
{
    if events.len() > 0 {
        lemma_run_wf(state, events.drop_last());
        let before = after_all(state, events.drop_last());
        match events.last() {
            Event::Handoff { probes, timeout } => {
                lemma_on_trace_sent_wf(before, probes, timeout);
            },
            Event::Reply { source, id, now } => {
                lemma_on_reply_wf(before, source, id, now);
            },
            Event::Sweep { now } => {
                lemma_sweep_wf(before, now);
            },
        }
    }
}

} // verus!
