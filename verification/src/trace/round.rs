//! What a round hands out: one hop for each hop limit from the lowest to
//! the highest, in ascending order.

use crate::trace::options::TraceOptions;
use crate::trace::response::TraceResponse;
use crate::trace::trace::{filled, hop_of, placed, vacant, with_skipped, TraceState};
use crate::utils::hop::Hop;
use vstd::prelude::*;

verus! {

/// The trace after the outcomes `responses` have been put in its queue, one
/// after another.
pub open spec fn fed(state: TraceState, responses: Seq<TraceResponse>) -> TraceState
    decreases responses.len(),
{
    if responses.len() == 0 {
        state
    } else {
        fed(state, responses.drop_last()).inserted(responses.last())
    }
}

/// Whether `responses` holds one outcome for each hop limit that the
/// options probe, and no other.
pub open spec fn one_outcome_each(options: TraceOptions, responses: Seq<TraceResponse>) -> bool {
    &&& forall|i: int| 0 <= i < responses.len() ==> options.is_probed((#[trigger] responses[i]).spec_distance())
    &&& forall|ttl: u8| options.is_probed(ttl) ==> exists|i: int| 0 <= i < responses.len() && (#[trigger] responses[i]).spec_distance() == ttl
    &&& forall|i: int, j: int| 0 <= i < j < responses.len() ==> responses[i].spec_distance() != responses[j].spec_distance()
}

/// Feeding outcomes changes the queue and nothing else, keeps its length,
/// leaves alone the entries of the hop limits that no outcome is about, and,
/// where no two outcomes are about the same hop limit, puts each outcome's
/// hop at its hop limit.
pub proof fn lemma_fed(state: TraceState, responses: Seq<TraceResponse>)
    requires
        forall|i: int, j: int| 0 <= i < j < responses.len() ==> responses[i].spec_distance() != responses[j].spec_distance(),
    ensures
        fed(state, responses) == (TraceState { queue: fed(state, responses).queue, ..state }),
        fed(state, responses).queue.len() == state.queue.len(),
        forall|j: int|
            0 <= j < state.queue.len() && (forall|i: int| 0 <= i < responses.len() ==> (#[trigger] responses[i]).spec_distance() != j + 1)
                ==> #[trigger] fed(state, responses).queue[j] == state.queue[j],
        forall|i: int|
            0 <= i < responses.len() && 1 <= (#[trigger] responses[i]).spec_distance() <= state.queue.len() ==> fed(state, responses).queue[responses[i].spec_distance()
                - 1] == Some(hop_of(responses[i])),
    decreases responses.len(),
{
    if responses.len() > 0 {
        let front = responses.drop_last();
        let last = responses.last();
        let n = front.len() as int;
        assert(responses[n] == last);
        assert forall|i: int| 0 <= i < front.len() implies front[i] == responses[i] by {}
        lemma_fed(state, front);
        let before = fed(state, front);
        let after = fed(state, responses);
        assert(after.queue == placed(before.queue, last.spec_distance(), hop_of(last)));
        assert forall|j: int|
            0 <= j < state.queue.len() && (forall|i: int| 0 <= i < responses.len() ==> (#[trigger] responses[i]).spec_distance() != j + 1)
            implies #[trigger] after.queue[j] == state.queue[j] by {
            assert(responses[n].spec_distance() != j + 1);
            assert forall|i: int| 0 <= i < front.len() implies (#[trigger] front[i]).spec_distance() != j + 1 by {
                assert(responses[i].spec_distance() != j + 1);
            }
            assert(before.queue[j] == state.queue[j]);
        }
        assert forall|i: int| 0 <= i < responses.len() && 1 <= (#[trigger] responses[i]).spec_distance() <= state.queue.len() implies after.queue[responses[i].spec_distance()
            - 1] == Some(hop_of(responses[i])) by {
            if i < n {
                assert(front[i] == responses[i]);
                assert(responses[i].spec_distance() != responses[n].spec_distance());
            }
        }
    }
}

/// A queue whose entries below `lo` are empty and whose entries from `lo`
/// on are filled hands out the hops from `lo` on, in order.
pub proof fn lemma_filled_from(queue: Seq<Option<Hop>>, lo: int)
    requires
        0 <= lo <= queue.len(),
        forall|j: int| 0 <= j < lo ==> queue[j] is None,
        forall|j: int| lo <= j < queue.len() ==> queue[j] is Some,
    ensures
        filled(queue).len() == queue.len() - lo,
        forall|k: int| 0 <= k < queue.len() - lo ==> filled(queue)[k] == queue[lo + k]->Some_0,
    decreases queue.len(),
{
    if queue.len() > 0 {
        let front = queue.drop_last();
        if lo < queue.len() {
            lemma_filled_from(front, lo);
        } else {
            lemma_filled_from(front, lo - 1);
        }
    }
}

/// A round in which each probe got one outcome hands out one hop for each
/// hop limit from the lowest to the highest, in ascending order: `Masked`
/// for a hop limit that is skipped, and for a hop limit that is probed what
/// the outcome of its probe says.
///
/// The round begins with an empty queue, marks what it skips, is fed the
/// outcomes in whatever order they arrive, and collects its hops.
pub proof fn lemma_round_result(state: TraceState, responses: Seq<TraceResponse>)
    requires
        state.wf(),
        state.queue == vacant(state.queue.len()),
        1 <= state.options.min_ttl <= state.options.max_ttl,
        one_outcome_each(state.options, responses),
    ensures
        ({
            let hops = filled(fed(state.marked(), responses).queue);
            let lowest = state.options.min_ttl as int;
            &&& hops.len() == state.options.max_ttl - state.options.min_ttl + 1
            &&& forall|k: int| 0 <= k < hops.len() && state.options.is_skipped((lowest + k) as u8) ==> #[trigger] hops[k] == Hop::Masked
            &&& forall|k: int, i: int|
                0 <= k < hops.len() && 0 <= i < responses.len() && (#[trigger] responses[i]).spec_distance() == lowest + k ==> #[trigger] hops[k] == hop_of(
                    responses[i],
                )
        }),
{
    let options = state.options;
    let marked = state.marked();
    let queue = fed(marked, responses).queue;
    let lo = options.min_ttl - 1;
    lemma_fed(marked, responses);
    assert forall|j: int| 0 <= j < queue.len() implies (if j < lo {
        queue[j] is None
    } else if options.is_skipped((j + 1) as u8) {
        queue[j] == Some(Hop::Masked)
    } else {
        exists|i: int| 0 <= i < responses.len() && (#[trigger] responses[i]).spec_distance() == j + 1 && queue[j] == Some(hop_of(responses[i]))
    }) by {
        let ttl = (j + 1) as u8;
        if options.is_probed(ttl) {
            let i = choose|i: int| 0 <= i < responses.len() && (#[trigger] responses[i]).spec_distance() == ttl;
            assert(queue[responses[i].spec_distance() - 1] == Some(hop_of(responses[i])));
        } else {
            assert forall|i: int| 0 <= i < responses.len() implies (#[trigger] responses[i]).spec_distance() != j + 1 by {
                assert(options.is_probed(responses[i].spec_distance()));
            }
            assert(queue[j] == marked.queue[j]);
            assert(marked.queue[j] == with_skipped(state.queue, options)[j]);
        }
    }
    lemma_filled_from(queue, lo);
    let hops = filled(queue);
    assert forall|k: int, i: int|
        0 <= k < hops.len() && 0 <= i < responses.len() && (#[trigger] responses[i]).spec_distance() == lo + 1 + k implies #[trigger] hops[k] == hop_of(
        responses[i],
    ) by {
        assert(queue[responses[i].spec_distance() - 1] == Some(hop_of(responses[i])));
    }
}

} // verus!
