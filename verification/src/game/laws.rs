//! What holds of the pipeline whatever the frame loop, the workers and the
//! renderer do.

use crate::game::pipeline::{
    asks_for, lemma_consistent_others, lemma_consistent_push, lemma_others_contains,
    lemma_requests_for_push, others, requests_for, Event, LoadState, Outcome, Pipeline,
};
use crate::game::policy::{beyond_window, window};
use crate::game::pool::Task;
use crate::game::world::EntityId;
use std::path::PathBuf;
use vstd::prelude::*;

verus! {

/// Whether one of `events` is a `load` of `id`.
pub open spec fn asks<I>(events: Seq<Event<I>>, id: EntityId) -> bool {
    exists|k: int| 0 <= k < events.len() && (#[trigger] events[k]) is Load && events[k]->id == id
}

/// Whether `event` is a drained result that resolves `id` in `pipeline`.
pub open spec fn settles<I>(pipeline: Pipeline<I>, event: Event<I>, id: EntityId) -> bool {
    event matches Event::Drained { outcome } && outcome.id == id && pipeline.resolves(outcome)
}

/// Whether no two of `outcomes` are for the same id.
pub open spec fn distinct_ids<I>(outcomes: Seq<Outcome<I>>) -> bool {
    forall|i: int, j: int|
        0 <= i < outcomes.len() && 0 <= j < outcomes.len() && i != j ==> outcomes[i].id
            != outcomes[j].id
}

/// `load` keeps a well-formed pipeline well-formed.
pub proof fn lemma_load_wf<I>(pipeline: Pipeline<I>, id: EntityId, path: PathBuf)
    requires
        pipeline.wf(),
    ensures
        pipeline.load(id, path).wf(),
{
    if pipeline.state_of(id) is Unrequested {
        lemma_consistent_push(pipeline.in_flight, pipeline.requests, Task::Load { id, path });
    }
}

/// Delivering a result keeps a well-formed pipeline well-formed.
pub proof fn lemma_deliver_wf<I>(pipeline: Pipeline<I>, outcome: Outcome<I>)
    requires
        pipeline.wf(),
    ensures
        pipeline.deliver(outcome).wf(),
{
    lemma_consistent_others(pipeline.in_flight, pipeline.requests, outcome.id);
}

/// Whatever happens, a well-formed pipeline stays well-formed, no path
/// changes, and no image is ever taken out of the registry.
pub proof fn lemma_run_wf<I>(pipeline: Pipeline<I>, events: Seq<Event<I>>)
    requires
        pipeline.wf(),
    ensures
        pipeline.run(events).wf(),
        pipeline.run(events).registry.paths == pipeline.registry.paths,
        pipeline.registry.images.dom().subset_of(pipeline.run(events).registry.images.dom()),
    decreases events.len(),
{
    if events.len() > 0 {
        let before = pipeline.run(events.drop_last());
        lemma_run_wf(pipeline, events.drop_last());
        match events.last() {
            Event::Load { id, path } => lemma_load_wf(before, id, path),
            Event::Drained { outcome } => lemma_deliver_wf(before, outcome),
        }
    }
}

/// The states of an id follow one another in one direction only: an id that
/// is resolved stays resolved, and an id that is requested stays requested
/// until it is resolved. A request is never withdrawn.
pub proof fn lemma_states_only_advance<I>(pipeline: Pipeline<I>, event: Event<I>, id: EntityId)
    ensures
        pipeline.state_of(id) is Resolved ==> pipeline.step(event).state_of(id) is Resolved,
        pipeline.state_of(id) is Requested ==> !(pipeline.step(event).state_of(id) is Unrequested),
        pipeline.state_of(id) is Requested && pipeline.step(event).state_of(id) is Resolved
            ==> settles(pipeline, event, id),
        pipeline.state_of(id) is Unrequested && pipeline.step(event).state_of(id) is Requested
            ==> event is Load && event->id == id,
{
    match event {
        Event::Load { id: asked, path } => {
            if pipeline.state_of(asked) is Unrequested {
                let k = pipeline.in_flight.len() as int;
                assert(pipeline.in_flight.push(asked)[k] == asked);
                if pipeline.in_flight.contains(id) {
                    let i = choose|i: int|
                        0 <= i < pipeline.in_flight.len() && pipeline.in_flight[i] == id;
                    assert(pipeline.in_flight.push(asked)[i] == id);
                }
            }
        },
        Event::Drained { outcome } => {
            lemma_others_contains(pipeline.in_flight, outcome.id, id);
        },
    }
}

/// Over any run, too, an id that is resolved stays resolved and an id that
/// is requested is never unrequested again.
pub proof fn lemma_run_states_only_advance<I>(
    pipeline: Pipeline<I>,
    events: Seq<Event<I>>,
    id: EntityId,
)
    ensures
        pipeline.state_of(id) is Resolved ==> pipeline.run(events).state_of(id) is Resolved,
        pipeline.state_of(id) is Requested ==> !(pipeline.run(events).state_of(id) is Unrequested),
    decreases events.len(),
{
    if events.len() > 0 {
        lemma_run_states_only_advance(pipeline, events.drop_last(), id);
        lemma_states_only_advance(pipeline.run(events.drop_last()), events.last(), id);
    }
}

/// The scheduler stops being idle the moment a `load` sends a request.
pub proof fn lemma_load_ends_idleness<I>(pipeline: Pipeline<I>, id: EntityId, path: PathBuf)
    requires
        pipeline.state_of(id) is Unrequested,
    ensures
        !pipeline.load(id, path).idle(),
        pipeline.load(id, path).state_of(id) is Requested,
{
    let k = pipeline.in_flight.len() as int;
    assert(pipeline.in_flight.push(id)[k] == id);
}

/// A busy scheduler becomes idle only by a result that resolves the one id
/// still in flight. A result that is dropped changes nothing, so an id whose
/// decode fails keeps the scheduler busy for good.
pub proof fn lemma_idle_only_by_matching_result<I>(pipeline: Pipeline<I>, outcome: Outcome<I>)
    requires
        pipeline.wf(),
        !pipeline.idle(),
        pipeline.deliver(outcome).idle(),
    ensures
        pipeline.resolves(outcome),
        pipeline.in_flight == seq![outcome.id],
{
    let rest = pipeline.in_flight.filter(others(outcome.id));
    assert forall|k: int| 0 <= k < pipeline.in_flight.len() implies pipeline.in_flight[k]
        == outcome.id by {
        if pipeline.in_flight[k] != outcome.id {
            pipeline.in_flight.lemma_filter_contains(others(outcome.id), k);
            assert(rest.contains(pipeline.in_flight[k]));
        }
    }
    assert(pipeline.in_flight.len() == 1) by {
        if pipeline.in_flight.len() > 1 {
            assert(pipeline.in_flight[0] == pipeline.in_flight[1]);
        }
    }
    assert(pipeline.in_flight =~= seq![outcome.id]);
}

/// As long as no result resolves `id`, at most one request for `id` is ever
/// sent, however often `load` is called for it and whatever happens to other
/// ids meanwhile: exactly one if `id` was unrequested and is asked for, and
/// none otherwise.
pub proof fn lemma_one_request_until_resolved<I>(
    pipeline: Pipeline<I>,
    events: Seq<Event<I>>,
    id: EntityId,
)
    requires
        forall|k: int| 0 <= k < events.len() ==> !settles(pipeline, #[trigger] events[k], id),
    ensures
        requests_for(pipeline.run(events).requests, id) == requests_for(pipeline.requests, id)
            + if pipeline.state_of(id) is Unrequested && asks(events, id) {
            1nat
        } else {
            0nat
        },
        pipeline.run(events).state_of(id) == if pipeline.state_of(id) is Unrequested && asks(
            events,
            id,
        ) {
            LoadState::Requested
        } else {
            pipeline.state_of(id)
        },
        pipeline.run(events).registry.paths == pipeline.registry.paths,
    decreases events.len(),
{
    if events.len() > 0 {
        let earlier = events.drop_last();
        let before = pipeline.run(earlier);
        lemma_one_request_until_resolved(pipeline, earlier, id);
        assert(asks(events, id) <==> asks(earlier, id) || (events.last() is Load
            && events.last()->id == id)) by {
            if asks(earlier, id) {
                let k = choose|k: int|
                    0 <= k < earlier.len() && (#[trigger] earlier[k]) is Load && earlier[k]->id
                        == id;
                assert(events[k] is Load && events[k]->id == id);
            }
            if events.last() is Load && events.last()->id == id {
                assert(events[events.len() - 1] is Load);
            }
            if asks(events, id) {
                let k = choose|k: int|
                    0 <= k < events.len() && (#[trigger] events[k]) is Load && events[k]->id == id;
                if k < earlier.len() {
                    assert(earlier[k] is Load && earlier[k]->id == id);
                }
            }
        }
        assert(!settles(pipeline, events[events.len() - 1], id));
        lemma_states_only_advance(before, events.last(), id);
        match events.last() {
            Event::Load { id: asked, path } => {
                if before.state_of(asked) is Unrequested {
                    lemma_requests_for_push(before.requests, Task::Load { id: asked, path }, id);
                    lemma_load_ends_idleness(before, asked, path);
                }
            },
            Event::Drained { outcome } => {
                lemma_others_contains(before.in_flight, outcome.id, id);
            },
        }
    }
}

/// Once the registry holds an image for `id`, no request for `id` is sent
/// again, whatever happens: every later `load` of it does nothing.
pub proof fn lemma_resolved_is_never_requested<I>(
    pipeline: Pipeline<I>,
    events: Seq<Event<I>>,
    id: EntityId,
)
    requires
        pipeline.state_of(id) is Resolved,
    ensures
        pipeline.run(events).state_of(id) is Resolved,
        requests_for(pipeline.run(events).requests, id) == requests_for(pipeline.requests, id),
        forall|path: PathBuf| pipeline.load(id, path) == pipeline,
    decreases events.len(),
{
    if events.len() > 0 {
        let before = pipeline.run(events.drop_last());
        lemma_resolved_is_never_requested(pipeline, events.drop_last(), id);
        lemma_states_only_advance(before, events.last(), id);
        match events.last() {
            Event::Load { id: asked, path } => {
                if before.state_of(asked) is Unrequested {
                    lemma_requests_for_push(before.requests, Task::Load { id: asked, path }, id);
                }
            },
            Event::Drained { outcome } => {},
        }
    }
}

/// Whether at most one request was ever sent for `id`, and none while `id`
/// is unrequested.
pub open spec fn asked_once<I>(pipeline: Pipeline<I>, id: EntityId) -> bool {
    &&& requests_for(pipeline.requests, id) <= 1
    &&& pipeline.state_of(id) is Unrequested ==> requests_for(pipeline.requests, id) == 0
}

/// From a pipeline that has sent at most one request for `id`, none is ever
/// sent a second time: whatever is loaded, whatever the workers answer and
/// whatever the renderer makes of it, `id` is asked for once at most.
pub proof fn lemma_at_most_one_request_ever<I>(
    pipeline: Pipeline<I>,
    events: Seq<Event<I>>,
    id: EntityId,
)
    requires
        asked_once(pipeline, id),
    ensures
        asked_once(pipeline.run(events), id),
    decreases events.len(),
{
    if events.len() > 0 {
        let before = pipeline.run(events.drop_last());
        lemma_at_most_one_request_ever(pipeline, events.drop_last(), id);
        lemma_states_only_advance(before, events.last(), id);
        match events.last() {
            Event::Load { id: asked, path } => {
                if before.state_of(asked) is Unrequested {
                    lemma_requests_for_push(before.requests, Task::Load { id: asked, path }, id);
                    lemma_load_ends_idleness(before, asked, path);
                }
            },
            Event::Drained { outcome } => {
                lemma_others_contains(before.in_flight, outcome.id, id);
            },
        }
    }
}

/// A pipeline that has not sent anything yet has, of course, sent at most
/// one request for every id.
pub proof fn lemma_fresh_pipeline_asked_once<I>(pipeline: Pipeline<I>, id: EntityId)
    requires
        pipeline.requests.len() == 0,
    ensures
        asked_once(pipeline, id),
{
    pipeline.requests.lemma_filter_len(asks_for(id));
}

/// Requesting ids leaves no registered one of them unrequested, and leaves
/// paths and images alone.
pub proof fn lemma_request_all_covers<I>(pipeline: Pipeline<I>, ids: Seq<EntityId>, id: EntityId)
    requires
        ids.contains(id),
        id < pipeline.registry.paths.len(),
    ensures
        !(pipeline.request_all(ids).state_of(id) is Unrequested),
        pipeline.request_all(ids).registry == pipeline.registry,
    decreases ids.len(),
{
    let before = pipeline.request_all(ids.drop_last());
    lemma_request_all_keeps_registry(pipeline, ids.drop_last());
    let k = choose|k: int| 0 <= k < ids.len() && ids[k] == id;
    if k < ids.len() - 1 {
        assert(ids.drop_last()[k] == id);
        lemma_request_all_covers(pipeline, ids.drop_last(), id);
    }
    let last = ids.last();
    if last < before.registry.paths.len() {
        let event = Event::<I>::Load { id: last, path: before.registry.paths[last as int] };
        lemma_states_only_advance(before, event, id);
        if before.state_of(last) is Unrequested {
            lemma_load_ends_idleness(before, last, before.registry.paths[last as int]);
        }
    }
}

/// Requesting ids changes neither paths nor images.
pub proof fn lemma_request_all_keeps_registry<I>(pipeline: Pipeline<I>, ids: Seq<EntityId>)
    ensures
        pipeline.request_all(ids).registry == pipeline.registry,
    decreases ids.len(),
{
    if ids.len() > 0 {
        lemma_request_all_keeps_registry(pipeline, ids.drop_last());
    }
}

/// The window around a registered selection begins with the selection,
/// holds registered ids only, and none of them twice.
pub proof fn lemma_window_ids(selected: EntityId, len: nat)
    requires
        selected < len <= usize::MAX,
    ensures
        window(selected, len).no_duplicates(),
        window(selected, len)[0] == selected,
        forall|k: int| 0 <= k < window(selected, len).len() ==> window(selected, len)[k] < len,
{
    let ids = window(selected, len);
    let behind = (selected - 1) as EntityId;
    let ahead = (selected + 1) as EntityId;
    let further = (selected + 2) as EntityId;
    if selected > 0 {
        if selected + 2 < len {
            assert(ids =~= seq![selected, behind, ahead, further]);
        } else if selected + 1 < len {
            assert(ids =~= seq![selected, behind, ahead]);
        } else {
            assert(ids =~= seq![selected, behind]);
        }
    } else {
        if selected + 2 < len {
            assert(ids =~= seq![selected, ahead, further]);
        } else if selected + 1 < len {
            assert(ids =~= seq![selected, ahead]);
        } else {
            assert(ids =~= seq![selected]);
        }
    }
}

/// After the first half of a frame the selection and each of its neighbours
/// in the window is requested or resolved: the selection never waits behind
/// anything that a later frame asks for.
pub proof fn lemma_window_is_requested<I>(pipeline: Pipeline<I>, selected: EntityId, id: EntityId)
    requires
        selected < pipeline.registry.paths.len(),
        window(selected, pipeline.registry.paths.len()).contains(id),
    ensures
        !(pipeline.request_window(selected).state_of(id) is Unrequested),
{
    let ids = window(selected, pipeline.registry.paths.len());
    let k = choose|k: int| 0 <= k < ids.len() && ids[k] == id;
    assert(id < pipeline.registry.paths.len());
    lemma_request_all_covers(pipeline, ids, id);
}

/// Taking two ids out of flight comes to the same in either order.
pub proof fn lemma_others_commute(in_flight: Seq<EntityId>, a: EntityId, b: EntityId)
    ensures
        in_flight.filter(others(a)).filter(others(b)) == in_flight.filter(others(b)).filter(
            others(a),
        ),
    decreases in_flight.len(),
{
    reveal(Seq::filter);
    if in_flight.len() > 0 {
        let front = in_flight.drop_last();
        let last = in_flight.last();
        lemma_others_commute(front, a, b);
        front.filter(others(a)).lemma_filter_push(last, others(b));
        front.filter(others(b)).lemma_filter_push(last, others(a));
    }
}

/// Two results for different ids can be delivered in either order.
pub proof fn lemma_deliver_commutes<I>(pipeline: Pipeline<I>, a: Outcome<I>, b: Outcome<I>)
    requires
        a.id != b.id,
    ensures
        pipeline.deliver(a).deliver(b) == pipeline.deliver(b).deliver(a),
{
    lemma_others_commute(pipeline.in_flight, a.id, b.id);
    assert(pipeline.deliver(a).deliver(b) =~= pipeline.deliver(b).deliver(a));
}

/// A result for an id that none of `rest` is for can be delivered before
/// `rest` or after it.
pub proof fn lemma_deliver_moves_past<I>(
    pipeline: Pipeline<I>,
    outcome: Outcome<I>,
    rest: Seq<Outcome<I>>,
)
    requires
        forall|k: int| 0 <= k < rest.len() ==> rest[k].id != outcome.id,
    ensures
        pipeline.deliver(outcome).drain(rest) == pipeline.drain(rest).deliver(outcome),
    decreases rest.len(),
{
    if rest.len() > 0 {
        lemma_deliver_moves_past(pipeline, outcome, rest.drop_last());
        lemma_deliver_commutes(pipeline.drain(rest.drop_last()), outcome, rest.last());
    }
}

/// One drain after another is the drain of both.
pub proof fn lemma_drain_concat<I>(
    pipeline: Pipeline<I>,
    earlier: Seq<Outcome<I>>,
    later: Seq<Outcome<I>>,
)
    ensures
        pipeline.drain(earlier).drain(later) == pipeline.drain(earlier + later),
    decreases later.len(),
{
    if later.len() == 0 {
        assert(earlier + later =~= earlier);
    } else {
        assert((earlier + later).drop_last() =~= earlier + later.drop_last());
        lemma_drain_concat(pipeline, earlier, later.drop_last());
    }
}

/// Draining a single result is delivering it.
pub proof fn lemma_drain_one<I>(pipeline: Pipeline<I>, outcome: Outcome<I>)
    ensures
        pipeline.drain(seq![outcome]) == pipeline.deliver(outcome),
{
    let single = seq![outcome];
    assert(single.drop_last() =~= Seq::<Outcome<I>>::empty());
    assert(pipeline.drain(single.drop_last()) == pipeline);
}

/// The same results in another order are still results for different ids.
pub proof fn lemma_distinct_ids_any_order<I>(a: Seq<Outcome<I>>, b: Seq<Outcome<I>>)
    requires
        distinct_ids(a),
        a.to_multiset() == b.to_multiset(),
    ensures
        distinct_ids(b),
{
    a.to_multiset_ensures();
    b.to_multiset_ensures();
    assert forall|i: int, j: int|
        0 <= i < b.len() && 0 <= j < b.len() && i != j implies b[i].id != b[j].id by {
        if b[i].id == b[j].id {
            assert(b.contains(b[i]) && b.contains(b[j]));
            assert(a.to_multiset().count(b[i]) > 0 && a.to_multiset().count(b[j]) > 0);
            assert(a.contains(b[i]) && a.contains(b[j]));
            let m = choose|m: int| 0 <= m < a.len() && a[m] == b[i];
            let n = choose|n: int| 0 <= n < a.len() && a[n] == b[j];
            assert(m == n);
            // The one result stands twice in `b`, so it stands twice in `a`.
            let rest = b.remove(i);
            rest.to_multiset_ensures();
            let k = if j < i {
                j
            } else {
                j - 1
            };
            assert(rest[k] == b[j]);
            assert(rest.contains(b[i]));
            assert(rest.to_multiset().count(b[i]) > 0);
            assert(rest.to_multiset() == b.to_multiset().remove(b[i]));
            assert(b.to_multiset().count(b[i]) >= 2);
            let others = a.remove(m);
            others.to_multiset_ensures();
            assert(others.to_multiset() == a.to_multiset().remove(a[m]));
            assert(others.to_multiset().count(a[m]) > 0);
            assert(others.contains(a[m]));
            let r = choose|r: int| 0 <= r < others.len() && others[r] == a[m];
            let q = if r < m {
                r
            } else {
                r + 1
            };
            assert(a[q] == a[m] && q != m);
        }
    }
}

/// Results for different ids may arrive in any order whatever: however they
/// are ordered, delivering them leaves the same registry and the same ids in
/// flight.
pub proof fn lemma_drain_any_order<I>(
    pipeline: Pipeline<I>,
    a: Seq<Outcome<I>>,
    b: Seq<Outcome<I>>,
)
    requires
        distinct_ids(a),
        a.to_multiset() == b.to_multiset(),
    ensures
        pipeline.drain(a) == pipeline.drain(b),
    decreases a.len(),
{
    a.to_multiset_ensures();
    b.to_multiset_ensures();
    if a.len() == 0 {
        assert(b.len() == 0);
        assert(a =~= b);
    } else {
        let last = a.last();
        let front = a.drop_last();
        assert(a.contains(last));
        assert(a.to_multiset().count(last) > 0);
        assert(b.contains(last));
        let j = choose|j: int| 0 <= j < b.len() && b[j] == last;
        let before = b.take(j);
        let after = b.skip(j + 1);
        assert(b =~= before + seq![last] + after);
        assert(b.remove(j) =~= before + after);
        assert(front =~= a.remove(a.len() - 1));
        assert(front.to_multiset() == (before + after).to_multiset());
        lemma_drain_any_order(pipeline, front, before + after);
        lemma_distinct_ids_any_order(a, b);
        assert forall|k: int| 0 <= k < after.len() implies after[k].id != last.id by {
            assert(after[k] == b[j + 1 + k]);
        }
        lemma_drain_concat(pipeline, before + seq![last], after);
        lemma_drain_concat(pipeline, before, seq![last]);
        lemma_drain_one(pipeline.drain(before), last);
        lemma_deliver_moves_past(pipeline.drain(before), last, after);
        lemma_drain_concat(pipeline, before, after);
    }
}

/// Results for different ids may arrive in any order: delivered last to
/// first they leave the registry, and what is in flight, exactly as delivered
/// first to last.
pub proof fn lemma_drain_order_independent<I>(pipeline: Pipeline<I>, outcomes: Seq<Outcome<I>>)
    requires
        distinct_ids(outcomes),
    ensures
        pipeline.drain(outcomes.reverse()) == pipeline.drain(outcomes),
{
    outcomes.lemma_reverse_to_multiset();
    lemma_drain_any_order(pipeline, outcomes, outcomes.reverse());
}

/// The results `outcomes` as events, in the same order.
pub open spec fn drained<I>(outcomes: Seq<Outcome<I>>) -> Seq<Event<I>> {
    Seq::new(outcomes.len(), |k: int| Event::Drained { outcome: outcomes[k] })
}

/// One run after another is the run of both.
pub proof fn lemma_run_concat<I>(
    pipeline: Pipeline<I>,
    earlier: Seq<Event<I>>,
    later: Seq<Event<I>>,
)
    ensures
        pipeline.run(earlier).run(later) == pipeline.run(earlier + later),
    decreases later.len(),
{
    if later.len() == 0 {
        assert(earlier + later =~= earlier);
    } else {
        assert((earlier + later).drop_last() =~= earlier + later.drop_last());
        lemma_run_concat(pipeline, earlier, later.drop_last());
    }
}

/// Draining results is the run of their events.
pub proof fn lemma_drain_is_run<I>(pipeline: Pipeline<I>, outcomes: Seq<Outcome<I>>)
    ensures
        pipeline.drain(outcomes) == pipeline.run(drained(outcomes)),
    decreases outcomes.len(),
{
    if outcomes.len() > 0 {
        assert(drained(outcomes).drop_last() =~= drained(outcomes.drop_last()));
        lemma_drain_is_run(pipeline, outcomes.drop_last());
    }
}

/// Requesting an id is the run of at most one `load`.
pub proof fn lemma_request_is_run<I>(pipeline: Pipeline<I>, id: EntityId)
    ensures
        exists|events: Seq<Event<I>>| pipeline.request(id) == pipeline.run(events),
{
    if id < pipeline.registry.paths.len() {
        let events = seq![Event::<I>::Load { id, path: pipeline.registry.paths[id as int] }];
        assert(events.drop_last() =~= Seq::<Event<I>>::empty());
        assert(pipeline.run(events.drop_last()) == pipeline);
        assert(pipeline.request(id) == pipeline.run(events));
    } else {
        assert(pipeline.request(id) == pipeline.run(Seq::<Event<I>>::empty()));
    }
}

/// Requesting ids one after the other is a run of `load`s.
pub proof fn lemma_request_all_is_run<I>(pipeline: Pipeline<I>, ids: Seq<EntityId>)
    ensures
        exists|events: Seq<Event<I>>| pipeline.request_all(ids) == pipeline.run(events),
    decreases ids.len(),
{
    if ids.len() == 0 {
        assert(pipeline.request_all(ids) == pipeline.run(Seq::<Event<I>>::empty()));
    } else {
        let before = pipeline.request_all(ids.drop_last());
        lemma_request_all_is_run(pipeline, ids.drop_last());
        let earlier = choose|events: Seq<Event<I>>| before == pipeline.run(events);
        lemma_request_is_run(before, ids.last());
        let later = choose|events: Seq<Event<I>>| before.request(ids.last()) == before.run(events);
        lemma_run_concat(pipeline, earlier, later);
        assert(pipeline.request_all(ids) == pipeline.run(earlier + later));
    }
}

/// A whole frame is a run of `load`s and drained results, so what holds of
/// every run holds from frame to frame.
pub proof fn lemma_frame_is_run<I>(
    pipeline: Pipeline<I>,
    selected: EntityId,
    first: Seq<Outcome<I>>,
    second: Seq<Outcome<I>>,
)
    ensures
        exists|events: Seq<Event<I>>|
            pipeline.frame(selected, first, second) == pipeline.run(events),
{
    let len = pipeline.registry.paths.len();
    lemma_request_all_is_run(pipeline, window(selected, len));
    let asked = pipeline.request_window(selected);
    let e1 = choose|events: Seq<Event<I>>| asked == pipeline.run(events);
    let drained_once = asked.drain(first);
    lemma_drain_is_run(asked, first);
    lemma_run_concat(pipeline, e1, drained(first));
    let again = drained_once.request(selected);
    lemma_request_is_run(drained_once, selected);
    let e2 = choose|events: Seq<Event<I>>| again == drained_once.run(events);
    lemma_run_concat(pipeline, e1 + drained(first), e2);
    let ahead = drained_once.read_ahead(selected);
    let e3 = match beyond_window(selected, drained_once.registry.paths.len()) {
        Some(id) => if again.idle() {
            lemma_request_is_run(again, id);
            choose|events: Seq<Event<I>>| again.request(id) == again.run(events)
        } else {
            Seq::<Event<I>>::empty()
        },
        None => Seq::<Event<I>>::empty(),
    };
    assert(ahead == again.run(e3));
    lemma_run_concat(pipeline, e1 + drained(first) + e2, e3);
    lemma_drain_is_run(ahead, second);
    lemma_run_concat(pipeline, e1 + drained(first) + e2 + e3, drained(second));
    assert(pipeline.frame(selected, first, second) == pipeline.run(
        e1 + drained(first) + e2 + e3 + drained(second),
    ));
}

} // verus!
