//! What is recorded and told of each item.
use super::actor;
use super::actor::{
    Acceptance, ActorModel, BackendCall, Cancellation, EmergencyStop, EventModel, PlaybackState,
};
use super::error::PlaybackError;
use super::job::{ConcurrencyMode, PlaybackId, PlaybackJob};
use super::operation_laws;
use super::operation_laws::{has_state, told};
use super::schedule_laws;
use vstd::prelude::*;

verus! {

/// A recorded state is told, and becomes the status of its item. The order of
/// acceptance and the other statuses stay as they are. An item that ends joins the
/// ended ones; where these were 256, the one that ended first is forgotten.
pub proof fn law_states_are_recorded<S>(
    before: ActorModel<S>,
    id: PlaybackId,
    state: PlaybackState,
    error: Option<Seq<char>>,
)
    requires
        before.terminal.len() <= 256,
    ensures
        ({
            let after = before.record(id, state, error);
            let known = before.statuses.contains_key(id);
            let ended = state is Completed || state is Interrupted || state is Failed;
            let had_ended = known && (before.statuses[id] is Completed || before.statuses[id]
                is Interrupted || before.statuses[id] is Failed);
            &&& after.events == before.events.push(EventModel { playback_id: id, state, error })
            &&& after.active == before.active
            &&& after.pending == before.pending
            &&& after.unhealthy == before.unhealthy
            &&& after.maximum_queue_items == before.maximum_queue_items
            &&& after.maximum_active_items == before.maximum_active_items
            &&& !ended || had_ended ==> {
                &&& after.statuses == before.statuses.insert(id, state)
                &&& after.terminal == before.terminal
                &&& after.order == if known {
                    before.order
                } else {
                    before.order.push(id)
                }
            }
            &&& ended && !had_ended && before.terminal.len() < 256 ==> {
                &&& after.statuses == before.statuses.insert(id, state)
                &&& after.terminal == before.terminal.push(id)
                &&& after.order == if known {
                    before.order
                } else {
                    before.order.push(id)
                }
            }
            &&& ended && !had_ended && before.terminal.len() == 256 ==> {
                &&& after.statuses == before.statuses.insert(id, state).remove(before.terminal[0])
                &&& after.terminal == before.terminal.push(id).skip(1)
                &&& !after.order.contains(before.terminal[0])
            }
        }),
{
    if before.terminal.len() == 256 {
        let order = if before.statuses.contains_key(id) {
            before.order
        } else {
            before.order.push(id)
        };
        actor::lemma_without(order, before.terminal.push(id)[0]);
        assert(before.terminal.push(id)[0] == before.terminal[0]);
    }
}

/// Each of these items was interrupted, in order.
pub open spec fn told_each(ids: Seq<PlaybackId>) -> Seq<EventModel> {
    Seq::new(ids.len(), |i: int| told(ids[i], PlaybackState::Interrupted))
}

/// These items were interrupted, and no other status changed.
pub open spec fn only_interrupted<S>(
    before: ActorModel<S>,
    ids: Seq<PlaybackId>,
    after: ActorModel<S>,
) -> bool {
    &&& forall|x: PlaybackId| #[trigger]
        ids.contains(x) ==> has_state(after, x, PlaybackState::Interrupted)
    &&& forall|x: PlaybackId| #[trigger]
        after.statuses.contains_key(x) && !ids.contains(x) ==> has_state(
            before,
            x,
            after.statuses[x],
        )
    &&& forall|x: PlaybackId| #[trigger]
        before.statuses.contains_key(x) && !ids.contains(x) ==> has_state(
            after,
            x,
            before.statuses[x],
        )
}

/// One more of them.
proof fn lemma_one_more<S>(
    before: ActorModel<S>,
    ids: Seq<PlaybackId>,
    between: ActorModel<S>,
    after: ActorModel<S>,
)
    requires
        ids.len() > 0,
        only_interrupted(before, ids.drop_last(), between),
        between.terminal.len() < 256,
        after == between.record(ids.last(), PlaybackState::Interrupted, None) || after
            == between.deactivate(ids.last()).record(ids.last(), PlaybackState::Interrupted, None),
    ensures
        only_interrupted(before, ids, after),
        after.terminal.len() <= between.terminal.len() + 1,
        after.events == between.events.push(told(ids.last(), PlaybackState::Interrupted)),
{
    let fewer = ids.drop_last();
    let last = ids.last();
    assert(after.statuses == between.statuses.insert(last, PlaybackState::Interrupted));
    assert forall|x: PlaybackId| #[trigger] ids.contains(x) <==> fewer.contains(x) || x == last by {
        if ids.contains(x) {
            let i = choose|i: int| 0 <= i < ids.len() && ids[i] == x;
            if i < fewer.len() {
                assert(fewer[i] == x);
            }
        }
        if fewer.contains(x) {
            let i = choose|i: int| 0 <= i < fewer.len() && fewer[i] == x;
            assert(ids[i] == x);
        }
        assert(ids[ids.len() - 1] == last);
    }
    assert forall|x: PlaybackId| #[trigger]
        after.statuses.contains_key(x) && !ids.contains(x) implies has_state(
        before,
        x,
        after.statuses[x],
    ) by {
        assert(between.statuses.contains_key(x) && !fewer.contains(x));
    }
    assert forall|x: PlaybackId| #[trigger]
        before.statuses.contains_key(x) && !ids.contains(x) implies has_state(
        after,
        x,
        before.statuses[x],
    ) by {
        assert(!fewer.contains(x));
    }
}

proof fn lemma_interrupted<S>(before: ActorModel<S>, ids: Seq<PlaybackId>)
    requires
        before.terminal.len() + ids.len() <= 256,
    ensures
        only_interrupted(before, ids, before.interrupted(ids)),
        before.interrupted(ids).terminal.len() <= before.terminal.len() + ids.len(),
        before.interrupted(ids).events == before.events + told_each(ids),
    decreases ids.len(),
{
    let after = before.interrupted(ids);
    if ids.len() > 0 {
        let fewer = ids.drop_last();
        lemma_interrupted(before, fewer);
        lemma_one_more(before, ids, before.interrupted(fewer), after);
    }
    assert(after.events =~= before.events + told_each(ids));
}

proof fn lemma_released<S>(before: ActorModel<S>, ids: Seq<PlaybackId>)
    requires
        before.terminal.len() + ids.len() <= 256,
    ensures
        only_interrupted(before, ids, before.released(ids)),
        before.released(ids).events == before.events + told_each(ids),
        before.released(ids).terminal.len() <= before.terminal.len() + ids.len(),
    decreases ids.len(),
{
    let after = before.released(ids);
    if ids.len() > 0 {
        let fewer = ids.drop_last();
        lemma_released(before, fewer);
        lemma_one_more(before, ids, before.released(fewer), after);
    }
    assert(after.events =~= before.events + told_each(ids));
}

proof fn lemma_all_stopped<S>(
    before: ActorModel<S>,
    ids: Seq<PlaybackId>,
    calls: Seq<BackendCall<S>>,
)
    requires
        before.terminal.len() + ids.len() <= 256,
        calls.len() == ids.len(),
        forall|i: int| 0 <= i < calls.len() ==> (#[trigger] calls[i]).reply() is Ok,
    ensures
        only_interrupted(before, ids, before.stops_replied(ids, calls)),
        before.stops_replied(ids, calls).events == before.events + told_each(ids),
        before.stops_replied(ids, calls).terminal.len() <= before.terminal.len() + ids.len(),
    decreases ids.len(),
{
    let after = before.stops_replied(ids, calls);
    if ids.len() > 0 {
        let fewer = ids.drop_last();
        let fewer_calls = calls.drop_last();
        assert forall|i: int| 0 <= i < fewer_calls.len() implies (
        #[trigger] fewer_calls[i]).reply() is Ok by {
            assert(calls[i].reply() is Ok);
        }
        lemma_all_stopped(before, fewer, fewer_calls);
        assert(calls[calls.len() - 1].reply() is Ok);
        lemma_one_more(before, ids, before.stops_replied(fewer, fewer_calls), after);
    }
    assert(after.events =~= before.events + told_each(ids));
}

/// Only statuses count.
proof fn lemma_from_statuses<S>(
    one: ActorModel<S>,
    other: ActorModel<S>,
    ids: Seq<PlaybackId>,
    after: ActorModel<S>,
)
    requires
        only_interrupted(one, ids, after),
        one.statuses == other.statuses,
    ensures
        only_interrupted(other, ids, after),
{
    assert forall|x: PlaybackId| #[trigger]
        after.statuses.contains_key(x) && !ids.contains(x) implies has_state(
        other,
        x,
        after.statuses[x],
    ) by {
        assert(has_state(one, x, after.statuses[x]));
    }
    assert forall|x: PlaybackId| #[trigger]
        other.statuses.contains_key(x) && !ids.contains(x) implies has_state(
        after,
        x,
        other.statuses[x],
    ) by {
        assert(one.statuses.contains_key(x));
    }
}

/// What two rounds of interruptions interrupt.
proof fn lemma_both<S>(
    before: ActorModel<S>,
    first: Seq<PlaybackId>,
    between: ActorModel<S>,
    second: Seq<PlaybackId>,
    after: ActorModel<S>,
)
    requires
        only_interrupted(before, first, between),
        only_interrupted(between, second, after),
    ensures
        only_interrupted(before, first + second, after),
{
    let both = first + second;
    assert forall|x: PlaybackId| #[trigger] both.contains(x) <==> first.contains(x)
        || second.contains(x) by {
        if both.contains(x) {
            let i = choose|i: int| 0 <= i < both.len() && both[i] == x;
            if i < first.len() {
                assert(first[i] == x);
            } else {
                assert(second[i - first.len()] == x);
            }
        }
        if first.contains(x) {
            let i = choose|i: int| 0 <= i < first.len() && first[i] == x;
            assert(both[i] == x);
        }
        if second.contains(x) {
            let i = choose|i: int| 0 <= i < second.len() && second[i] == x;
            assert(both[i + first.len()] == x);
        }
    }
    assert forall|x: PlaybackId| #[trigger] both.contains(x) implies has_state(
        after,
        x,
        PlaybackState::Interrupted,
    ) by {
        if !second.contains(x) {
            assert(has_state(between, x, PlaybackState::Interrupted));
            assert(between.statuses.contains_key(x));
        }
    }
    assert forall|x: PlaybackId| #[trigger]
        after.statuses.contains_key(x) && !both.contains(x) implies has_state(
        before,
        x,
        after.statuses[x],
    ) by {
        assert(has_state(between, x, after.statuses[x]));
        assert(between.statuses.contains_key(x));
    }
    assert forall|x: PlaybackId| #[trigger]
        before.statuses.contains_key(x) && !both.contains(x) implies has_state(
        after,
        x,
        before.statuses[x],
    ) by {
        assert(has_state(between, x, before.statuses[x]));
        assert(between.statuses.contains_key(x));
    }
}

/// A confirmed emergency stop tells of what waited, in order, and then of what
/// played, in order. Exactly these items are interrupted, as long as the ended ones
/// are no more than are retained.
pub proof fn law_emergency_stop_is_told_in_order<S>(
    before: ActorModel<S>,
    calls: Seq<BackendCall<S>>,
    result: Result<EmergencyStop, PlaybackError>,
    after: ActorModel<S>,
)
    requires
        before.emergency_stopped(calls, result, after),
        forall|i: int| 0 <= i < calls.len() ==> (#[trigger] calls[i]).reply() is Ok,
        before.terminal.len() + before.pending.len() + before.active.len() <= 256,
    ensures
        after.events == before.events + told_each(actor::pending_ids(before.pending)) + told_each(
            before.active,
        ),
        only_interrupted(before, actor::pending_ids(before.pending) + before.active, after),
        actor::pending_ids(before.pending).len() == before.pending.len(),
        forall|i: int|
            0 <= i < before.pending.len() ==> actor::pending_ids(before.pending)[i] == (
            #[trigger] before.pending[i]).job.id,
{
    let waiting = actor::pending_ids(before.pending);
    let emptied = ActorModel { pending: Seq::empty(), ..before };
    operation_laws::lemma_first_failure(calls);
    lemma_interrupted(emptied, waiting);
    lemma_from_statuses(emptied, before, waiting, emptied.interrupted(waiting));
    let discarded = before.queue_discarded();
    lemma_all_stopped(discarded, before.active, calls);
    lemma_both(before, waiting, discarded, before.active, after);
}

/// A shutdown tells of what waited, in order, and then of what played, in order,
/// whatever the backend says. Exactly these items are interrupted, as long as the
/// ended ones are no more than are retained.
pub proof fn law_shutdown_is_told_in_order<S>(
    before: ActorModel<S>,
    calls: Seq<BackendCall<S>>,
    result: Result<(), PlaybackError>,
    after: ActorModel<S>,
)
    requires
        before.shut_down(calls, result, after),
        before.terminal.len() + before.pending.len() + before.active.len() <= 256,
    ensures
        after.events == before.events + told_each(actor::pending_ids(before.pending)) + told_each(
            before.active,
        ),
        only_interrupted(before, actor::pending_ids(before.pending) + before.active, after),
{
    let waiting = actor::pending_ids(before.pending);
    let emptied = ActorModel { pending: Seq::empty(), ..before };
    lemma_interrupted(emptied, waiting);
    lemma_from_statuses(emptied, before, waiting, emptied.interrupted(waiting));
    let discarded = before.queue_discarded();
    lemma_released(discarded, before.active);
    lemma_both(before, waiting, discarded, before.active, after);
}

/// An interrupt tells of each item that it stopped, in order, and then that the new
/// one is accepted and plays. Exactly the items that played are interrupted, as
/// long as the ended ones are no more than are retained.
pub proof fn law_interrupt_is_told_in_order<S>(
    before: ActorModel<S>,
    job: PlaybackJob<S>,
    calls: Seq<BackendCall<S>>,
    after: ActorModel<S>,
)
    requires
        before.consistent(),
        before.submitted(
            job,
            ConcurrencyMode::Interrupt,
            calls,
            Ok(Acceptance { playback_id: job.id }),
            after,
        ),
        !before.statuses.contains_key(job.id),
        before.terminal.len() + before.active.len() <= 256,
    ensures
        after.events == (before.events + told_each(before.active)).push(
            told(job.id, PlaybackState::Accepted),
        ).push(told(job.id, PlaybackState::Playing)),
        has_state(after, job.id, PlaybackState::Playing),
        forall|x: PlaybackId| #[trigger]
            before.active.contains(x) ==> has_state(after, x, PlaybackState::Interrupted),
        forall|x: PlaybackId| #[trigger]
            before.statuses.contains_key(x) && !before.active.contains(x) ==> has_state(
                after,
                x,
                before.statuses[x],
            ),
{
    let count = before.active.len() as int;
    let stopping = calls.take(count);
    assert(!before.active.contains(job.id));
    let stopped = if count > 0 {
        before.stops_replied(before.active, stopping)
    } else {
        before
    };
    if count > 0 {
        operation_laws::lemma_first_failure(stopping);
        lemma_all_stopped(before, before.active, stopping);
        assert(!stopped.statuses.contains_key(job.id));
    } else {
        assert(told_each(before.active) =~= Seq::empty());
        assert(before.events + told_each(before.active) =~= before.events);
    }
    let playing = stopped.activate(job.id);
    let accepted = playing.record(job.id, PlaybackState::Accepted, None);
    assert(accepted.statuses == stopped.statuses.insert(job.id, PlaybackState::Accepted));
    assert(after.statuses == accepted.statuses.insert(job.id, PlaybackState::Playing));
}

/// A refusal of an unhealthy backend says so, and so does an item that can neither
/// play nor wait nor have ended.
pub proof fn law_unhealthy_backends_say_so<S>(
    before: ActorModel<S>,
    job: PlaybackJob<S>,
    mode: ConcurrencyMode,
    calls: Seq<BackendCall<S>>,
    result: Result<Acceptance, PlaybackError>,
    after: ActorModel<S>,
    id: PlaybackId,
    cancel_calls: Seq<BackendCall<S>>,
    cancel_result: Result<Option<Cancellation>, PlaybackError>,
    after_cancel: ActorModel<S>,
)
    requires
        before.submitted(job, mode, calls, result, after),
        before.cancelled(id, cancel_calls, cancel_result, after_cancel),
    ensures
        before.unhealthy ==> (result matches Err(PlaybackError::Backend(reason)) && reason@
            == "playback backend is unhealthy after a failed stop"@),
        !before.active.contains(id) && !actor::pending_ids(before.pending).contains(id)
            && before.statuses.contains_key(id) && (before.statuses[id] is Accepted
            || before.statuses[id] is Playing) ==> (cancel_result matches Err(
            PlaybackError::Backend(reason),
        ) && reason@ == "playback status is inconsistent with actor state"@),
{
    let waiting = actor::pending_ids(before.pending);
    waiting.index_of_first_ensures(id);
}

/// An item that ends is told of, with its error where it has one, before anything
/// that starts in its place; one call on the backend goes with it, and each further
/// call starts an item and is told of.
pub proof fn law_ends_are_told_first<S>(
    before: ActorModel<S>,
    id: PlaybackId,
    error: Option<Seq<char>>,
    calls: Seq<BackendCall<S>>,
    after: ActorModel<S>,
)
    requires
        before.finished(id, error, calls, after),
        before.active.contains(id),
    ensures
        calls.len() >= 1,
        after.events.len() == before.events.len() + calls.len(),
        before.events.push(
            EventModel {
                playback_id: id,
                state: if error is None {
                    PlaybackState::Completed
                } else {
                    PlaybackState::Failed
                },
                error,
            },
        ).is_prefix_of(after.events),
        before.unhealthy ==> calls.len() == 1 && after.pending == before.pending,
{
    let state = if error is None {
        PlaybackState::Completed
    } else {
        PlaybackState::Failed
    };
    let next = before.deactivate(id).record(id, state, error);
    assert(next.events =~= before.events.push(EventModel { playback_id: id, state, error }));
    if !before.unhealthy {
        schedule_laws::law_round_tells_of_every_item(next, calls.skip(1), after);
    } else {
        assert(after.events =~= after.events.take(next.events.len() as int));
    }
}

/// A cancelled item is told of as interrupted, before anything that starts in its
/// place. One that had ended or is not known is not told of.
pub proof fn law_cancellations_are_told_first<S>(
    before: ActorModel<S>,
    id: PlaybackId,
    calls: Seq<BackendCall<S>>,
    result: Result<Option<Cancellation>, PlaybackError>,
    after: ActorModel<S>,
)
    requires
        before.cancelled(id, calls, result, after),
    ensures
        match result {
            Ok(Some(done)) => if done.cancelled {
                &&& done.playback_id == id
                &&& done.state == PlaybackState::Interrupted
                &&& before.events.push(told(id, PlaybackState::Interrupted)).is_prefix_of(
                    after.events,
                )
                &&& before.active.contains(id) ==> after.events.len() == before.events.len()
                    + calls.len()
                &&& !before.active.contains(id) ==> after.events.len() == before.events.len() + 1
            } else {
                &&& done.playback_id == id
                &&& after.events == before.events
                &&& has_state(before, id, done.state)
            },
            _ => after.events == before.events,
        },
{
    let told_of = before.events.push(told(id, PlaybackState::Interrupted));
    if before.active.contains(id) {
        if calls[0].reply() is Ok {
            let next = before.deactivate(id).record(id, PlaybackState::Interrupted, None);
            assert(next.events =~= told_of);
            if !before.unhealthy {
                schedule_laws::law_round_tells_of_every_item(next, calls.skip(1), after);
            } else {
                assert(after.events =~= after.events.take(told_of.len() as int));
            }
        }
    } else if actor::pending_ids(before.pending).index_of_first(id) is Some {
        assert(after.events =~= told_of);
        assert(after.events =~= after.events.take(told_of.len() as int));
    }
}

} // verus!
