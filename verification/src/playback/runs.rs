//! Whatever is asked of a playback actor, one operation after the other.
use super::actor;
use super::actor::{
    Acceptance, ActorModel, BackendCall, Cancellation, EmergencyStop, EventModel, Pending,
    PlaybackState,
    PLAYBACK_STATUS_RETENTION_ITEMS,
};
use super::error::PlaybackError;
use super::job::{ConcurrencyMode, PlaybackId, PlaybackJob};
use vstd::prelude::*;

verus! {

/// One operation on an actor, with its answer.
pub enum Operation<S> {
    Submit {
        job: PlaybackJob<S>,
        mode: ConcurrencyMode,
        result: Result<Acceptance, PlaybackError>,
    },
    Cancel { id: PlaybackId, result: Result<Option<Cancellation>, PlaybackError> },
    Finish { id: PlaybackId, error: Option<Seq<char>> },
    StopEverything { result: Result<EmergencyStop, PlaybackError> },
    ShutDown { result: Result<(), PlaybackError> },
    TakeEvents,
}

impl<S> Operation<S> {
    /// The operation submits this item.
    pub open spec fn submits(self, id: PlaybackId) -> bool {
        self matches Operation::Submit { job, .. } && job.id == id
    }
}

impl<S> ActorModel<S> {
    /// An operation led to `after` by these backend calls.
    pub open spec fn performed(
        self,
        operation: Operation<S>,
        calls: Seq<BackendCall<S>>,
        after: Self,
    ) -> bool {
        match operation {
            Operation::Submit { job, mode, result } => self.submitted(
                job,
                mode,
                calls,
                result,
                after,
            ),
            Operation::Cancel { id, result } => self.cancelled(id, calls, result, after),
            Operation::Finish { id, error } => self.finished(id, error, calls, after),
            Operation::StopEverything { result } => self.emergency_stopped(calls, result, after),
            Operation::ShutDown { result } => self.shut_down(calls, result, after),
            Operation::TakeEvents => {
                &&& calls.len() == 0
                &&& after == ActorModel { events: Seq::empty(), ..self }
            },
        }
    }
}

/// The items that these events ended, in that order.
pub open spec fn ended_ids(events: Seq<EventModel>) -> Seq<PlaybackId>
    decreases events.len(),
{
    if events.len() == 0 {
        Seq::empty()
    } else if events.last().state.ended() {
        ended_ids(events.drop_last()).push(events.last().playback_id)
    } else {
        ended_ids(events.drop_last())
    }
}

/// The items that ended last: all of them, or as many as are retained.
pub open spec fn newest(ended: Seq<PlaybackId>) -> Seq<PlaybackId> {
    if ended.len() > PLAYBACK_STATUS_RETENTION_ITEMS {
        ended.skip(ended.len() - PLAYBACK_STATUS_RETENTION_ITEMS)
    } else {
        ended
    }
}

/// How many items ended after this one did.
pub open spec fn ended_after(ended: Seq<PlaybackId>, id: PlaybackId) -> nat
    decreases ended.len(),
{
    if ended.len() == 0 || ended.last() == id {
        0
    } else {
        1 + ended_after(ended.drop_last(), id)
    }
}

/// What is known of the past of an actor.
pub struct Past {
    pub maximum_queue_items: nat,
    pub maximum_active_items: nat,
    /// Every item that was submitted.
    pub submitted: Set<PlaybackId>,
    /// Every item that ever had a status.
    pub known: Set<PlaybackId>,
    /// Every item that had ended by the time of the last operation, in that order.
    pub ended: Seq<PlaybackId>,
    /// How many of the actor's events were there by then.
    pub events: nat,
}

impl<S> ActorModel<S> {
    /// Every item that has ended by now, in that order.
    pub open spec fn ended_by_now(self, past: Past) -> Seq<PlaybackId> {
        past.ended + ended_ids(self.events.skip(past.events as int))
    }

    /// The actor agrees with its past: no item ended twice, those that ended last
    /// are retained, and whatever was known is in flight or has ended.
    pub open spec fn agrees(self, past: Past) -> bool {
        let ended = self.ended_by_now(past);
        &&& self.maximum_queue_items == past.maximum_queue_items
        &&& self.maximum_active_items == past.maximum_active_items
        &&& past.events <= self.events.len()
        &&& ended.no_duplicates()
        &&& self.terminal == newest(ended)
        &&& forall|id: PlaybackId| #[trigger]
            ended.contains(id) ==> !self.in_flight(id) && past.submitted.contains(id)
        &&& forall|id: PlaybackId| #[trigger]
            self.statuses.contains_key(id) ==> past.submitted.contains(id)
        &&& forall|id: PlaybackId| #[trigger]
            past.known.contains(id) ==> self.in_flight(id) || ended.contains(id)
    }
}

/// One more item at the end of a list.
proof fn lemma_one_more(ids: Seq<PlaybackId>, id: PlaybackId)
    ensures
        forall|x: PlaybackId| #[trigger] ids.push(id).contains(x) <==> ids.contains(x) || x == id,
        ids.no_duplicates() && !ids.contains(id) ==> ids.push(id).no_duplicates(),
{
    let more = ids.push(id);
    assert(more[ids.len() as int] == id);
    assert forall|x: PlaybackId| #[trigger] more.contains(x) <==> ids.contains(x) || x == id by {
        if ids.contains(x) {
            let i = choose|i: int| 0 <= i < ids.len() && ids[i] == x;
            assert(more[i] == x);
        }
        if more.contains(x) && x != id {
            let i = choose|i: int| 0 <= i < more.len() && more[i] == x;
            assert(ids[i] == x);
        }
    }
}

/// A recorded state is one more event; an ended item is one more that has ended.
proof fn lemma_record_is_listed<S>(
    before: ActorModel<S>,
    past: Past,
    id: PlaybackId,
    state: PlaybackState,
    error: Option<Seq<char>>,
)
    requires
        past.events <= before.events.len(),
    ensures
        before.record(id, state, error).ended_by_now(past) == if state.ended() {
            before.ended_by_now(past).push(id)
        } else {
            before.ended_by_now(past)
        },
{
    let from = past.events as int;
    let event = EventModel { playback_id: id, state, error };
    let earlier = before.events.skip(from);
    let later = before.events.push(event).skip(from);
    assert(later =~= earlier.push(event));
    assert(later.drop_last() =~= earlier);
    if state.ended() {
        assert(past.ended + ended_ids(earlier).push(id) =~= (past.ended + ended_ids(earlier)).push(
            id,
        ));
    }
}

/// Recording a state of an item in flight, or of a new one, keeps the agreement
/// with the past, and every other item that is in flight stays so.
proof fn lemma_agrees_through_record<S>(
    before: ActorModel<S>,
    past: Past,
    id: PlaybackId,
    state: PlaybackState,
    error: Option<Seq<char>>,
)
    requires
        before.agrees(past),
        before.in_flight(id) || (past.submitted.contains(id) && !before.statuses.contains_key(id)
            && !before.ended_by_now(past).contains(id)),
    ensures
        before.record(id, state, error).agrees(past),
        forall|x: PlaybackId|
            x != id && before.in_flight(x) ==> #[trigger] before.record(
                id,
                state,
                error,
            ).in_flight(x),
        !state.ended() ==> before.record(id, state, error).in_flight(id),
{
    let after = before.record(id, state, error);
    let ended = before.ended_by_now(past);
    let later = after.ended_by_now(past);
    lemma_record_is_listed(before, past, id, state, error);
    assert(!ended.contains(id));
    lemma_one_more(ended, id);
    if before.in_flight(id) {
        assert(before.statuses.contains_key(id));
    }
    let longer = if state.ended() {
        before.terminal.push(id)
    } else {
        before.terminal
    };
    assert(newest(later) =~= if longer.len() > PLAYBACK_STATUS_RETENTION_ITEMS {
        longer.skip(1)
    } else {
        longer
    });
    // What is forgotten had ended.
    assert(longer.len() > 0 ==> later.contains(longer[0])) by {
        if longer.len() > 0 {
            let first = if later.len() > longer.len() {
                later.len() - longer.len()
            } else {
                0
            };
            assert(longer[0] == later[first]);
        }
    }
    assert(after.agrees(past));
}

/// Where items play and wait has no bearing on the agreement with the past.
proof fn lemma_agrees_wherever_items_stand<S>(
    before: ActorModel<S>,
    after: ActorModel<S>,
    past: Past,
)
    requires
        before.agrees(past),
        after == (ActorModel {
            active: after.active,
            pending: after.pending,
            unhealthy: after.unhealthy,
            ..before
        }),
    ensures
        after.agrees(past),
        forall|x: PlaybackId| #[trigger] after.in_flight(x) <==> before.in_flight(x),
{
}

/// The last of some distinct items is none of those before it.
proof fn lemma_last_is_apart(ids: Seq<PlaybackId>)
    requires
        ids.len() > 0,
        ids.no_duplicates(),
    ensures
        ids.drop_last().no_duplicates(),
        !ids.drop_last().contains(ids.last()),
        ids.contains(ids.last()),
        forall|x: PlaybackId| #[trigger] ids.drop_last().contains(x) ==> ids.contains(x),
{
    assert(ids[ids.len() - 1] == ids.last());
    assert forall|x: PlaybackId| #[trigger] ids.drop_last().contains(x) implies ids.contains(x) by {
        let i = choose|i: int| 0 <= i < ids.drop_last().len() && ids.drop_last()[i] == x;
        assert(ids[i] == x);
    }
}

/// Answered stops keep the agreement with the past.
proof fn lemma_agrees_through_stops<S>(
    before: ActorModel<S>,
    ids: Seq<PlaybackId>,
    calls: Seq<BackendCall<S>>,
    past: Past,
)
    requires
        before.agrees(past),
        ids.no_duplicates(),
        forall|x: PlaybackId| ids.contains(x) ==> #[trigger] before.in_flight(x),
    ensures
        before.stops_replied(ids, calls).agrees(past),
        before.stops_replied(ids, calls).pending == before.pending,
        forall|x: PlaybackId|
            before.in_flight(x) && !ids.contains(x) ==> #[trigger] before.stops_replied(
                ids,
                calls,
            ).in_flight(x),
    decreases ids.len(),
{
    if ids.len() > 0 && calls.len() > 0 {
        let last = ids.last();
        lemma_last_is_apart(ids);
        lemma_agrees_through_stops(before, ids.drop_last(), calls.drop_last(), past);
        let earlier = before.stops_replied(ids.drop_last(), calls.drop_last());
        assert(before.in_flight(last));
        assert(earlier.in_flight(last));
        let freed = earlier.deactivate(last);
        lemma_agrees_wherever_items_stand(earlier, freed, past);
        lemma_agrees_through_record(freed, past, last, PlaybackState::Interrupted, None);
        assert forall|x: PlaybackId| before.in_flight(x) && !ids.contains(
            x,
        ) implies #[trigger] before.stops_replied(ids, calls).in_flight(x) by {
            assert(earlier.in_flight(x));
            assert(freed.in_flight(x));
        }
    }
}

/// Interruptions keep the agreement with the past.
proof fn lemma_agrees_through_interruptions<S>(
    before: ActorModel<S>,
    ids: Seq<PlaybackId>,
    past: Past,
)
    requires
        before.agrees(past),
        ids.no_duplicates(),
        forall|x: PlaybackId| ids.contains(x) ==> #[trigger] before.in_flight(x),
    ensures
        before.interrupted(ids).agrees(past),
        forall|x: PlaybackId|
            before.in_flight(x) && !ids.contains(x) ==> #[trigger] before.interrupted(
                ids,
            ).in_flight(x),
    decreases ids.len(),
{
    if ids.len() > 0 {
        let last = ids.last();
        lemma_last_is_apart(ids);
        lemma_agrees_through_interruptions(before, ids.drop_last(), past);
        let earlier = before.interrupted(ids.drop_last());
        assert(before.in_flight(last));
        assert(earlier.in_flight(last));
        lemma_agrees_through_record(earlier, past, last, PlaybackState::Interrupted, None);
        assert forall|x: PlaybackId| before.in_flight(x) && !ids.contains(
            x,
        ) implies #[trigger] before.interrupted(ids).in_flight(x) by {
            assert(earlier.in_flight(x));
        }
    }
}

/// Releasing items keeps the agreement with the past.
proof fn lemma_agrees_through_releases<S>(before: ActorModel<S>, ids: Seq<PlaybackId>, past: Past)
    requires
        before.agrees(past),
        ids.no_duplicates(),
        forall|x: PlaybackId| ids.contains(x) ==> #[trigger] before.in_flight(x),
    ensures
        before.released(ids).agrees(past),
        forall|x: PlaybackId|
            before.in_flight(x) && !ids.contains(x) ==> #[trigger] before.released(ids).in_flight(
                x,
            ),
    decreases ids.len(),
{
    if ids.len() > 0 {
        let last = ids.last();
        lemma_last_is_apart(ids);
        lemma_agrees_through_releases(before, ids.drop_last(), past);
        let earlier = before.released(ids.drop_last());
        assert(before.in_flight(last));
        assert(earlier.in_flight(last));
        let freed = earlier.deactivate(last);
        lemma_agrees_wherever_items_stand(earlier, freed, past);
        lemma_agrees_through_record(freed, past, last, PlaybackState::Interrupted, None);
        assert forall|x: PlaybackId| before.in_flight(x) && !ids.contains(
            x,
        ) implies #[trigger] before.released(ids).in_flight(x) by {
            assert(earlier.in_flight(x));
            assert(freed.in_flight(x));
        }
    }
}

/// Working through the FIFO keeps the agreement with the past.
proof fn lemma_agrees_through_round<S>(
    before: ActorModel<S>,
    calls: Seq<BackendCall<S>>,
    after: ActorModel<S>,
    past: Past,
)
    requires
        before.advanced(calls, after),
        before.agrees(past),
        actor::pending_ids(before.pending).no_duplicates(),
        forall|x: PlaybackId|
            actor::pending_ids(before.pending).contains(x) ==> #[trigger] before.in_flight(x),
    ensures
        after.agrees(past),
    decreases calls.len(),
{
    if before.head_may_start() {
        let waiting = actor::pending_ids(before.pending);
        let head = before.pending[0].job.id;
        let taken = before.head_taken();
        let left = actor::pending_ids(taken.pending);
        assert(left =~= waiting.skip(1));
        assert(waiting[0] == head);
        assert(waiting.contains(head));
        assert(before.in_flight(head));
        let reply = calls[0].reply();
        let next = taken.start_replied(head, reply, true);
        let placed = if reply is Ok {
            taken.activate(head)
        } else {
            taken
        };
        lemma_agrees_wherever_items_stand(before, placed, past);
        match reply {
            Ok(()) => {
                lemma_agrees_through_record(placed, past, head, PlaybackState::Playing, None);
            },
            Err(error) => {
                lemma_agrees_through_record(
                    placed,
                    past,
                    head,
                    PlaybackState::Failed,
                    Some(error.message_text()),
                );
            },
        }
        assert forall|x: PlaybackId| left.contains(x) implies #[trigger] next.in_flight(x) by {
            let i = choose|i: int| 0 <= i < left.len() && left[i] == x;
            assert(waiting[i + 1] == x);
            assert(waiting.contains(x));
            assert(before.in_flight(x));
            assert(placed.in_flight(x));
        }
        if !(reply is Ok && before.pending[0].mode != ConcurrencyMode::Mix) {
            lemma_agrees_through_round(next, calls.skip(1), after, past);
        }
    }
}

/// A start of a new item keeps the agreement with the past, in which it was
/// submitted.
proof fn lemma_agrees_through_new_start<S>(
    before: ActorModel<S>,
    id: PlaybackId,
    reply: Result<(), PlaybackError>,
    past: Past,
)
    requires
        before.agrees(past),
        past.submitted.contains(id),
        !before.statuses.contains_key(id),
        !before.ended_by_now(past).contains(id),
    ensures
        before.start_replied(id, reply, false).agrees(past),
{
    if reply is Ok {
        let playing = before.activate(id);
        lemma_agrees_wherever_items_stand(before, playing, past);
        lemma_agrees_through_record(playing, past, id, PlaybackState::Accepted, None);
        let accepted = playing.record(id, PlaybackState::Accepted, None);
        lemma_agrees_through_record(accepted, past, id, PlaybackState::Playing, None);
    }
}

impl Past {
    /// The past with what an operation submits.
    pub open spec fn asked<S>(self, operation: Operation<S>) -> Self {
        match operation {
            Operation::Submit { job, .. } => Past {
                submitted: self.submitted.insert(job.id),
                ..self
            },
            _ => self,
        }
    }
}

/// What plays and what waits is in flight, and nothing does both.
proof fn lemma_standing_is_in_flight<S>(model: ActorModel<S>)
    requires
        model.consistent(),
    ensures
        forall|x: PlaybackId| model.active.contains(x) ==> #[trigger] model.in_flight(x),
        forall|x: PlaybackId|
            actor::pending_ids(model.pending).contains(x) ==> #[trigger] model.in_flight(x),
        forall|x: PlaybackId| #[trigger]
            model.active.contains(x) ==> !actor::pending_ids(model.pending).contains(x),
{
    assert forall|x: PlaybackId| model.active.contains(x) implies #[trigger] model.in_flight(
        x,
    ) by {
        assert(model.statuses[x] == PlaybackState::Playing);
    }
    assert forall|x: PlaybackId|
        actor::pending_ids(model.pending).contains(x) implies #[trigger] model.in_flight(x) by {
        assert(model.statuses[x] == PlaybackState::Accepted);
    }
}

/// Emptying the FIFO keeps the agreement with the past.
proof fn lemma_agrees_through_discard<S>(before: ActorModel<S>, past: Past)
    requires
        before.consistent(),
        before.agrees(past),
    ensures
        before.queue_discarded().agrees(past),
        forall|x: PlaybackId|
            before.active.contains(x) ==> #[trigger] before.queue_discarded().in_flight(x),
{
    lemma_standing_is_in_flight(before);
    let emptied = ActorModel { pending: Seq::empty(), ..before };
    let ids = actor::pending_ids(before.pending);
    lemma_agrees_wherever_items_stand(before, emptied, past);
    lemma_agrees_through_interruptions(emptied, ids, past);
    assert forall|x: PlaybackId|
        before.active.contains(x) implies #[trigger] before.queue_discarded().in_flight(x) by {
        assert(before.in_flight(x));
        assert(emptied.in_flight(x));
    }
}

/// The end of a playing item, and the round after it, keep the agreement with
/// the past.
proof fn lemma_agrees_through_end<S>(
    before: ActorModel<S>,
    id: PlaybackId,
    state: PlaybackState,
    error: Option<Seq<char>>,
    calls: Seq<BackendCall<S>>,
    after: ActorModel<S>,
    past: Past,
)
    requires
        before.consistent(),
        before.agrees(past),
        before.active.contains(id),
    ensures
        before.deactivate(id).record(id, state, error).agrees(past),
        before.deactivate(id).record(id, state, error).advanced(calls, after) ==> after.agrees(
            past,
        ),
{
    lemma_standing_is_in_flight(before);
    let freed = before.deactivate(id);
    let next = freed.record(id, state, error);
    let waiting = actor::pending_ids(before.pending);
    assert(before.in_flight(id));
    lemma_agrees_wherever_items_stand(before, freed, past);
    lemma_agrees_through_record(freed, past, id, state, error);
    assert forall|x: PlaybackId| waiting.contains(x) implies #[trigger] next.in_flight(x) by {
        assert(before.in_flight(x));
        assert(freed.in_flight(x));
    }
    if next.advanced(calls, after) {
        lemma_agrees_through_round(next, calls, after, past);
    }
}

/// A submission keeps the agreement with the past.
proof fn lemma_agrees_through_submission<S>(
    before: ActorModel<S>,
    job: PlaybackJob<S>,
    mode: ConcurrencyMode,
    calls: Seq<BackendCall<S>>,
    result: Result<Acceptance, PlaybackError>,
    after: ActorModel<S>,
    past: Past,
)
    requires
        before.consistent(),
        before.agrees(past),
        before.submitted(job, mode, calls, result, after),
        !past.submitted.contains(job.id),
    ensures
        after.agrees(Past { submitted: past.submitted.insert(job.id), ..past }),
{
    let id = job.id;
    let grown = Past { submitted: past.submitted.insert(id), ..past };
    lemma_standing_is_in_flight(before);
    assert(before.ended_by_now(grown) == before.ended_by_now(past));
    assert(before.agrees(grown));
    assert(!before.ended_by_now(past).contains(id));
    if before.unhealthy {
    } else if before.must_wait(mode) {
        if before.pending.len() < before.maximum_queue_items {
            let item = Pending { job, mode };
            let waiting = ActorModel { pending: before.pending.push(item), ..before };
            lemma_agrees_wherever_items_stand(before, waiting, grown);
            lemma_agrees_through_record(waiting, grown, id, PlaybackState::Accepted, None);
        }
    } else if mode == ConcurrencyMode::Interrupt && before.active.len() > 0 {
        let count = before.active.len() as int;
        let stopping = calls.take(count);
        let stopped = before.stops_replied(before.active, stopping);
        lemma_agrees_through_stops(before, before.active, stopping, past);
        assert(stopped.ended_by_now(grown) == stopped.ended_by_now(past));
        assert(stopped.agrees(grown));
        assert(!stopped.ended_by_now(past).contains(id));
        if actor::first_error(stopping) is None {
            let reply = calls[count].reply();
            if reply is Ok {
                lemma_agrees_through_new_start(stopped, id, reply, grown);
            } else {
                let waiting = actor::pending_ids(stopped.pending);
                assert forall|x: PlaybackId|
                    waiting.contains(x) implies #[trigger] stopped.in_flight(x) by {
                    assert(before.in_flight(x));
                    assert(!before.active.contains(x));
                }
                lemma_agrees_through_round(stopped, calls.skip(count + 1), after, grown);
            }
        } else {
            lemma_agrees_wherever_items_stand(stopped, after, grown);
        }
    } else {
        lemma_agrees_through_new_start(before, id, calls[0].reply(), grown);
    }
}

/// Whatever is done, the actor agrees with its past.
pub proof fn lemma_agrees_through_operation<S>(
    before: ActorModel<S>,
    operation: Operation<S>,
    calls: Seq<BackendCall<S>>,
    after: ActorModel<S>,
    past: Past,
)
    requires
        before.consistent(),
        before.agrees(past),
        before.performed(operation, calls, after),
        forall|id: PlaybackId| #[trigger]
            past.submitted.contains(id) ==> !operation.submits(id),
        !(operation is TakeEvents),
    ensures
        after.agrees(past.asked(operation)),
{
    lemma_standing_is_in_flight(before);
    match operation {
        Operation::Submit { job, mode, result } => {
            assert(operation.submits(job.id));
            lemma_agrees_through_submission(before, job, mode, calls, result, after, past);
        },
        Operation::Cancel { id, .. } => {
            if before.active.contains(id) {
                if calls[0].reply() is Ok {
                    let state = PlaybackState::Interrupted;
                    lemma_agrees_through_end(before, id, state, None, calls.skip(1), after, past);
                } else {
                    lemma_agrees_wherever_items_stand(before, after, past);
                }
            } else {
                let ids = actor::pending_ids(before.pending);
                ids.index_of_first_ensures(id);
                if let Some(position) = ids.index_of_first(id) {
                    let fewer = ActorModel { pending: before.pending.remove(position), ..before };
                    assert(ids.contains(id));
                    assert(before.in_flight(id));
                    lemma_agrees_wherever_items_stand(before, fewer, past);
                    lemma_agrees_through_record(
                        fewer,
                        past,
                        id,
                        PlaybackState::Interrupted,
                        None,
                    );
                }
            }
        },
        Operation::Finish { id, error } => {
            if before.active.contains(id) {
                let state = match error {
                    None => PlaybackState::Completed,
                    Some(_) => PlaybackState::Failed,
                };
                lemma_agrees_through_end(before, id, state, error, calls.skip(1), after, past);
            }
        },
        Operation::StopEverything { .. } => {
            let discarded = before.queue_discarded();
            lemma_agrees_through_discard(before, past);
            lemma_agrees_through_stops(discarded, before.active, calls, past);
            let stopped = discarded.stops_replied(before.active, calls);
            lemma_agrees_wherever_items_stand(stopped, after, past);
        },
        Operation::ShutDown { .. } => {
            lemma_agrees_through_discard(before, past);
            lemma_agrees_through_releases(before.queue_discarded(), before.active, past);
        },
        Operation::TakeEvents => {},
    }
}

} // verus!
