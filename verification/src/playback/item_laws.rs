//! What becomes of a single item across operations.
use super::actor;
use super::actor::{
    Acceptance, ActorModel, BackendCall, Cancellation, Pending, PlaybackState,
};
use super::error::PlaybackError;
use super::job::{ConcurrencyMode, PlaybackId, PlaybackJob};
use super::runs::Operation;
use vstd::prelude::*;

verus! {

impl<S> ActorModel<S> {
    /// An item neither plays nor waits, and has this state as long as it is
    /// remembered.
    pub open spec fn at_rest(self, id: PlaybackId, state: PlaybackState) -> bool {
        &&& !self.active.contains(id)
        &&& !actor::pending_ids(self.pending).contains(id)
        &&& self.statuses.contains_key(id) ==> self.statuses[id] == state
    }
}

/// Fewer waiting items wait for nothing new.
proof fn lemma_fewer_waiting<S>(pending: Seq<Pending<S>>, position: int, id: PlaybackId)
    requires
        0 <= position < pending.len(),
        !actor::pending_ids(pending).contains(id),
    ensures
        !actor::pending_ids(pending.remove(position)).contains(id),
        pending[position].job.id != id,
{
    let ids = actor::pending_ids(pending);
    let rest = actor::pending_ids(pending.remove(position));
    assert(ids[position] == pending[position].job.id);
    if rest.contains(id) {
        let i = choose|i: int| 0 <= i < rest.len() && rest[i] == id;
        let j = if i < position {
            i
        } else {
            i + 1
        };
        assert(ids[j] == id);
    }
}

/// A start of another item leaves an item at rest.
proof fn lemma_rest_through_start<S>(
    before: ActorModel<S>,
    other: PlaybackId,
    reply: Result<(), PlaybackError>,
    accepted: bool,
    id: PlaybackId,
    state: PlaybackState,
)
    requires
        before.at_rest(id, state),
        other != id,
    ensures
        before.start_replied(other, reply, accepted).at_rest(id, state),
{
    let playing = before.activate(other);
    if playing.active.contains(id) {
        let i = choose|i: int| 0 <= i < playing.active.len() && playing.active[i] == id;
        assert(before.active[i] == id);
    }
}

/// Working through the FIFO leaves an item at rest.
pub proof fn lemma_rest_through_round<S>(
    before: ActorModel<S>,
    calls: Seq<BackendCall<S>>,
    after: ActorModel<S>,
    id: PlaybackId,
    state: PlaybackState,
)
    requires
        before.advanced(calls, after),
        before.at_rest(id, state),
    ensures
        after.at_rest(id, state),
    decreases calls.len(),
{
    if before.head_may_start() {
        lemma_fewer_waiting(before.pending, 0, id);
        assert(before.pending.remove(0) =~= before.pending.skip(1));
        let head = before.pending[0].job.id;
        let reply = calls[0].reply();
        lemma_rest_through_start(before.head_taken(), head, reply, true, id, state);
        let next = before.head_taken().start_replied(head, reply, true);
        if !(reply is Ok && before.pending[0].mode != ConcurrencyMode::Mix) {
            lemma_rest_through_round(next, calls.skip(1), after, id, state);
        }
    }
}

/// The end of another playing item leaves an item at rest.
proof fn lemma_rest_through_end<S>(
    before: ActorModel<S>,
    other: PlaybackId,
    ended: PlaybackState,
    error: Option<Seq<char>>,
    id: PlaybackId,
    state: PlaybackState,
)
    requires
        before.at_rest(id, state),
        other != id,
    ensures
        before.deactivate(other).record(other, ended, error).at_rest(id, state),
{
    actor::lemma_without(before.active, other);
}

/// Answered stops of other items leave an item at rest.
proof fn lemma_rest_through_stops<S>(
    before: ActorModel<S>,
    ids: Seq<PlaybackId>,
    calls: Seq<BackendCall<S>>,
    id: PlaybackId,
    state: PlaybackState,
)
    requires
        before.at_rest(id, state),
        !ids.contains(id),
    ensures
        before.stops_replied(ids, calls).at_rest(id, state),
    decreases ids.len(),
{
    if ids.len() > 0 && calls.len() > 0 {
        assert(ids.contains(ids.last()));
        assert forall|x: PlaybackId| ids.drop_last().contains(x) implies ids.contains(x) by {
            let i = choose|i: int| 0 <= i < ids.drop_last().len() && ids.drop_last()[i] == x;
            assert(ids[i] == x);
        }
        let earlier = before.stops_replied(ids.drop_last(), calls.drop_last());
        lemma_rest_through_stops(before, ids.drop_last(), calls.drop_last(), id, state);
        lemma_rest_through_end(
            earlier,
            ids.last(),
            PlaybackState::Interrupted,
            None,
            id,
            state,
        );
    }
}

/// What interrupting some items makes of any item: one of them is interrupted,
/// another keeps its state, as long as it is remembered.
pub proof fn lemma_interrupted_state<S>(before: ActorModel<S>, ids: Seq<PlaybackId>, id: PlaybackId)
    ensures
        before.interrupted(ids).active == before.active,
        before.interrupted(ids).pending == before.pending,
        before.interrupted(ids).statuses.contains_key(id) ==> if ids.contains(id) {
            before.interrupted(ids).statuses[id] == PlaybackState::Interrupted
        } else {
            before.statuses.contains_key(id) && before.interrupted(ids).statuses[id]
                == before.statuses[id]
        },
    decreases ids.len(),
{
    if ids.len() > 0 {
        lemma_interrupted_state(before, ids.drop_last(), id);
        lemma_last_or_earlier(ids, id);
    }
}

/// What releasing some items makes of any item.
proof fn lemma_released_state<S>(before: ActorModel<S>, ids: Seq<PlaybackId>, id: PlaybackId)
    ensures
        before.released(ids).pending == before.pending,
        !before.active.contains(id) ==> !before.released(ids).active.contains(id),
        before.released(ids).statuses.contains_key(id) ==> if ids.contains(id) {
            before.released(ids).statuses[id] == PlaybackState::Interrupted
        } else {
            before.statuses.contains_key(id) && before.released(ids).statuses[id]
                == before.statuses[id]
        },
    decreases ids.len(),
{
    if ids.len() > 0 {
        lemma_released_state(before, ids.drop_last(), id);
        lemma_last_or_earlier(ids, id);
        actor::lemma_without(before.released(ids.drop_last()).active, ids.last());
    }
}

/// An item of a list is its last one or stands before it.
proof fn lemma_last_or_earlier(ids: Seq<PlaybackId>, id: PlaybackId)
    requires
        ids.len() > 0,
    ensures
        ids.contains(id) <==> ids.last() == id || ids.drop_last().contains(id),
{
    if ids.contains(id) && ids.last() != id {
        let i = choose|i: int| 0 <= i < ids.len() && ids[i] == id;
        assert(ids.drop_last()[i] == id);
    }
    if ids.drop_last().contains(id) {
        let i = choose|i: int| 0 <= i < ids.drop_last().len() && ids.drop_last()[i] == id;
        assert(ids[i] == id);
    }
    assert(ids[ids.len() - 1] == ids.last());
}

/// Emptying the FIFO leaves an item at rest.
proof fn lemma_rest_through_discard<S>(
    before: ActorModel<S>,
    id: PlaybackId,
    state: PlaybackState,
)
    requires
        before.at_rest(id, state),
    ensures
        before.queue_discarded().at_rest(id, state),
        before.queue_discarded().active == before.active,
{
    let emptied = ActorModel { pending: Seq::empty(), ..before };
    lemma_interrupted_state(emptied, actor::pending_ids(before.pending), id);
    assert(actor::pending_ids(emptied.pending) =~= Seq::empty());
}

/// A submission of another item leaves an item at rest.
proof fn lemma_rest_through_submission<S>(
    before: ActorModel<S>,
    job: PlaybackJob<S>,
    mode: ConcurrencyMode,
    calls: Seq<BackendCall<S>>,
    result: Result<Acceptance, PlaybackError>,
    after: ActorModel<S>,
    id: PlaybackId,
    state: PlaybackState,
)
    requires
        before.submitted(job, mode, calls, result, after),
        before.at_rest(id, state),
        job.id != id,
    ensures
        after.at_rest(id, state),
{
    if !before.unhealthy {
        if before.must_wait(mode) {
            let item = Pending { job, mode };
            let ids = actor::pending_ids(before.pending);
            let more = actor::pending_ids(before.pending.push(item));
            assert(more =~= ids.push(job.id));
            if more.contains(id) {
                let i = choose|i: int| 0 <= i < more.len() && more[i] == id;
                assert(ids[i] == id);
            }
        } else if mode == ConcurrencyMode::Interrupt && before.active.len() > 0 {
            let count = before.active.len() as int;
            let stopping = calls.take(count);
            lemma_rest_through_stops(before, before.active, stopping, id, state);
            let stopped = before.stops_replied(before.active, stopping);
            if actor::first_error(stopping) is None {
                let reply = calls[count].reply();
                if reply is Ok {
                    lemma_rest_through_start(stopped, job.id, reply, false, id, state);
                } else {
                    lemma_rest_through_round(stopped, calls.skip(count + 1), after, id, state);
                }
            }
        } else {
            lemma_rest_through_start(before, job.id, calls[0].reply(), false, id, state);
        }
    }
}

/// A cancellation leaves an item at rest.
proof fn lemma_rest_through_cancellation<S>(
    before: ActorModel<S>,
    other: PlaybackId,
    calls: Seq<BackendCall<S>>,
    result: Result<Option<Cancellation>, PlaybackError>,
    after: ActorModel<S>,
    id: PlaybackId,
    state: PlaybackState,
)
    requires
        before.cancelled(other, calls, result, after),
        before.at_rest(id, state),
    ensures
        after.at_rest(id, state),
{
    if before.active.contains(other) {
        if calls[0].reply() is Ok {
            let ended = PlaybackState::Interrupted;
            lemma_rest_through_end(before, other, ended, None, id, state);
            if !before.unhealthy {
                let next = before.deactivate(other).record(other, ended, None);
                lemma_rest_through_round(next, calls.skip(1), after, id, state);
            }
        }
    } else {
        let ids = actor::pending_ids(before.pending);
        ids.index_of_first_ensures(other);
        if let Some(position) = ids.index_of_first(other) {
            lemma_fewer_waiting(before.pending, position, id);
        }
    }
}

/// A cancelled item had a status, and is at rest in the state that is answered.
pub proof fn lemma_cancelled_item_rests<S>(
    before: ActorModel<S>,
    id: PlaybackId,
    calls: Seq<BackendCall<S>>,
    cancellation: Cancellation,
    after: ActorModel<S>,
)
    requires
        before.consistent(),
        before.cancelled(id, calls, Ok(Some(cancellation)), after),
    ensures
        before.statuses.contains_key(id),
        cancellation.state.ended(),
        after.at_rest(id, cancellation.state),
{
    let ids = actor::pending_ids(before.pending);
    let state = PlaybackState::Interrupted;
    ids.index_of_first_ensures(id);
    if before.active.contains(id) {
        let next = before.deactivate(id).record(id, state, None);
        actor::lemma_without(before.active, id);
        assert(before.statuses[id] == PlaybackState::Playing);
        assert(next.at_rest(id, state));
        if !before.unhealthy {
            lemma_rest_through_round(next, calls.skip(1), after, id, state);
        }
    } else if let Some(position) = ids.index_of_first(id) {
        let rest = actor::pending_ids(before.pending.remove(position));
        assert(ids.contains(id));
        if rest.contains(id) {
            let i = choose|i: int| 0 <= i < rest.len() && rest[i] == id;
            let j = if i < position {
                i
            } else {
                i + 1
            };
            assert(ids[j] == id);
        }
    }
}

/// An operation that does not submit an item leaves it at rest.
pub proof fn lemma_rest_through_operation<S>(
    before: ActorModel<S>,
    operation: Operation<S>,
    calls: Seq<BackendCall<S>>,
    after: ActorModel<S>,
    id: PlaybackId,
    state: PlaybackState,
)
    requires
        before.performed(operation, calls, after),
        before.at_rest(id, state),
        !operation.submits(id),
    ensures
        after.at_rest(id, state),
{
    match operation {
        Operation::Submit { job, mode, result } => {
            lemma_rest_through_submission(before, job, mode, calls, result, after, id, state);
        },
        Operation::Cancel { id: other, result } => {
            lemma_rest_through_cancellation(before, other, calls, result, after, id, state);
        },
        Operation::Finish { id: other, error } => {
            if before.active.contains(other) {
                let ended = match error {
                    None => PlaybackState::Completed,
                    Some(_) => PlaybackState::Failed,
                };
                lemma_rest_through_end(before, other, ended, error, id, state);
                if !before.unhealthy {
                    let next = before.deactivate(other).record(other, ended, error);
                    lemma_rest_through_round(next, calls.skip(1), after, id, state);
                }
            }
        },
        Operation::StopEverything { .. } => {
            lemma_rest_through_discard(before, id, state);
            lemma_rest_through_stops(before.queue_discarded(), before.active, calls, id, state);
        },
        Operation::ShutDown { .. } => {
            lemma_rest_through_discard(before, id, state);
            lemma_released_state(before.queue_discarded(), before.active, id);
        },
        Operation::TakeEvents => {},
    }
}

/// An item that has ended keeps its state: whatever is done next, it neither
/// plays nor waits again, and is remembered with that state if at all.
pub proof fn law_ended_item_keeps_its_state<S>(
    before: ActorModel<S>,
    operation: Operation<S>,
    calls: Seq<BackendCall<S>>,
    after: ActorModel<S>,
    id: PlaybackId,
)
    requires
        before.consistent(),
        before.statuses.contains_key(id),
        before.statuses[id].ended(),
        before.performed(operation, calls, after),
        !operation.submits(id),
    ensures
        after.at_rest(id, before.statuses[id]),
{
    let state = before.statuses[id];
    assert(before.at_rest(id, state));
    lemma_rest_through_operation(before, operation, calls, after, id, state);
}

/// Shutting down interrupts every item in flight: each is remembered as
/// interrupted if at all.
pub proof fn law_shutdown_interrupts_what_is_in_flight<S>(
    before: ActorModel<S>,
    calls: Seq<BackendCall<S>>,
    result: Result<(), PlaybackError>,
    after: ActorModel<S>,
    id: PlaybackId,
)
    requires
        before.consistent(),
        before.shut_down(calls, result, after),
        before.in_flight(id),
        after.statuses.contains_key(id),
    ensures
        after.statuses[id] == PlaybackState::Interrupted,
{
    let emptied = ActorModel { pending: Seq::empty(), ..before };
    lemma_interrupted_state(emptied, actor::pending_ids(before.pending), id);
    lemma_released_state(before.queue_discarded(), before.active, id);
}

/// A mixing item starts beside what plays until the limit is reached, and then
/// waits; and it waits wherever anything waits already, so that it skips nothing.
pub proof fn law_mixing_keeps_the_limit_and_the_order<S>(
    before: ActorModel<S>,
    job: PlaybackJob<S>,
    calls: Seq<BackendCall<S>>,
    result: Result<Acceptance, PlaybackError>,
    after: ActorModel<S>,
)
    requires
        before.submitted(job, ConcurrencyMode::Mix, calls, result, after),
        !before.unhealthy,
        !before.active.contains(job.id),
    ensures
        before.active.len() < before.maximum_active_items && before.pending.len() == 0 ==> {
            &&& calls.len() == 1
            &&& calls[0] matches BackendCall::Start(started, _) && started == job
            &&& after.pending == before.pending
            &&& result is Ok ==> after.active == before.active.push(job.id)
            &&& result is Err ==> after == before
        },
        before.active.len() >= before.maximum_active_items || before.pending.len() > 0 ==> {
            &&& calls.len() == 0
            &&& after.active == before.active
            &&& result is Ok ==> after.pending == before.pending.push(
                Pending { job, mode: ConcurrencyMode::Mix },
            )
            &&& result is Err ==> after == before && result == Err::<Acceptance, PlaybackError>(
                PlaybackError::QueueFull,
            )
        },
{
}

} // verus!
