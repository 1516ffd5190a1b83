//! What the playback actor keeps across operations.
use super::actor;
use super::actor::{
    Acceptance, ActorModel, BackendCall, Cancellation, EmergencyStop, Pending, PlaybackState,
    PlaybackStatus, PLAYBACK_STATUS_RETENTION_ITEMS,
};
use super::error::PlaybackError;
use super::job::{ConcurrencyMode, PlaybackId, PlaybackJob};
use vstd::prelude::*;

verus! {

impl<S> ActorModel<S> {
    /// An item has a status that has not ended.
    pub open spec fn in_flight(self, id: PlaybackId) -> bool {
        self.statuses.contains_key(id) && !self.statuses[id].ended()
    }

    /// Every item stands in exactly one place: playing, waiting, ended, or on
    /// its way between two of these (`loose`).
    pub open spec fn placed(self, loose: Set<PlaybackId>) -> bool {
        &&& self.bounded()
        &&& actor::pending_ids(self.pending).no_duplicates()
        &&& self.terminal.no_duplicates()
        &&& forall|id: PlaybackId| #[trigger]
            self.active.contains(id) ==> self.statuses.contains_key(id) && self.statuses[id]
                == PlaybackState::Playing && !loose.contains(id)
        &&& forall|id: PlaybackId| #[trigger]
            actor::pending_ids(self.pending).contains(id) ==> self.statuses.contains_key(id)
                && self.statuses[id] == PlaybackState::Accepted && !loose.contains(id)
        &&& forall|id: PlaybackId| #[trigger]
            self.terminal.contains(id) <==> self.statuses.contains_key(id)
                && self.statuses[id].ended()
        &&& forall|id: PlaybackId| #[trigger] loose.contains(id) ==> self.in_flight(id)
        &&& forall|id: PlaybackId| #[trigger]
            self.in_flight(id) ==> self.active.contains(id) || actor::pending_ids(
                self.pending,
            ).contains(id) || loose.contains(id)
    }

    /// Every item with a status plays, waits, or has ended, and none does two
    /// of these.
    pub open spec fn consistent(self) -> bool {
        self.placed(Set::empty())
    }
}

/// A new item gets a status.
proof fn lemma_accept<S>(before: ActorModel<S>, loose: Set<PlaybackId>, id: PlaybackId)
    requires
        before.placed(loose),
        !before.statuses.contains_key(id),
    ensures
        before.record(id, PlaybackState::Accepted, None).placed(loose.insert(id)),
        !before.active.contains(id),
        !actor::pending_ids(before.pending).contains(id),
        before.record(id, PlaybackState::Accepted, None).statuses == before.statuses.insert(
            id,
            PlaybackState::Accepted,
        ),
{
    actor::lemma_record_keeps_bounds(before, id, PlaybackState::Accepted, None);
    let after = before.record(id, PlaybackState::Accepted, None);
    assert forall|x: PlaybackId| #[trigger] after.in_flight(x) implies after.active.contains(x)
        || actor::pending_ids(after.pending).contains(x) || loose.insert(id).contains(x) by {
        if x != id {
            assert(before.in_flight(x));
        }
    }
    assert forall|x: PlaybackId| #[trigger] loose.insert(id).contains(x) implies after.in_flight(
        x,
    ) by {
        if x != id {
            assert(loose.contains(x));
            assert(before.in_flight(x));
        }
    }
}

/// An item on its way ends.
proof fn lemma_end<S>(
    before: ActorModel<S>,
    loose: Set<PlaybackId>,
    id: PlaybackId,
    state: PlaybackState,
    error: Option<Seq<char>>,
)
    requires
        before.placed(loose),
        loose.contains(id),
        state.ended(),
    ensures
        before.record(id, state, error).placed(loose.remove(id)),
{
    actor::lemma_record_keeps_bounds(before, id, state, error);
    let after = before.record(id, state, error);
    assert(before.in_flight(id));
    assert(!before.terminal.contains(id));
    let terminal = before.terminal.push(id);
    assert(terminal.no_duplicates());
    assert forall|x: PlaybackId| terminal.contains(x) <==> before.terminal.contains(x) || x
        == id by {
        if before.terminal.contains(x) {
            let i = choose|i: int| 0 <= i < before.terminal.len() && before.terminal[i] == x;
            assert(terminal[i] == x);
        }
        assert(terminal[before.terminal.len() as int] == id);
        if terminal.contains(x) && x != id {
            let i = choose|i: int| 0 <= i < terminal.len() && terminal[i] == x;
            assert(before.terminal[i] == x);
        }
    }
    let oldest = terminal[0];
    let rest = terminal.skip(1);
    assert(terminal.contains(oldest));
    assert forall|x: PlaybackId| rest.contains(x) <==> terminal.contains(x) && x != oldest by {
        if rest.contains(x) {
            let i = choose|i: int| 0 <= i < rest.len() && rest[i] == x;
            assert(terminal[i + 1] == x);
        }
        if terminal.contains(x) && x != oldest {
            let i = choose|i: int| 0 <= i < terminal.len() && terminal[i] == x;
            assert(rest[i - 1] == x);
        }
    }
    assert(oldest == id || before.terminal.contains(oldest));
    assert forall|x: PlaybackId| #[trigger] loose.remove(id).contains(x) implies after.in_flight(
        x,
    ) by {
        assert(loose.contains(x));
        assert(before.in_flight(x));
    }
    assert forall|x: PlaybackId| #[trigger] after.in_flight(x) implies after.active.contains(x)
        || actor::pending_ids(after.pending).contains(x) || loose.remove(id).contains(x) by {
        assert(before.in_flight(x));
    }
    assert forall|x: PlaybackId| #[trigger] after.active.contains(x) implies after.statuses.contains_key(
        x,
    ) && after.statuses[x] == PlaybackState::Playing && !loose.remove(id).contains(x) by {
        assert(before.active.contains(x));
    }
    assert forall|x: PlaybackId| #[trigger]
        actor::pending_ids(after.pending).contains(x) implies after.statuses.contains_key(x)
        && after.statuses[x] == PlaybackState::Accepted && !loose.remove(id).contains(x) by {
        assert(actor::pending_ids(before.pending).contains(x));
    }
    assert forall|x: PlaybackId| #[trigger]
        after.terminal.contains(x) <==> after.statuses.contains_key(x)
            && after.statuses[x].ended() by {
        assert(before.terminal.contains(x) <==> before.statuses.contains_key(x)
            && before.statuses[x].ended());
    }
}

/// An item on its way plays.
proof fn lemma_play<S>(before: ActorModel<S>, loose: Set<PlaybackId>, id: PlaybackId)
    requires
        before.placed(loose),
        loose.contains(id),
        before.active.len() < before.maximum_active_items,
    ensures
        before.activate(id).record(id, PlaybackState::Playing, None).placed(loose.remove(id)),
{
    let playing = before.activate(id);
    assert(before.in_flight(id));
    assert(!before.active.contains(id));
    assert(playing.bounded());
    actor::lemma_record_keeps_bounds(playing, id, PlaybackState::Playing, None);
    let after = playing.record(id, PlaybackState::Playing, None);
    assert forall|x: PlaybackId| #[trigger]
        after.active.contains(x) <==> before.active.contains(x) || x == id by {
        if before.active.contains(x) {
            let i = choose|i: int| 0 <= i < before.active.len() && before.active[i] == x;
            assert(after.active[i] == x);
        }
        assert(after.active[before.active.len() as int] == id);
        if after.active.contains(x) && x != id {
            let i = choose|i: int| 0 <= i < after.active.len() && after.active[i] == x;
            assert(before.active[i] == x);
        }
    }
    assert(!before.terminal.contains(id));
    assert forall|x: PlaybackId| #[trigger] loose.remove(id).contains(x) implies after.in_flight(
        x,
    ) by {
        assert(loose.contains(x));
        assert(before.in_flight(x));
    }
    assert forall|x: PlaybackId| #[trigger] after.in_flight(x) implies after.active.contains(x)
        || actor::pending_ids(after.pending).contains(x) || loose.remove(id).contains(x) by {
        assert(before.in_flight(x));
    }
}

/// A playing item is taken out of play.
proof fn lemma_take_active<S>(before: ActorModel<S>, loose: Set<PlaybackId>, id: PlaybackId)
    requires
        before.placed(loose),
        before.active.contains(id),
    ensures
        before.deactivate(id).placed(loose.insert(id)),
{
    actor::lemma_without(before.active, id);
    let after = before.deactivate(id);
    assert forall|x: PlaybackId| #[trigger] loose.insert(id).contains(x) implies after.in_flight(
        x,
    ) by {
        if x != id {
            assert(loose.contains(x));
            assert(before.in_flight(x));
        }
    }
    assert forall|x: PlaybackId| #[trigger] after.in_flight(x) implies after.active.contains(x)
        || actor::pending_ids(after.pending).contains(x) || loose.insert(id).contains(x) by {
        assert(before.in_flight(x));
    }
    assert forall|x: PlaybackId| #[trigger]
        actor::pending_ids(after.pending).contains(x) implies !loose.insert(id).contains(
        x,
    ) by {
        assert(actor::pending_ids(before.pending).contains(x));
    }
}

/// A waiting item is taken out of the FIFO.
proof fn lemma_take_pending<S>(before: ActorModel<S>, loose: Set<PlaybackId>, position: int)
    requires
        before.placed(loose),
        0 <= position < before.pending.len(),
    ensures
        (ActorModel { pending: before.pending.remove(position), ..before }).placed(
            loose.insert(before.pending[position].job.id),
        ),
{
    let id = before.pending[position].job.id;
    let after = ActorModel { pending: before.pending.remove(position), ..before };
    let ids = actor::pending_ids(before.pending);
    let rest = actor::pending_ids(after.pending);
    assert(rest =~= ids.remove(position));
    assert(ids[position] == id);
    assert(ids.contains(id));
    assert forall|x: PlaybackId| #[trigger] rest.contains(x) <==> ids.contains(x) && x != id by {
        if rest.contains(x) {
            let i = choose|i: int| 0 <= i < rest.len() && rest[i] == x;
            let j = if i < position {
                i
            } else {
                i + 1
            };
            assert(ids[j] == x);
        }
        if ids.contains(x) && x != id {
            let i = choose|i: int| 0 <= i < ids.len() && ids[i] == x;
            let j = if i < position {
                i
            } else {
                i - 1
            };
            assert(rest[j] == x);
        }
    }
    assert(rest.no_duplicates());
    assert forall|x: PlaybackId| #[trigger] loose.insert(id).contains(x) implies after.in_flight(
        x,
    ) by {
        if x != id {
            assert(loose.contains(x));
            assert(before.in_flight(x));
        }
    }
    assert forall|x: PlaybackId| #[trigger] after.in_flight(x) implies after.active.contains(x)
        || rest.contains(x) || loose.insert(id).contains(x) by {
        assert(before.in_flight(x));
    }
}

/// An item on its way joins the FIFO.
proof fn lemma_wait<S>(before: ActorModel<S>, loose: Set<PlaybackId>, item: Pending<S>)
    requires
        before.placed(loose),
        loose.contains(item.job.id),
        before.statuses[item.job.id] == PlaybackState::Accepted,
        before.pending.len() < before.maximum_queue_items,
    ensures
        (ActorModel { pending: before.pending.push(item), ..before }).placed(
            loose.remove(item.job.id),
        ),
{
    let id = item.job.id;
    let after = ActorModel { pending: before.pending.push(item), ..before };
    let ids = actor::pending_ids(before.pending);
    let more = actor::pending_ids(after.pending);
    assert(more =~= ids.push(id));
    assert(!ids.contains(id));
    assert(before.in_flight(id));
    assert forall|x: PlaybackId| #[trigger] more.contains(x) <==> ids.contains(x) || x == id by {
        if ids.contains(x) {
            let i = choose|i: int| 0 <= i < ids.len() && ids[i] == x;
            assert(more[i] == x);
        }
        assert(more[ids.len() as int] == id);
        if more.contains(x) && x != id {
            let i = choose|i: int| 0 <= i < more.len() && more[i] == x;
            assert(ids[i] == x);
        }
    }
    assert forall|x: PlaybackId| #[trigger] after.in_flight(x) implies after.active.contains(x)
        || more.contains(x) || loose.remove(id).contains(x) by {
        assert(before.in_flight(x));
    }
    assert forall|x: PlaybackId| #[trigger] loose.remove(id).contains(x) implies after.in_flight(
        x,
    ) by {
        assert(loose.contains(x));
        assert(before.in_flight(x));
    }
}

/// Nothing is on its way once the last such item is placed.
proof fn lemma_settled<S>(model: ActorModel<S>, id: PlaybackId)
    requires
        model.placed(Set::<PlaybackId>::empty().insert(id).remove(id)),
    ensures
        model.consistent(),
{
    assert(Set::<PlaybackId>::empty().insert(id).remove(id) =~= Set::<PlaybackId>::empty());
}

/// A started item from the head of the FIFO.
pub proof fn lemma_head_started<S>(before: ActorModel<S>, reply: Result<(), PlaybackError>)
    requires
        before.consistent(),
        before.head_may_start(),
    ensures
        before.head_taken().start_replied(before.pending[0].job.id, reply, true).consistent(),
{
    let id = before.pending[0].job.id;
    let loose = Set::<PlaybackId>::empty();
    lemma_take_pending(before, loose, 0);
    assert(before.pending.remove(0) =~= before.pending.skip(1));
    let taken = before.head_taken();
    match reply {
        Ok(()) => {
            lemma_play(taken, loose.insert(id), id);
        },
        Err(error) => {
            lemma_end(
                taken,
                loose.insert(id),
                id,
                PlaybackState::Failed,
                Some(error.message_text()),
            );
        },
    }
    lemma_settled(taken.start_replied(id, reply, true), id);
}

/// Working through the FIFO keeps every item in exactly one place.
pub proof fn law_advancing_keeps_consistency<S>(
    before: ActorModel<S>,
    calls: Seq<BackendCall<S>>,
    after: ActorModel<S>,
)
    requires
        before.consistent(),
        before.advanced(calls, after),
    ensures
        after.consistent(),
    decreases calls.len(),
{
    if before.head_may_start() {
        let reply = calls[0].reply();
        lemma_head_started(before, reply);
        let next = before.head_taken().start_replied(before.pending[0].job.id, reply, true);
        if !(reply is Ok && before.pending[0].mode != ConcurrencyMode::Mix) {
            law_advancing_keeps_consistency(next, calls.skip(1), after);
        }
    }
}

/// A direct start of a new item.
proof fn lemma_new_started<S>(
    before: ActorModel<S>,
    id: PlaybackId,
    reply: Result<(), PlaybackError>,
)
    requires
        before.consistent(),
        !before.statuses.contains_key(id),
        before.active.len() < before.maximum_active_items,
    ensures
        before.start_replied(id, reply, false).consistent(),
{
    if reply is Ok {
        let loose = Set::<PlaybackId>::empty();
        lemma_accept(before, loose, id);
        let accepted = before.record(id, PlaybackState::Accepted, None);
        lemma_play(accepted, loose.insert(id), id);
        assert(accepted.activate(id) =~= before.activate(id).record(
            id,
            PlaybackState::Accepted,
            None,
        ));
        lemma_settled(before.start_replied(id, reply, false), id);
    }
}

/// An active item ends.
pub proof fn lemma_active_ended<S>(
    before: ActorModel<S>,
    id: PlaybackId,
    state: PlaybackState,
    error: Option<Seq<char>>,
)
    requires
        before.consistent(),
        before.active.contains(id),
        state.ended(),
    ensures
        before.deactivate(id).record(id, state, error).consistent(),
        forall|x: PlaybackId| #[trigger]
            before.deactivate(id).record(id, state, error).active.contains(x)
                <==> before.active.contains(x) && x != id,
        before.deactivate(id).record(id, state, error).pending == before.pending,
        before.deactivate(id).record(id, state, error).unhealthy == before.unhealthy,
{
    let loose = Set::<PlaybackId>::empty();
    actor::lemma_without(before.active, id);
    lemma_take_active(before, loose, id);
    lemma_end(before.deactivate(id), loose.insert(id), id, state, error);
    lemma_settled(before.deactivate(id).record(id, state, error), id);
}

/// Stops that were answered keep every item in exactly one place, and leave the
/// FIFO alone.
pub proof fn law_stopping_keeps_consistency<S>(
    before: ActorModel<S>,
    ids: Seq<PlaybackId>,
    calls: Seq<BackendCall<S>>,
)
    requires
        before.consistent(),
        ids.no_duplicates(),
        forall|i: int| 0 <= i < ids.len() ==> before.active.contains(#[trigger] ids[i]),
        calls.len() == ids.len(),
    ensures
        before.stops_replied(ids, calls).consistent(),
        before.stops_replied(ids, calls).pending == before.pending,
        before.stops_replied(ids, calls).unhealthy == before.unhealthy,
        forall|x: PlaybackId|
            before.active.contains(x) && !ids.contains(x) ==> #[trigger] before.stops_replied(
                ids,
                calls,
            ).active.contains(x),
        forall|x: PlaybackId| #[trigger]
            before.stops_replied(ids, calls).active.contains(x) ==> before.active.contains(x),
        actor::first_error(calls) is None ==> forall|x: PlaybackId| #[trigger]
            before.stops_replied(ids, calls).active.contains(x) ==> !ids.contains(x),
    decreases ids.len(),
{
    if ids.len() > 0 {
        let last = ids.last();
        let fewer = ids.drop_last();
        law_stopping_keeps_consistency(before, fewer, calls.drop_last());
        let between = before.stops_replied(fewer, calls.drop_last());
        assert(!fewer.contains(last));
        assert(before.active.contains(last)) by {
            assert(ids[ids.len() - 1] == last);
        }
        assert(between.active.contains(last));
        lemma_active_ended(between, last, PlaybackState::Interrupted, None);
        assert forall|x: PlaybackId| ids.contains(x) <==> fewer.contains(x) || x == last by {
            if fewer.contains(x) {
                let i = choose|i: int| 0 <= i < fewer.len() && fewer[i] == x;
                assert(ids[i] == x);
            }
            assert(ids[ids.len() - 1] == last);
            if ids.contains(x) && x != last {
                let i = choose|i: int| 0 <= i < ids.len() && ids[i] == x;
                assert(fewer[i] == x);
            }
        }
    }
}

/// Submitting a new item keeps every item in exactly one place.
pub proof fn law_submitting_keeps_consistency<S>(
    before: ActorModel<S>,
    job: PlaybackJob<S>,
    mode: ConcurrencyMode,
    calls: Seq<BackendCall<S>>,
    result: Result<Acceptance, PlaybackError>,
    after: ActorModel<S>,
)
    requires
        before.consistent(),
        !before.statuses.contains_key(job.id),
        before.submitted(job, mode, calls, result, after),
    ensures
        after.consistent(),
{
    let id = job.id;
    let loose = Set::<PlaybackId>::empty();
    if before.unhealthy {
    } else if before.must_wait(mode) {
        if before.pending.len() < before.maximum_queue_items {
            lemma_accept(before, loose, id);
            let accepted = before.record(id, PlaybackState::Accepted, None);
            let item = Pending { job, mode };
            lemma_wait(accepted, loose.insert(id), item);
            assert(before.queued(item) =~= ActorModel {
                pending: accepted.pending.push(item),
                ..accepted
            });
            lemma_settled(after, id);
        }
    } else if mode == ConcurrencyMode::Interrupt && before.active.len() > 0 {
        let count = before.active.len() as int;
        let stopping = calls.take(count);
        law_stopping_keeps_consistency(before, before.active, stopping);
        let stopped = before.stops_replied(before.active, stopping);
        if actor::first_error(stopping) is None {
            assert(stopped.active.len() == 0) by {
                if stopped.active.len() > 0 {
                    assert(stopped.active.contains(stopped.active[0]));
                }
            }
            assert forall|i: int| 0 <= i < before.active.len() implies before.statuses.contains_key(
                #[trigger] before.active[i],
            ) by {
                assert(before.active.contains(before.active[i]));
            }
            lemma_stops_add_no_status(before, before.active, stopping);
            lemma_new_started(stopped, id, calls[count].reply());
            if calls[count].reply() is Err {
                law_advancing_keeps_consistency(stopped, calls.skip(count + 1), after);
            }
        } else {
            assert(after.consistent()) by {
                assert(stopped.consistent());
                lemma_health_is_no_place(stopped);
            }
        }
    } else {
        lemma_new_started(before, id, calls[0].reply());
    }
}

/// Whether the backend is healthy has no bearing on where items stand.
proof fn lemma_health_is_no_place<S>(before: ActorModel<S>)
    requires
        before.consistent(),
    ensures
        before.marked_unhealthy().consistent(),
{
    let after = before.marked_unhealthy();
    assert forall|x: PlaybackId| #[trigger] after.in_flight(x) implies after.active.contains(x)
        || actor::pending_ids(after.pending).contains(x) by {
        assert(before.in_flight(x));
    }
}

/// Stopping gives no status to an item that had none.
proof fn lemma_stops_add_no_status<S>(
    before: ActorModel<S>,
    ids: Seq<PlaybackId>,
    calls: Seq<BackendCall<S>>,
)
    requires
        calls.len() == ids.len(),
        forall|i: int| 0 <= i < ids.len() ==> before.statuses.contains_key(#[trigger] ids[i]),
    ensures
        forall|x: PlaybackId| #[trigger]
            before.stops_replied(ids, calls).statuses.contains_key(x)
                ==> before.statuses.contains_key(x),
    decreases ids.len(),
{
    if ids.len() > 0 {
        assert(before.statuses.contains_key(ids[ids.len() - 1]));
        assert forall|i: int| 0 <= i < ids.drop_last().len() implies before.statuses.contains_key(
            #[trigger] ids.drop_last()[i],
        ) by {
            assert(before.statuses.contains_key(ids[i]));
        }
        lemma_stops_add_no_status(before, ids.drop_last(), calls.drop_last());
        let between = before.stops_replied(ids.drop_last(), calls.drop_last());
        let after = before.stops_replied(ids, calls);
        assert forall|x: PlaybackId| #[trigger]
            after.statuses.contains_key(x) implies before.statuses.contains_key(x) by {
            assert(x == ids[ids.len() - 1] || between.statuses.contains_key(x));
        }
    }
}

/// Cancelling keeps every item in exactly one place.
pub proof fn law_cancelling_keeps_consistency<S>(
    before: ActorModel<S>,
    id: PlaybackId,
    calls: Seq<BackendCall<S>>,
    result: Result<Option<Cancellation>, PlaybackError>,
    after: ActorModel<S>,
)
    requires
        before.consistent(),
        before.cancelled(id, calls, result, after),
    ensures
        after.consistent(),
{
    if before.active.contains(id) {
        if calls[0].reply() is Ok {
            lemma_active_ended(before, id, PlaybackState::Interrupted, None);
            let next = before.deactivate(id).record(id, PlaybackState::Interrupted, None);
            if !before.unhealthy {
                law_advancing_keeps_consistency(next, calls.skip(1), after);
            }
        } else {
            lemma_health_is_no_place(before);
        }
    } else {
        let ids = actor::pending_ids(before.pending);
        ids.index_of_first_ensures(id);
        if let Some(position) = ids.index_of_first(id) {
            let loose = Set::<PlaybackId>::empty();
            lemma_take_pending(before, loose, position);
            lemma_end(
                ActorModel { pending: before.pending.remove(position), ..before },
                loose.insert(id),
                id,
                PlaybackState::Interrupted,
                None,
            );
            lemma_settled(after, id);
        }
    }
}

/// A backend completion keeps every item in exactly one place.
pub proof fn law_finishing_keeps_consistency<S>(
    before: ActorModel<S>,
    id: PlaybackId,
    error: Option<Seq<char>>,
    calls: Seq<BackendCall<S>>,
    after: ActorModel<S>,
)
    requires
        before.consistent(),
        before.finished(id, error, calls, after),
    ensures
        after.consistent(),
{
    if before.active.contains(id) {
        let state = match error {
            None => PlaybackState::Completed,
            Some(_) => PlaybackState::Failed,
        };
        lemma_active_ended(before, id, state, error);
        if !before.unhealthy {
            law_advancing_keeps_consistency(
                before.deactivate(id).record(id, state, error),
                calls.skip(1),
                after,
            );
        }
    }
}

/// Items on their way are interrupted one after the other.
proof fn lemma_interrupt_each<S>(before: ActorModel<S>, ids: Seq<PlaybackId>)
    requires
        before.placed(ids.to_set()),
        ids.no_duplicates(),
    ensures
        before.interrupted(ids).consistent(),
        before.interrupted(ids).active == before.active,
        before.interrupted(ids).pending == before.pending,
        before.interrupted(ids).unhealthy == before.unhealthy,
{
    lemma_interrupt_some(before, ids, ids);
    assert(ids.to_set().difference(ids.to_set()) =~= Set::<PlaybackId>::empty());
}

proof fn lemma_interrupt_some<S>(
    before: ActorModel<S>,
    ids: Seq<PlaybackId>,
    done: Seq<PlaybackId>,
)
    requires
        before.placed(ids.to_set()),
        done.no_duplicates(),
        forall|x: PlaybackId| done.contains(x) ==> ids.contains(x),
    ensures
        before.interrupted(done).placed(ids.to_set().difference(done.to_set())),
        before.interrupted(done).active == before.active,
        before.interrupted(done).pending == before.pending,
        before.interrupted(done).unhealthy == before.unhealthy,
    decreases done.len(),
{
    let loose = ids.to_set();
    if done.len() == 0 {
        assert(loose.difference(done.to_set()) =~= loose);
    } else {
        let fewer = done.drop_last();
        let last = done.last();
        assert forall|x: PlaybackId| done.contains(x) <==> fewer.contains(x) || x == last by {
            if fewer.contains(x) {
                let i = choose|i: int| 0 <= i < fewer.len() && fewer[i] == x;
                assert(done[i] == x);
            }
            assert(done[done.len() - 1] == last);
            if done.contains(x) && x != last {
                let i = choose|i: int| 0 <= i < done.len() && done[i] == x;
                assert(fewer[i] == x);
            }
        }
        assert(!fewer.contains(last));
        lemma_interrupt_some(before, ids, fewer);
        let between = before.interrupted(fewer);
        lemma_end(
            between,
            loose.difference(fewer.to_set()),
            last,
            PlaybackState::Interrupted,
            None,
        );
        actor::lemma_record_keeps_bounds(between, last, PlaybackState::Interrupted, None);
        assert(loose.difference(fewer.to_set()).remove(last) =~= loose.difference(done.to_set()));
    }
}

/// Emptying the FIFO interrupts every waiting item and touches no other.
pub proof fn law_discarding_keeps_consistency<S>(before: ActorModel<S>)
    requires
        before.consistent(),
    ensures
        before.queue_discarded().consistent(),
        before.queue_discarded().active == before.active,
        before.queue_discarded().pending.len() == 0,
        before.queue_discarded().unhealthy == before.unhealthy,
{
    let ids = actor::pending_ids(before.pending);
    let emptied = ActorModel { pending: Seq::empty(), ..before };
    assert(actor::pending_ids(emptied.pending) =~= Seq::empty());
    assert forall|x: PlaybackId| #[trigger] emptied.in_flight(x) implies emptied.active.contains(x)
        || actor::pending_ids(emptied.pending).contains(x) || ids.to_set().contains(x) by {
        assert(before.in_flight(x));
    }
    assert forall|x: PlaybackId| #[trigger] ids.to_set().contains(x) implies emptied.in_flight(
        x,
    ) by {
        assert(actor::pending_ids(before.pending).contains(x));
    }
    lemma_interrupt_each(emptied, ids);
}

/// An emergency stop keeps every item in exactly one place and leaves nothing
/// waiting; unless a stop failed, nothing plays either.
pub proof fn law_emergency_stop_silences<S>(
    before: ActorModel<S>,
    calls: Seq<BackendCall<S>>,
    result: Result<EmergencyStop, PlaybackError>,
    after: ActorModel<S>,
)
    requires
        before.consistent(),
        before.emergency_stopped(calls, result, after),
    ensures
        after.consistent(),
        after.pending.len() == 0,
        result is Ok ==> after.active.len() == 0 && after.unhealthy == before.unhealthy,
        result is Err ==> after.unhealthy,
{
    law_discarding_keeps_consistency(before);
    let discarded = before.queue_discarded();
    law_stopping_keeps_consistency(discarded, before.active, calls);
    let stopped = discarded.stops_replied(before.active, calls);
    if actor::first_error(calls) is None {
        if stopped.active.len() > 0 {
            assert(stopped.active.contains(stopped.active[0]));
        }
    } else {
        lemma_health_is_no_place(stopped);
    }
}

/// Active items are released one after the other.
proof fn lemma_release_each<S>(before: ActorModel<S>, ids: Seq<PlaybackId>)
    requires
        before.consistent(),
        ids.no_duplicates(),
        forall|x: PlaybackId| ids.contains(x) ==> before.active.contains(x),
    ensures
        before.released(ids).consistent(),
        before.released(ids).pending == before.pending,
        forall|x: PlaybackId| #[trigger]
            before.released(ids).active.contains(x) <==> before.active.contains(x)
                && !ids.contains(x),
    decreases ids.len(),
{
    if ids.len() > 0 {
        let fewer = ids.drop_last();
        let last = ids.last();
        assert forall|x: PlaybackId| ids.contains(x) <==> fewer.contains(x) || x == last by {
            if fewer.contains(x) {
                let i = choose|i: int| 0 <= i < fewer.len() && fewer[i] == x;
                assert(ids[i] == x);
            }
            assert(ids[ids.len() - 1] == last);
            if ids.contains(x) && x != last {
                let i = choose|i: int| 0 <= i < ids.len() && ids[i] == x;
                assert(fewer[i] == x);
            }
        }
        assert(!fewer.contains(last));
        lemma_release_each(before, fewer);
        lemma_active_ended(before.released(fewer), last, PlaybackState::Interrupted, None);
    }
}

/// Shutting down leaves nothing playing, nothing waiting and nothing in flight.
pub proof fn law_shutdown_releases_everything<S>(
    before: ActorModel<S>,
    calls: Seq<BackendCall<S>>,
    result: Result<(), PlaybackError>,
    after: ActorModel<S>,
)
    requires
        before.consistent(),
        before.shut_down(calls, result, after),
    ensures
        after.consistent(),
        after.active.len() == 0,
        after.pending.len() == 0,
        forall|id: PlaybackId| !#[trigger] after.in_flight(id),
{
    law_discarding_keeps_consistency(before);
    let discarded = before.queue_discarded();
    lemma_release_each(discarded, before.active);
    if after.active.len() > 0 {
        assert(after.active.contains(after.active[0]));
    }
    assert forall|id: PlaybackId| !#[trigger] after.in_flight(id) by {
        if after.in_flight(id) {
            assert(after.active.contains(id) || actor::pending_ids(after.pending).contains(id));
        }
    }
}

/// A fresh actor is consistent.
pub proof fn law_idle_is_consistent<S>(maximum_queue_items: nat, maximum_active_items: nat)
    requires
        maximum_active_items > 0,
    ensures
        ActorModel::<S>::idle(maximum_queue_items, maximum_active_items).consistent(),
{
    let idle = ActorModel::<S>::idle(maximum_queue_items, maximum_active_items);
    assert(actor::pending_ids(idle.pending) =~= Seq::empty());
    assert forall|id: PlaybackId| #[trigger] idle.in_flight(id) implies false by {}
}

/// The FIFO is worked through in order: what a round starts is a prefix of the
/// waiting items, and the rest stays as it was.
pub proof fn law_queue_is_first_in_first_out<S>(
    before: ActorModel<S>,
    calls: Seq<BackendCall<S>>,
    after: ActorModel<S>,
)
    requires
        before.advanced(calls, after),
    ensures
        calls.len() <= before.pending.len(),
        after.pending == before.pending.skip(calls.len() as int),
        forall|i: int|
            0 <= i < calls.len() ==> (#[trigger] calls[i] matches BackendCall::Start(job, _) && job
                == before.pending[i].job),
    decreases calls.len(),
{
    if !before.head_may_start() {
        assert(before.pending.skip(0) =~= before.pending);
    } else {
        let reply = calls[0].reply();
        let next = before.head_taken().start_replied(before.pending[0].job.id, reply, true);
        assert(next.pending == before.pending.skip(1));
        if reply is Ok && before.pending[0].mode != ConcurrencyMode::Mix {
        } else {
            law_queue_is_first_in_first_out(next, calls.skip(1), after);
            assert(next.pending.skip(calls.skip(1).len() as int) =~= before.pending.skip(
                calls.len() as int,
            ));
            assert forall|i: int| 0 <= i < calls.len() implies (#[trigger] calls[i] matches
                BackendCall::Start(job, _) && job == before.pending[i].job) by {
                if i > 0 {
                    assert(calls.skip(1)[i - 1] == calls[i]);
                    assert(next.pending[i - 1] == before.pending[i]);
                }
            }
        }
    }
}

/// While anything plays, a waiting item that does not mix is a barrier: neither
/// it nor anything behind it is started.
pub proof fn law_waiting_item_is_a_barrier<S>(
    before: ActorModel<S>,
    calls: Seq<BackendCall<S>>,
    after: ActorModel<S>,
)
    requires
        before.advanced(calls, after),
        before.active.len() > 0,
        before.pending.len() > 0,
        before.pending[0].mode != ConcurrencyMode::Mix,
    ensures
        calls.len() == 0,
        after == before,
{
}

/// An interrupt that is accepted retains the FIFO as it was, and the new item is
/// the only one that plays.
pub proof fn law_interrupt_retains_the_queue<S>(
    before: ActorModel<S>,
    job: PlaybackJob<S>,
    calls: Seq<BackendCall<S>>,
    result: Result<Acceptance, PlaybackError>,
    after: ActorModel<S>,
)
    requires
        before.consistent(),
        before.submitted(job, ConcurrencyMode::Interrupt, calls, result, after),
        result is Ok,
    ensures
        after.pending == before.pending,
        after.active == seq![job.id],
{
    let count = before.active.len() as int;
    let stopped = if count > 0 {
        let stopping = calls.take(count);
        law_stopping_keeps_consistency(before, before.active, stopping);
        before.stops_replied(before.active, stopping)
    } else {
        before
    };
    if stopped.active.len() > 0 {
        assert(stopped.active.contains(stopped.active[0]));
    }
    assert(!stopped.active.contains(job.id));
    assert(after.active =~= seq![job.id]);
}

/// An enqueued item that finds anything playing starts nothing.
pub proof fn law_enqueue_never_overlaps<S>(
    before: ActorModel<S>,
    job: PlaybackJob<S>,
    calls: Seq<BackendCall<S>>,
    result: Result<Acceptance, PlaybackError>,
    after: ActorModel<S>,
)
    requires
        before.submitted(job, ConcurrencyMode::Enqueue, calls, result, after),
        before.active.len() > 0,
    ensures
        calls.len() == 0,
        after.active == before.active,
{
}

/// After a stop that was not confirmed nothing is started any more, whatever is
/// submitted and whatever finishes.
pub proof fn law_unhealthy_backend_starts_nothing<S>(
    before: ActorModel<S>,
    job: PlaybackJob<S>,
    mode: ConcurrencyMode,
    submit_calls: Seq<BackendCall<S>>,
    result: Result<Acceptance, PlaybackError>,
    after_submit: ActorModel<S>,
    id: PlaybackId,
    error: Option<Seq<char>>,
    finish_calls: Seq<BackendCall<S>>,
    after_finish: ActorModel<S>,
)
    requires
        before.unhealthy,
        before.submitted(job, mode, submit_calls, result, after_submit),
        before.finished(id, error, finish_calls, after_finish),
    ensures
        result is Err,
        submit_calls.len() == 0,
        after_submit == before,
        forall|i: int| 0 <= i < finish_calls.len() ==> !(#[trigger] finish_calls[i] is Start),
        after_finish.unhealthy,
{
}

/// A completion for an item that no longer plays changes nothing.
pub proof fn law_late_completion_is_ignored<S>(
    before: ActorModel<S>,
    id: PlaybackId,
    error: Option<Seq<char>>,
    calls: Seq<BackendCall<S>>,
    after: ActorModel<S>,
)
    requires
        before.finished(id, error, calls, after),
        !before.active.contains(id),
    ensures
        calls.len() == 0,
        after == before,
{
}

/// Cancelling an item that has ended is a no-op that reports its state.
pub proof fn law_cancelling_twice_is_a_no_op<S>(
    before: ActorModel<S>,
    id: PlaybackId,
    calls: Seq<BackendCall<S>>,
    result: Result<Option<Cancellation>, PlaybackError>,
    after: ActorModel<S>,
)
    requires
        before.consistent(),
        before.statuses.contains_key(id),
        before.statuses[id].ended(),
        before.cancelled(id, calls, result, after),
    ensures
        calls.len() == 0,
        after == before,
        result == Ok::<Option<Cancellation>, PlaybackError>(
            Some(
                Cancellation { playback_id: id, state: before.statuses[id], cancelled: false },
            ),
        ),
{
    actor::pending_ids(before.pending).index_of_first_ensures(id);
}

/// A cancellation fails only where the backend did not confirm a stop: the
/// statuses never contradict what plays and waits.
pub proof fn law_cancelling_fails_only_on_stop<S>(
    before: ActorModel<S>,
    id: PlaybackId,
    calls: Seq<BackendCall<S>>,
    error: PlaybackError,
    after: ActorModel<S>,
)
    requires
        before.consistent(),
        before.cancelled(id, calls, Err(error), after),
    ensures
        before.active.contains(id),
        calls.len() == 1,
        calls[0] == BackendCall::<S>::Stop(id, Err(error)),
        after == before.marked_unhealthy(),
{
    actor::pending_ids(before.pending).index_of_first_ensures(id);
    if !before.active.contains(id) && before.statuses.contains_key(id) {
        if !before.statuses[id].ended() {
            assert(before.in_flight(id));
        }
    }
}

/// Recording a state forgets at most one item: the one that ended first, and
/// only when more ended items are known than are retained.
pub proof fn law_only_the_oldest_result_expires<S>(
    before: ActorModel<S>,
    id: PlaybackId,
    state: PlaybackState,
    error: Option<Seq<char>>,
    other: PlaybackId,
)
    requires
        before.placed(Set::empty().insert(id)) || (before.consistent()
            && !before.statuses.contains_key(id)),
        other != id,
        before.statuses.contains_key(other),
        !before.record(id, state, error).statuses.contains_key(other),
    ensures
        before.terminal.len() == PLAYBACK_STATUS_RETENTION_ITEMS,
        before.terminal[0] == other,
        before.statuses[other].ended(),
{
    assert(before.terminal.contains(before.terminal[0]));
}

/// The snapshot holds each status once, and no other.
pub proof fn law_snapshot_is_complete<S>(model: ActorModel<S>)
    requires
        model.bounded(),
    ensures
        model.newest_first().no_duplicates(),
        forall|status: PlaybackStatus| #[trigger]
            model.newest_first().contains(status) <==> model.status_of(status.playback_id)
                == Some(status),
{
    let shown = model.newest_first();
    let count = model.order.len() as int;
    assert forall|status: PlaybackStatus| #[trigger]
        shown.contains(status) <==> model.status_of(status.playback_id) == Some(status) by {
        if shown.contains(status) {
            let i = choose|i: int| 0 <= i < shown.len() && shown[i] == status;
            assert(model.order.contains(model.order[count - 1 - i]));
        }
        if model.status_of(status.playback_id) == Some(status) {
            assert(model.order.contains(status.playback_id));
            let i = choose|i: int| 0 <= i < count && model.order[i] == status.playback_id;
            assert(shown[count - 1 - i] == status);
        }
    }
}

} // verus!
