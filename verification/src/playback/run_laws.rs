//! What holds of a playback actor after any operations, in any order.
use super::actor;
use super::actor::{
    ActorModel, BackendCall, Cancellation, PlaybackState, PlaybackStatus,
    PLAYBACK_STATUS_RETENTION_ITEMS,
};
use super::actor_laws;
use super::error::PlaybackError;
use super::item_laws;
use super::job::PlaybackId;
use super::runs;
use super::runs::{Operation, Past};
use vstd::prelude::*;

verus! {

impl<S> ActorModel<S> {
    /// Nothing waits where nothing plays, unless a stop was not confirmed.
    pub open spec fn keeps_playing(self) -> bool {
        !self.unhealthy && self.active.len() == 0 ==> self.pending.len() == 0
    }
}

/// An item that plays is there to play.
proof fn lemma_activated<S>(before: ActorModel<S>, id: PlaybackId)
    ensures
        before.activate(id).active.len() > 0,
{
    if before.active.contains(id) {
        assert(before.active.len() > 0);
    }
}

/// A round ends with something playing or nothing waiting.
proof fn lemma_round_keeps_playing<S>(
    before: ActorModel<S>,
    calls: Seq<BackendCall<S>>,
    after: ActorModel<S>,
)
    requires
        before.advanced(calls, after),
    ensures
        after.active.len() > 0 || after.pending.len() == 0,
    decreases calls.len(),
{
    if before.head_may_start() {
        let head = before.pending[0].job.id;
        lemma_activated(before.head_taken(), head);
        let next = before.head_taken().start_replied(head, calls[0].reply(), true);
        if next.advanced(calls.skip(1), after) {
            lemma_round_keeps_playing(next, calls.skip(1), after);
        }
    }
}

/// Whatever is done, nothing is left waiting where nothing plays, unless a stop
/// was not confirmed.
pub proof fn law_nothing_is_left_waiting<S>(
    before: ActorModel<S>,
    operation: Operation<S>,
    calls: Seq<BackendCall<S>>,
    after: ActorModel<S>,
)
    requires
        before.consistent(),
        before.keeps_playing(),
        before.performed(operation, calls, after),
    ensures
        after.keeps_playing(),
{
    match operation {
        Operation::Submit { job, mode, .. } => {
            if before.unhealthy || before.must_wait(mode) {
            } else if mode == super::job::ConcurrencyMode::Interrupt && before.active.len() > 0 {
                let count = before.active.len() as int;
                let stopping = calls.take(count);
                let stopped = before.stops_replied(before.active, stopping);
                if actor::first_error(stopping) is None {
                    if calls[count].reply() is Ok {
                        lemma_activated(stopped, job.id);
                    } else {
                        lemma_round_keeps_playing(stopped, calls.skip(count + 1), after);
                    }
                }
            } else {
                lemma_activated(before, job.id);
            }
        },
        Operation::Cancel { id, .. } => {
            if before.active.contains(id) {
                if calls[0].reply() is Ok && !before.unhealthy {
                    let next = before.deactivate(id).record(id, PlaybackState::Interrupted, None);
                    lemma_round_keeps_playing(next, calls.skip(1), after);
                }
            } else {
                actor::pending_ids(before.pending).index_of_first_ensures(id);
            }
        },
        Operation::Finish { id, error } => {
            if before.active.contains(id) && !before.unhealthy {
                let state = match error {
                    None => PlaybackState::Completed,
                    Some(_) => PlaybackState::Failed,
                };
                let next = before.deactivate(id).record(id, state, error);
                lemma_round_keeps_playing(next, calls.skip(1), after);
            }
        },
        Operation::StopEverything { result } => {
            actor_laws::law_emergency_stop_silences(before, calls, result, after);
        },
        Operation::ShutDown { result } => {
            actor_laws::law_shutdown_releases_everything(before, calls, result, after);
        },
        Operation::TakeEvents => {},
    }
}

/// One operation of a run, the backend calls that it made, and the actor after it.
pub struct Step<S> {
    pub operation: Operation<S>,
    pub calls: Seq<BackendCall<S>>,
    pub after: ActorModel<S>,
}

/// Operations on a fresh actor, one after the other.
pub struct Run<S> {
    pub maximum_queue_items: nat,
    pub maximum_active_items: nat,
    pub steps: Seq<Step<S>>,
}

impl<S> Run<S> {
    /// The actor after the first operations.
    pub open spec fn state(self, count: nat) -> ActorModel<S> {
        if count == 0 {
            ActorModel::idle(self.maximum_queue_items, self.maximum_active_items)
        } else {
            self.steps[count - 1].after
        }
    }

    /// The items that the first operations submitted.
    pub open spec fn submitted(self, count: nat) -> Set<PlaybackId>
        decreases count,
    {
        if count == 0 {
            Set::empty()
        } else {
            let earlier = self.submitted((count - 1) as nat);
            match self.steps[count - 1].operation {
                Operation::Submit { job, .. } => earlier.insert(job.id),
                _ => earlier,
            }
        }
    }

    /// The items that had a status after any of the first operations.
    pub open spec fn known(self, count: nat) -> Set<PlaybackId>
        decreases count,
    {
        if count == 0 {
            Set::empty()
        } else {
            self.known((count - 1) as nat).union(self.state(count).statuses.dom())
        }
    }

    /// The items that the first operations ended, in that order.
    pub open spec fn ended(self, count: nat) -> Seq<PlaybackId>
        decreases count,
    {
        if count == 0 {
            Seq::empty()
        } else {
            let earlier = self.ended((count - 1) as nat);
            if self.steps[count - 1].operation is TakeEvents {
                earlier
            } else {
                let seen = self.state((count - 1) as nat).events.len() as int;
                earlier + runs::ended_ids(self.state(count).events.skip(seen))
            }
        }
    }

    /// The next operation did what it does, and submits no item a second time.
    pub open spec fn continues(self, count: nat) -> bool {
        let step = self.steps[count as int];
        &&& self.state(count).performed(step.operation, step.calls, step.after)
        &&& forall|id: PlaybackId| #[trigger]
            self.submitted(count).contains(id) ==> !step.operation.submits(id)
    }

    pub open spec fn valid(self) -> bool {
        &&& self.maximum_active_items > 0
        &&& forall|count: nat| count < self.steps.len() ==> #[trigger] self.continues(count)
    }

    /// What the first operations leave behind.
    pub open spec fn past(self, count: nat) -> Past {
        Past {
            maximum_queue_items: self.maximum_queue_items,
            maximum_active_items: self.maximum_active_items,
            submitted: self.submitted(count),
            known: self.known(count),
            ended: self.ended(count),
            events: self.state(count).events.len(),
        }
    }
}

/// An operation with a new item keeps every item in exactly one place.
proof fn lemma_consistent_through_operation<S>(
    before: ActorModel<S>,
    operation: Operation<S>,
    calls: Seq<BackendCall<S>>,
    after: ActorModel<S>,
)
    requires
        before.consistent(),
        before.performed(operation, calls, after),
        operation matches Operation::Submit { job, .. } ==> !before.statuses.contains_key(job.id),
    ensures
        after.consistent(),
{
    match operation {
        Operation::Submit { job, mode, result } => {
            actor_laws::law_submitting_keeps_consistency(before, job, mode, calls, result, after);
        },
        Operation::Cancel { id, result } => {
            actor_laws::law_cancelling_keeps_consistency(before, id, calls, result, after);
        },
        Operation::Finish { id, error } => {
            actor_laws::law_finishing_keeps_consistency(before, id, error, calls, after);
        },
        Operation::StopEverything { result } => {
            actor_laws::law_emergency_stop_silences(before, calls, result, after);
        },
        Operation::ShutDown { result } => {
            actor_laws::law_shutdown_releases_everything(before, calls, result, after);
        },
        Operation::TakeEvents => {
            assert forall|x: PlaybackId| #[trigger]
                after.in_flight(x) implies after.active.contains(x) || actor::pending_ids(
                after.pending,
            ).contains(x) by {
                assert(before.in_flight(x));
            }
        },
    }
}

/// What is retained had ended.
proof fn lemma_newest_ended(ended: Seq<PlaybackId>, id: PlaybackId)
    requires
        runs::newest(ended).contains(id),
    ensures
        ended.contains(id),
{
    let kept = runs::newest(ended);
    let i = choose|i: int| 0 <= i < kept.len() && kept[i] == id;
    assert(ended[i + ended.len() - kept.len()] == id);
}

/// Every state of a run is consistent, keeps playing and agrees with its past.
proof fn lemma_run<S>(run: Run<S>, count: nat)
    requires
        run.valid(),
        count <= run.steps.len(),
    ensures
        run.state(count).consistent(),
        run.state(count).keeps_playing(),
        run.state(count).agrees(run.past(count)),
    decreases count,
{
    let after = run.state(count);
    let past = run.past(count);
    assert(after.events.skip(past.events as int) =~= Seq::empty());
    assert(after.ended_by_now(past) =~= run.ended(count));
    if count == 0 {
        actor_laws::law_idle_is_consistent::<S>(
            run.maximum_queue_items,
            run.maximum_active_items,
        );
    } else {
        let fewer = (count - 1) as nat;
        let before = run.state(fewer);
        let earlier = run.past(fewer);
        let operation = run.steps[count - 1].operation;
        let calls = run.steps[count - 1].calls;
        lemma_run(run, fewer);
        assert(run.continues(fewer));
        if let Operation::Submit { job, .. } = operation {
            assert(operation.submits(job.id));
        }
        lemma_consistent_through_operation(before, operation, calls, after);
        law_nothing_is_left_waiting(before, operation, calls, after);
        if operation is TakeEvents {
            assert(before.events.skip(earlier.events as int) =~= Seq::empty());
            assert(before.ended_by_now(earlier) =~= run.ended(fewer));
        } else {
            runs::lemma_agrees_through_operation(before, operation, calls, after, earlier);
            assert(after.ended_by_now(earlier.asked(operation)) == run.ended(count));
        }
        assert forall|id: PlaybackId| #[trigger] run.ended(count).contains(
            id,
        ) implies !after.in_flight(id) && past.submitted.contains(id) by {
            if operation is TakeEvents {
                assert(!before.in_flight(id));
            }
        }
        assert forall|id: PlaybackId| #[trigger] past.known.contains(id) implies after.in_flight(id)
            || run.ended(count).contains(id) by {
            if after.statuses.contains_key(id) {
                if after.statuses[id].ended() {
                    assert(after.terminal.contains(id));
                    lemma_newest_ended(run.ended(count), id);
                }
            } else {
                assert(earlier.known.contains(id));
                assert(earlier.asked(operation).known.contains(id));
            }
        }
    }
}

/// In every state that a run reaches, the limits hold, what plays is playing, what
/// waits is accepted, and nothing waits where nothing plays, unless a stop was not
/// confirmed.
pub proof fn law_every_reached_state_is_sound<S>(run: Run<S>, count: nat)
    requires
        run.valid(),
        count <= run.steps.len(),
    ensures
        run.state(count).consistent(),
        run.state(count).active.len() <= run.maximum_active_items,
        run.state(count).pending.len() <= run.maximum_queue_items,
        forall|id: PlaybackId| #[trigger]
            run.state(count).active.contains(id) ==> run.state(count).status_of(id) == Some(
                PlaybackStatus { playback_id: id, state: PlaybackState::Playing },
            ),
        forall|id: PlaybackId| #[trigger]
            actor::pending_ids(run.state(count).pending).contains(id) ==> run.state(
                count,
            ).status_of(id) == Some(
                PlaybackStatus { playback_id: id, state: PlaybackState::Accepted },
            ),
        forall|id: PlaybackId| #[trigger]
            run.state(count).active.contains(id) ==> !actor::pending_ids(
                run.state(count).pending,
            ).contains(id),
        !run.state(count).unhealthy && run.state(count).active.len() == 0 ==> run.state(
            count,
        ).pending.len() == 0,
{
    lemma_run(run, count);
}

/// After any run, the ended items that still have a status are exactly those that
/// ended last, up to the retention limit. No item ends twice, and every item that
/// ever had a status is in flight or among those that ended.
pub proof fn law_newest_results_are_retained<S>(run: Run<S>, count: nat)
    requires
        run.valid(),
        count <= run.steps.len(),
    ensures
        run.ended(count).no_duplicates(),
        run.state(count).terminal == runs::newest(run.ended(count)),
        forall|id: PlaybackId| #[trigger]
            runs::newest(run.ended(count)).contains(id) <==> run.state(
                count,
            ).statuses.contains_key(id) && run.state(count).statuses[id].ended(),
        forall|id: PlaybackId| #[trigger]
            run.known(count).contains(id) ==> run.state(count).in_flight(id) || run.ended(
                count,
            ).contains(id),
        forall|id: PlaybackId| #[trigger]
            run.ended(count).contains(id) ==> !run.state(count).in_flight(id),
        runs::newest(run.ended(count)).len() == if run.ended(count).len() < 256 {
            run.ended(count).len() as int
        } else {
            256
        },
        runs::newest(run.ended(count)) == run.ended(count).skip(
            run.ended(count).len() - runs::newest(run.ended(count)).len(),
        ),
{
    lemma_run(run, count);
    let state = run.state(count);
    let past = run.past(count);
    assert(state.events.skip(past.events as int) =~= Seq::empty());
    assert(state.ended_by_now(past) =~= run.ended(count));
    assert forall|id: PlaybackId| #[trigger] run.known(count).contains(id) implies state.in_flight(
        id,
    ) || run.ended(count).contains(id) by {
        assert(past.known.contains(id));
    }
    assert(run.ended(count).skip(0) =~= run.ended(count));
}

/// An item after which fewer items ended than are retained is retained.
proof fn lemma_recently_ended(ended: Seq<PlaybackId>, id: PlaybackId)
    requires
        ended.contains(id),
    ensures
        runs::ended_after(ended, id) < ended.len(),
        ended[ended.len() - 1 - runs::ended_after(ended, id)] == id,
        runs::ended_after(ended, id) < PLAYBACK_STATUS_RETENTION_ITEMS ==> runs::newest(
            ended,
        ).contains(id),
    decreases ended.len(),
{
    let after = runs::ended_after(ended, id);
    if ended.last() != id {
        let rest = ended.drop_last();
        let i = choose|i: int| 0 <= i < ended.len() && ended[i] == id;
        assert(rest[i] == id);
        lemma_recently_ended(rest, id);
        assert(rest[rest.len() - after] == id);
    }
    if after < PLAYBACK_STATUS_RETENTION_ITEMS {
        let kept = runs::newest(ended);
        assert(kept[kept.len() - 1 - after] == id);
    }
}

/// An item at rest stays so for as long as a run goes on.
proof fn lemma_rest_through_run<S>(
    run: Run<S>,
    first: nat,
    count: nat,
    id: PlaybackId,
    state: PlaybackState,
)
    requires
        run.valid(),
        first <= count <= run.steps.len(),
        run.state(first).at_rest(id, state),
        run.submitted(first).contains(id),
        run.known(first).contains(id),
    ensures
        run.state(count).at_rest(id, state),
        run.submitted(count).contains(id),
        run.known(count).contains(id),
    decreases count - first,
{
    if first < count {
        let fewer = (count - 1) as nat;
        lemma_rest_through_run(run, first, fewer, id, state);
        assert(run.continues(fewer));
        item_laws::lemma_rest_through_operation(
            run.state(fewer),
            run.steps[count - 1].operation,
            run.steps[count - 1].calls,
            run.state(count),
            id,
            state,
        );
    }
}

/// Cancelling an item again gives the state that the first cancellation gave, as
/// long as fewer items ended after it than are retained. Nothing changes, and the
/// backend is not called.
pub proof fn law_cancelling_again_changes_nothing<S>(
    run: Run<S>,
    first: nat,
    id: PlaybackId,
    cancellation: Cancellation,
    count: nat,
    calls: Seq<BackendCall<S>>,
    result: Result<Option<Cancellation>, PlaybackError>,
    after: ActorModel<S>,
)
    requires
        run.valid(),
        first < count <= run.steps.len(),
        run.steps[first as int].operation == (Operation::<S>::Cancel {
            id,
            result: Ok(Some(cancellation)),
        }),
        runs::ended_after(run.ended(count), id) < 256,
        run.state(count).cancelled(id, calls, result, after),
    ensures
        cancellation.state.ended(),
        result == Ok::<Option<Cancellation>, PlaybackError>(
            Some(
                Cancellation { playback_id: id, state: cancellation.state, cancelled: false },
            ),
        ),
        calls.len() == 0,
        after == run.state(count),
{
    let before = run.state(first);
    let next = (first + 1) as nat;
    lemma_run(run, first);
    assert(run.continues(first));
    item_laws::lemma_cancelled_item_rests(
        before,
        id,
        run.steps[first as int].calls,
        cancellation,
        run.state(next),
    );
    assert(run.known(first).contains(id));
    assert(run.submitted(first).contains(id));
    lemma_rest_through_run(run, next, count, id, cancellation.state);
    lemma_run(run, count);
    law_newest_results_are_retained(run, count);
    lemma_recently_ended(run.ended(count), id);
    actor_laws::law_cancelling_twice_is_a_no_op(run.state(count), id, calls, result, after);
}

} // verus!
