//! What each operation of the actor does, said of what plays, waits and is told.
use super::actor;
use super::actor::{
    Acceptance, ActorModel, BackendCall, BackendCompletion, Cancellation, EmergencyStop, EventModel,
    LifecycleEvent, Pending, PlaybackState, PlaybackStatus,
};
use super::actor_laws;
use super::error::PlaybackError;
use super::item_laws;
use super::job::{ConcurrencyMode, PlaybackId, PlaybackJob};
use vstd::prelude::*;

verus! {

/// The item has this status.
pub open spec fn has_state<S>(model: ActorModel<S>, id: PlaybackId, state: PlaybackState) -> bool {
    model.statuses.contains_key(id) && model.statuses[id] == state
}

/// A state without an error.
pub open spec fn told(id: PlaybackId, state: PlaybackState) -> EventModel {
    EventModel { playback_id: id, state, error: None }
}

/// A recorded state that does not end an item changes that status alone.
proof fn lemma_recorded<S>(
    before: ActorModel<S>,
    id: PlaybackId,
    state: PlaybackState,
    error: Option<Seq<char>>,
)
    requires
        before.terminal.len() <= 256,
        !state.ended(),
    ensures
        before.record(id, state, error).statuses == before.statuses.insert(id, state),
        before.record(id, state, error).terminal == before.terminal,
        before.record(id, state, error).events == before.events.push(
            EventModel { playback_id: id, state, error },
        ),
{
}

/// A new item that is enqueued starts at once where nothing plays; otherwise it
/// waits at the end of the FIFO, unless that is full. What plays and waits already
/// is not touched. An item that starts is accepted and plays, one that waits is
/// accepted, and one that is refused or does not start leaves no trace.
pub proof fn law_enqueued_items_play_or_wait<S>(
    before: ActorModel<S>,
    job: PlaybackJob<S>,
    calls: Seq<BackendCall<S>>,
    result: Result<Acceptance, PlaybackError>,
    after: ActorModel<S>,
)
    requires
        before.consistent(),
        !before.unhealthy,
        before.submitted(job, ConcurrencyMode::Enqueue, calls, result, after),
    ensures
        before.active.len() == 0 ==> {
            &&& calls.len() == 1
            &&& calls[0] matches BackendCall::Start(started, reply)
            &&& started == job
            &&& after.pending == before.pending
            &&& match reply {
                Ok(()) => {
                    &&& result == Ok::<Acceptance, PlaybackError>(
                        Acceptance { playback_id: job.id },
                    )
                    &&& after.active == seq![job.id]
                    &&& has_state(after, job.id, PlaybackState::Playing)
                    &&& after.events == before.events.push(
                        told(job.id, PlaybackState::Accepted),
                    ).push(told(job.id, PlaybackState::Playing))
                },
                Err(error) => result == Err::<Acceptance, PlaybackError>(error) && after == before,
            }
        },
        before.active.len() > 0 && before.pending.len() < before.maximum_queue_items ==> {
            &&& calls.len() == 0
            &&& result == Ok::<Acceptance, PlaybackError>(Acceptance { playback_id: job.id })
            &&& after.active == before.active
            &&& after.pending == before.pending.push(
                Pending { job, mode: ConcurrencyMode::Enqueue },
            )
            &&& has_state(after, job.id, PlaybackState::Accepted)
            &&& after.events == before.events.push(told(job.id, PlaybackState::Accepted))
        },
        before.active.len() > 0 && before.pending.len() >= before.maximum_queue_items ==> {
            &&& calls.len() == 0
            &&& result == Err::<Acceptance, PlaybackError>(PlaybackError::QueueFull)
            &&& after == before
        },
        forall|x: PlaybackId|
            x != job.id && #[trigger] before.statuses.contains_key(x) ==> has_state(
                after,
                x,
                before.statuses[x],
            ),
{
    if before.active.len() == 0 {
        assert(!before.active.contains(job.id));
        let playing = before.activate(job.id);
        lemma_recorded(playing, job.id, PlaybackState::Accepted, None);
        let accepted = playing.record(job.id, PlaybackState::Accepted, None);
        lemma_recorded(accepted, job.id, PlaybackState::Playing, None);
        assert(playing.active =~= seq![job.id]);
    } else {
        let waiting = ActorModel {
            pending: before.pending.push(Pending { job, mode: ConcurrencyMode::Enqueue }),
            ..before
        };
        lemma_recorded(waiting, job.id, PlaybackState::Accepted, None);
    }
}

/// A new item that mixes starts beside what plays where a stream is free and
/// nothing waits; otherwise it waits at the end of the FIFO, unless that is full.
pub proof fn law_mixed_items_play_beside<S>(
    before: ActorModel<S>,
    job: PlaybackJob<S>,
    calls: Seq<BackendCall<S>>,
    result: Result<Acceptance, PlaybackError>,
    after: ActorModel<S>,
)
    requires
        before.consistent(),
        !before.unhealthy,
        !before.statuses.contains_key(job.id),
        before.submitted(job, ConcurrencyMode::Mix, calls, result, after),
    ensures
        before.active.len() < before.maximum_active_items && before.pending.len() == 0 ==> {
            &&& calls.len() == 1
            &&& calls[0] matches BackendCall::Start(started, reply)
            &&& started == job
            &&& after.pending == before.pending
            &&& match reply {
                Ok(()) => {
                    &&& result == Ok::<Acceptance, PlaybackError>(
                        Acceptance { playback_id: job.id },
                    )
                    &&& after.active == before.active.push(job.id)
                    &&& has_state(after, job.id, PlaybackState::Playing)
                    &&& after.events == before.events.push(
                        told(job.id, PlaybackState::Accepted),
                    ).push(told(job.id, PlaybackState::Playing))
                },
                Err(error) => result == Err::<Acceptance, PlaybackError>(error) && after == before,
            }
        },
        (before.active.len() >= before.maximum_active_items || before.pending.len() > 0)
            && before.pending.len() < before.maximum_queue_items ==> {
            &&& calls.len() == 0
            &&& result == Ok::<Acceptance, PlaybackError>(Acceptance { playback_id: job.id })
            &&& after.active == before.active
            &&& after.pending == before.pending.push(Pending { job, mode: ConcurrencyMode::Mix })
            &&& has_state(after, job.id, PlaybackState::Accepted)
            &&& after.events == before.events.push(told(job.id, PlaybackState::Accepted))
        },
        (before.active.len() >= before.maximum_active_items || before.pending.len() > 0)
            && before.pending.len() >= before.maximum_queue_items ==> {
            &&& calls.len() == 0
            &&& result == Err::<Acceptance, PlaybackError>(PlaybackError::QueueFull)
            &&& after == before
        },
        forall|x: PlaybackId|
            x != job.id && #[trigger] before.statuses.contains_key(x) ==> has_state(
                after,
                x,
                before.statuses[x],
            ),
{
    assert(!before.active.contains(job.id));
    if before.active.len() < before.maximum_active_items && before.pending.len() == 0 {
        let playing = before.activate(job.id);
        lemma_recorded(playing, job.id, PlaybackState::Accepted, None);
        let accepted = playing.record(job.id, PlaybackState::Accepted, None);
        lemma_recorded(accepted, job.id, PlaybackState::Playing, None);
    } else {
        let waiting = ActorModel {
            pending: before.pending.push(Pending { job, mode: ConcurrencyMode::Mix }),
            ..before
        };
        lemma_recorded(waiting, job.id, PlaybackState::Accepted, None);
    }
}

/// The backend confirmed that an item stopped.
pub open spec fn confirmed<S>(
    ids: Seq<PlaybackId>,
    calls: Seq<BackendCall<S>>,
    id: PlaybackId,
) -> bool {
    exists|i: int| 0 <= i < ids.len() && #[trigger] ids[i] == id && calls[i].reply() is Ok
}

/// What stops make of an item.
proof fn lemma_stopped<S>(
    before: ActorModel<S>,
    ids: Seq<PlaybackId>,
    calls: Seq<BackendCall<S>>,
    id: PlaybackId,
)
    requires
        calls.len() == ids.len(),
    ensures
        before.stops_replied(ids, calls).pending == before.pending,
        before.stops_replied(ids, calls).unhealthy == before.unhealthy,
        before.stops_replied(ids, calls).active.contains(id) <==> before.active.contains(id)
            && !confirmed(ids, calls, id),
        before.stops_replied(ids, calls).statuses.contains_key(id) ==> if confirmed(
            ids,
            calls,
            id,
        ) {
            before.stops_replied(ids, calls).statuses[id] == PlaybackState::Interrupted
        } else {
            has_state(before, id, before.stops_replied(ids, calls).statuses[id])
        },
    decreases ids.len(),
{
    if ids.len() > 0 {
        let fewer = ids.drop_last();
        let earlier_calls = calls.drop_last();
        lemma_stopped(before, fewer, earlier_calls, id);
        let earlier = before.stops_replied(fewer, earlier_calls);
        actor::lemma_without(earlier.active, ids.last());
        assert(confirmed(ids, calls, id) <==> confirmed(fewer, earlier_calls, id) || (ids.last()
            == id && calls.last().reply() is Ok)) by {
            if confirmed(fewer, earlier_calls, id) {
                let i = choose|i: int|
                    0 <= i < fewer.len() && #[trigger] fewer[i] == id && earlier_calls[i].reply()
                        is Ok;
                assert(ids[i] == id && calls[i].reply() is Ok);
            }
            if confirmed(ids, calls, id) {
                let i = choose|i: int|
                    0 <= i < ids.len() && #[trigger] ids[i] == id && calls[i].reply() is Ok;
                if i < fewer.len() {
                    assert(fewer[i] == id && earlier_calls[i].reply() is Ok);
                }
            }
            if ids.last() == id && calls.last().reply() is Ok {
                assert(ids[ids.len() - 1] == id && calls[ids.len() - 1].reply() is Ok);
            }
        }
    }
}

/// The first failure is the reply of the first call that failed.
pub proof fn lemma_first_failure<S>(calls: Seq<BackendCall<S>>)
    ensures
        actor::first_error(calls) is None <==> forall|i: int|
            0 <= i < calls.len() ==> (#[trigger] calls[i]).reply() is Ok,
        actor::first_error(calls) matches Some(error) ==> exists|i: int|
            {
                &&& 0 <= i < calls.len()
                &&& (#[trigger] calls[i]).reply() == Err::<(), PlaybackError>(error)
                &&& forall|j: int| 0 <= j < i ==> (#[trigger] calls[j]).reply() is Ok
            },
    decreases calls.len(),
{
    if calls.len() > 0 {
        let fewer = calls.drop_last();
        lemma_first_failure(fewer);
        assert(forall|i: int| 0 <= i < fewer.len() ==> #[trigger] calls[i] == fewer[i]);
        if let Some(error) = actor::first_error(fewer) {
            let i = choose|i: int|
                {
                    &&& 0 <= i < fewer.len()
                    &&& (#[trigger] fewer[i]).reply() == Err::<(), PlaybackError>(error)
                    &&& forall|j: int| 0 <= j < i ==> (#[trigger] fewer[j]).reply() is Ok
                };
            assert(calls[i] == fewer[i]);
            assert forall|j: int| 0 <= j < i implies (#[trigger] calls[j]).reply() is Ok by {
                assert(fewer[j].reply() is Ok);
            }
        } else {
            assert forall|i: int| 0 <= i < fewer.len() implies (#[trigger] calls[i]).reply()
                is Ok by {
                assert(fewer[i].reply() is Ok);
            }
            assert(calls[calls.len() - 1] == calls.last());
        }
    }
}

/// An interrupt asks the backend to stop each active item, in order, before it
/// starts the new one. An item whose stop was confirmed no longer plays and is
/// interrupted; one whose stop failed plays on. Where a stop failed, the first
/// failure is answered, the new item is not started, and the backend counts as
/// unhealthy. What waits is not touched, unless the new item does not start.
pub proof fn law_interrupts_stop_before_they_start<S>(
    before: ActorModel<S>,
    job: PlaybackJob<S>,
    calls: Seq<BackendCall<S>>,
    result: Result<Acceptance, PlaybackError>,
    after: ActorModel<S>,
)
    requires
        before.consistent(),
        !before.unhealthy,
        !before.statuses.contains_key(job.id),
        before.submitted(job, ConcurrencyMode::Interrupt, calls, result, after),
    ensures
        calls.len() >= before.active.len(),
        forall|i: int|
            0 <= i < before.active.len() ==> (#[trigger] calls[i] matches BackendCall::Stop(id, _)
                && id == before.active[i]),
        (exists|i: int| 0 <= i < before.active.len() && (#[trigger] calls[i]).reply() is Err) ==> {
            &&& calls.len() == before.active.len()
            &&& after.unhealthy
            &&& after.pending == before.pending
            &&& !after.statuses.contains_key(job.id)
            &&& exists|i: int|
                {
                    &&& 0 <= i < before.active.len()
                    &&& (#[trigger] calls[i]).reply() is Err
                    &&& result == Err::<Acceptance, PlaybackError>(calls[i].reply().unwrap_err())
                    &&& forall|j: int| 0 <= j < i ==> (#[trigger] calls[j]).reply() is Ok
                }
            &&& forall|x: PlaybackId| #[trigger]
                after.active.contains(x) <==> before.active.contains(x) && !confirmed(
                    before.active,
                    calls,
                    x,
                )
            &&& forall|x: PlaybackId|
                #![trigger after.statuses.contains_key(x)]
                confirmed(before.active, calls, x) && after.statuses.contains_key(x)
                    ==> after.statuses[x] == PlaybackState::Interrupted
        },
        (forall|i: int| 0 <= i < before.active.len() ==> (#[trigger] calls[i]).reply() is Ok) ==> {
            let count = before.active.len() as int;
            &&& calls.len() > count
            &&& calls[count] matches BackendCall::Start(started, reply)
            &&& started == job
            &&& !after.unhealthy
            &&& reply is Ok ==> {
                &&& calls.len() == count + 1
                &&& result == Ok::<Acceptance, PlaybackError>(Acceptance { playback_id: job.id })
                &&& after.active == seq![job.id]
                &&& after.pending == before.pending
                &&& has_state(after, job.id, PlaybackState::Playing)
                &&& forall|x: PlaybackId|
                    #![trigger after.statuses.contains_key(x)]
                    before.active.contains(x) && after.statuses.contains_key(x)
                        ==> after.statuses[x] == PlaybackState::Interrupted
            }
            &&& reply is Err ==> result == Err::<Acceptance, PlaybackError>(reply.unwrap_err())
        },
{
    let count = before.active.len() as int;
    let stopping = calls.take(count);
    assert(!before.active.contains(job.id));
    if count == 0 {
        let playing = before.activate(job.id);
        lemma_recorded(playing, job.id, PlaybackState::Accepted, None);
        let accepted = playing.record(job.id, PlaybackState::Accepted, None);
        lemma_recorded(accepted, job.id, PlaybackState::Playing, None);
        assert(playing.active =~= seq![job.id]);
    } else {
        lemma_first_failure(stopping);
        let stopped = before.stops_replied(before.active, stopping);
        assert forall|i: int| 0 <= i < count implies (#[trigger] calls[i] matches
            BackendCall::Stop(id, _) && id == before.active[i]) by {
            assert(stopping[i] is Stop);
        }
        assert forall|i: int| 0 <= i < count implies #[trigger] stopping[i] == calls[i] by {}
        assert forall|x: PlaybackId|
            confirmed(before.active, stopping, x) <==> #[trigger] confirmed(
                before.active,
                calls,
                x,
            ) by {
            if confirmed(before.active, stopping, x) {
                let i = choose|i: int|
                    0 <= i < count && #[trigger] before.active[i] == x && stopping[i].reply()
                        is Ok;
                assert(before.active[i] == x && calls[i].reply() is Ok);
            }
            if confirmed(before.active, calls, x) {
                let i = choose|i: int|
                    0 <= i < count && #[trigger] before.active[i] == x && calls[i].reply() is Ok;
                assert(before.active[i] == x && stopping[i].reply() is Ok);
            }
        }
        assert forall|x: PlaybackId| #[trigger] stopped.active.contains(x) <==> before.active.contains(
            x,
        ) && !confirmed(before.active, calls, x) by {
            lemma_stopped(before, before.active, stopping, x);
        }
        assert forall|x: PlaybackId| #[trigger] stopped.statuses.contains_key(x) implies if confirmed(
            before.active,
            calls,
            x,
        ) {
            stopped.statuses[x] == PlaybackState::Interrupted
        } else {
            has_state(before, x, stopped.statuses[x])
        } by {
            lemma_stopped(before, before.active, stopping, x);
        }
        lemma_stopped(before, before.active, stopping, job.id);
        actor_laws::law_stopping_keeps_consistency(before, before.active, stopping);
        if let Some(error) = actor::first_error(stopping) {
            let i = choose|i: int|
                {
                    &&& 0 <= i < stopping.len()
                    &&& (#[trigger] stopping[i]).reply() == Err::<(), PlaybackError>(error)
                    &&& forall|j: int| 0 <= j < i ==> (#[trigger] stopping[j]).reply() is Ok
                };
            assert(calls[i].reply() is Err);
            assert(result == Err::<Acceptance, PlaybackError>(calls[i].reply().unwrap_err()));
            assert forall|j: int| 0 <= j < i implies (#[trigger] calls[j]).reply() is Ok by {
                assert(stopping[j].reply() is Ok);
            }
            assert(!confirmed(before.active, calls, job.id));
        } else {
            assert(stopped.active.len() == 0) by {
                if stopped.active.len() > 0 {
                    let x = stopped.active[0];
                    assert(stopped.active.contains(x));
                    let i = choose|i: int| 0 <= i < count && before.active[i] == x;
                    assert(stopping[i].reply() is Ok);
                    assert(before.active[i] == x && calls[i].reply() is Ok);
                }
            }
            assert forall|x: PlaybackId| #[trigger] before.active.contains(x) implies confirmed(
                before.active,
                calls,
                x,
            ) by {
                let i = choose|i: int| 0 <= i < count && before.active[i] == x;
                assert(stopping[i].reply() is Ok);
                assert(before.active[i] == x && calls[i].reply() is Ok);
            }
            if calls[count].reply() is Ok {
                let playing = stopped.activate(job.id);
                lemma_recorded(playing, job.id, PlaybackState::Accepted, None);
                let accepted = playing.record(job.id, PlaybackState::Accepted, None);
                lemma_recorded(accepted, job.id, PlaybackState::Playing, None);
                assert(playing.active =~= seq![job.id]);
            } else {
                super::schedule_laws::law_round_fills_the_free_streams(
                    stopped,
                    calls.skip(count + 1),
                    after,
                );
            }
        }
    }
}

/// Cancelling an item that plays stops it, once and first. Where that is confirmed
/// it is interrupted and plays no more; where not, it plays on, nothing else
/// changes, and the failure is answered. Cancelling an item that waits takes it out
/// of the FIFO and leaves the others in their order. Cancelling one that has ended
/// reports its state, and one that is not known reports nothing; neither changes
/// anything.
pub proof fn law_cancelling_ends_exactly_that_item<S>(
    before: ActorModel<S>,
    id: PlaybackId,
    calls: Seq<BackendCall<S>>,
    result: Result<Option<Cancellation>, PlaybackError>,
    after: ActorModel<S>,
)
    requires
        before.consistent(),
        before.cancelled(id, calls, result, after),
    ensures
        before.active.contains(id) ==> {
            &&& calls.len() >= 1
            &&& calls[0] matches BackendCall::Stop(stopped, reply)
            &&& stopped == id
            &&& reply is Err ==> {
                &&& calls.len() == 1
                &&& result == Err::<Option<Cancellation>, PlaybackError>(reply.unwrap_err())
                &&& after.active == before.active
                &&& after.pending == before.pending
                &&& after.statuses == before.statuses
                &&& after.events == before.events
                &&& after.unhealthy
            }
            &&& reply is Ok ==> {
                &&& result == Ok::<Option<Cancellation>, PlaybackError>(
                    Some(
                        Cancellation {
                            playback_id: id,
                            state: PlaybackState::Interrupted,
                            cancelled: true,
                        },
                    ),
                )
                &&& !after.active.contains(id)
                &&& after.statuses.contains_key(id) ==> after.statuses[id]
                    == PlaybackState::Interrupted
                &&& forall|x: PlaybackId|
                    #![trigger after.active.contains(x)]
                    x != id && before.active.contains(x) ==> after.active.contains(x)
                &&& after.events.len() > before.events.len()
                &&& after.events[before.events.len() as int] == told(
                    id,
                    PlaybackState::Interrupted,
                )
            }
        },
        forall|position: int|
            0 <= position < before.pending.len() && (#[trigger] before.pending[position]).job.id
                == id ==> {
                &&& calls.len() == 0
                &&& result == Ok::<Option<Cancellation>, PlaybackError>(
                    Some(
                        Cancellation {
                            playback_id: id,
                            state: PlaybackState::Interrupted,
                            cancelled: true,
                        },
                    ),
                )
                &&& after.active == before.active
                &&& after.pending == before.pending.remove(position)
                &&& after.statuses.contains_key(id) ==> after.statuses[id]
                    == PlaybackState::Interrupted
                &&& after.events == before.events.push(told(id, PlaybackState::Interrupted))
            },
        before.statuses.contains_key(id) && before.statuses[id].ended() ==> {
            &&& calls.len() == 0
            &&& after == before
            &&& result == Ok::<Option<Cancellation>, PlaybackError>(
                Some(
                    Cancellation { playback_id: id, state: before.statuses[id], cancelled: false },
                ),
            )
        },
        !before.statuses.contains_key(id) ==> {
            &&& calls.len() == 0
            &&& after == before
            &&& result == Ok::<Option<Cancellation>, PlaybackError>(None)
        },
{
    let ids = actor::pending_ids(before.pending);
    ids.index_of_first_ensures(id);
    actor::lemma_without(before.active, id);
    assert forall|position: int|
        0 <= position < before.pending.len() && (#[trigger] before.pending[position]).job.id
            == id implies ids.contains(id) && ids.index_of_first(id) == Some(position)
        && !before.active.contains(id) by {
        assert(ids[position] == id);
        assert(ids.contains(id));
    }
    if before.active.contains(id) {
        if calls[0].reply() is Ok {
            let freed = before.deactivate(id);
            let next = freed.record(id, PlaybackState::Interrupted, None);
            item_laws::lemma_cancelled_item_rests(before, id, calls, result.unwrap().unwrap(), after);
            if !before.unhealthy {
                actor_laws::lemma_active_ended(before, id, PlaybackState::Interrupted, None);
                super::schedule_laws::law_round_fills_the_free_streams(next, calls.skip(1), after);
                super::schedule_laws::law_round_tells_of_every_item(next, calls.skip(1), after);
                assert(after.events[before.events.len() as int]
                    == next.events[before.events.len() as int]);
                assert forall|x: PlaybackId|
                    #![trigger after.active.contains(x)]
                    x != id && before.active.contains(x) implies after.active.contains(x) by {
                    assert(next.active.contains(x));
                    let i = choose|i: int| 0 <= i < next.active.len() && next.active[i] == x;
                    assert(after.active[i] == x);
                }
            }
        }
    }
}

/// A completion of an item that plays tells the backend first that the item is
/// finished. The item then no longer plays; it is completed, or failed with the
/// error that is told of it, and what else plays goes on.
pub proof fn law_finished_items_end_as_they_did<S>(
    before: ActorModel<S>,
    id: PlaybackId,
    error: Option<Seq<char>>,
    calls: Seq<BackendCall<S>>,
    after: ActorModel<S>,
)
    requires
        before.consistent(),
        before.finished(id, error, calls, after),
        before.active.contains(id),
    ensures
        calls.len() >= 1,
        calls[0] == BackendCall::<S>::Finished(id),
        !after.active.contains(id),
        after.statuses.contains_key(id) ==> after.statuses[id] == (if error is None {
            PlaybackState::Completed
        } else {
            PlaybackState::Failed
        }),
        after.events.len() > before.events.len(),
        after.events[before.events.len() as int] == (EventModel {
            playback_id: id,
            state: if error is None {
                PlaybackState::Completed
            } else {
                PlaybackState::Failed
            },
            error,
        }),
        forall|x: PlaybackId|
            #![trigger after.active.contains(x)]
            x != id && before.active.contains(x) ==> after.active.contains(x),
        before.unhealthy ==> after.pending == before.pending && calls.len() == 1,
        !before.unhealthy && before.pending.len() > 0 && before.active.len() == 1 ==> calls.len()
            > 1 && (calls[1] matches BackendCall::Start(job, _) && job == before.pending[0].job),
{
    let state = if error is None {
        PlaybackState::Completed
    } else {
        PlaybackState::Failed
    };
    actor::lemma_without(before.active, id);
    let next = before.deactivate(id).record(id, state, error);
    assert(!actor::pending_ids(before.pending).contains(id));
    assert(next.at_rest(id, state));
    assert(next.active == actor::without(before.active, id));
    if !before.unhealthy {
        let rest = calls.skip(1);
        actor_laws::lemma_active_ended(before, id, state, error);
        item_laws::lemma_rest_through_round(next, rest, after, id, state);
        super::schedule_laws::law_round_fills_the_free_streams(next, rest, after);
        super::schedule_laws::law_round_tells_of_every_item(next, rest, after);
        assert(after.events[before.events.len() as int]
            == next.events[before.events.len() as int]);
        assert forall|x: PlaybackId|
            #![trigger after.active.contains(x)]
            x != id && before.active.contains(x) implies after.active.contains(x) by {
            assert(next.active.contains(x));
            let i = choose|i: int| 0 <= i < next.active.len() && next.active[i] == x;
            assert(after.active[i] == x);
        }
        if before.pending.len() > 0 && before.active.len() == 1 {
            assert(next.active.len() == 0);
            assert(rest.len() > 0);
            assert(rest[0] == calls[1]);
        }
    }
}

/// An emergency stop asks the backend to stop each active item, in order, and
/// empties the FIFO whatever the backend says. What waited is interrupted, and so
/// is what the backend confirmed; an item whose stop failed plays on. Where all
/// stops were confirmed, the answer counts every item that was stopped; otherwise
/// it is the first failure, and the backend counts as unhealthy.
pub proof fn law_emergency_stop_stops_each_item<S>(
    before: ActorModel<S>,
    calls: Seq<BackendCall<S>>,
    result: Result<EmergencyStop, PlaybackError>,
    after: ActorModel<S>,
)
    requires
        before.consistent(),
        before.emergency_stopped(calls, result, after),
    ensures
        calls.len() == before.active.len(),
        forall|i: int|
            0 <= i < calls.len() ==> (#[trigger] calls[i] matches BackendCall::Stop(id, _) && id
                == before.active[i]),
        after.pending.len() == 0,
        forall|x: PlaybackId| #[trigger]
            after.active.contains(x) <==> before.active.contains(x) && !confirmed(
                before.active,
                calls,
                x,
            ),
        forall|x: PlaybackId|
            #![trigger after.statuses.contains_key(x)]
            after.statuses.contains_key(x) && (actor::pending_ids(before.pending).contains(x)
                || confirmed(before.active, calls, x)) ==> after.statuses[x]
                == PlaybackState::Interrupted,
        (forall|i: int| 0 <= i < calls.len() ==> (#[trigger] calls[i]).reply() is Ok) ==> {
            &&& result matches Ok(stop)
            &&& before.pending.len() + before.active.len() <= usize::MAX ==> stop.interrupted_items
                == before.pending.len() + before.active.len()
            &&& after.active.len() == 0
            &&& after.unhealthy == before.unhealthy
        },
        (exists|i: int| 0 <= i < calls.len() && (#[trigger] calls[i]).reply() is Err) ==> {
            &&& after.unhealthy
            &&& exists|i: int|
                {
                    &&& 0 <= i < calls.len()
                    &&& (#[trigger] calls[i]).reply() is Err
                    &&& result == Err::<EmergencyStop, PlaybackError>(
                        calls[i].reply().unwrap_err(),
                    )
                    &&& forall|j: int| 0 <= j < i ==> (#[trigger] calls[j]).reply() is Ok
                }
        },
{
    actor_laws::law_emergency_stop_silences(before, calls, result, after);
    actor_laws::law_discarding_keeps_consistency(before);
    let discarded = before.queue_discarded();
    let waiting = actor::pending_ids(before.pending);
    let emptied = ActorModel { pending: Seq::empty(), ..before };
    lemma_first_failure(calls);
    assert forall|x: PlaybackId| #[trigger] after.active.contains(x) <==> before.active.contains(x)
        && !confirmed(before.active, calls, x) by {
        lemma_stopped(discarded, before.active, calls, x);
    }
    assert forall|x: PlaybackId|
        #![trigger after.statuses.contains_key(x)]
        after.statuses.contains_key(x) && (waiting.contains(x) || confirmed(
            before.active,
            calls,
            x,
        )) implies after.statuses[x] == PlaybackState::Interrupted by {
        lemma_stopped(discarded, before.active, calls, x);
        item_laws::lemma_interrupted_state(emptied, waiting, x);
    }
    if let Some(error) = actor::first_error(calls) {
        let i = choose|i: int|
            {
                &&& 0 <= i < calls.len()
                &&& (#[trigger] calls[i]).reply() == Err::<(), PlaybackError>(error)
                &&& forall|j: int| 0 <= j < i ==> (#[trigger] calls[j]).reply() is Ok
            };
        assert(calls[i].reply() is Err);
    }
}

/// Shutting down asks the backend to stop each active item, in order, and then to
/// shut down. Whatever it says, nothing plays or waits afterwards, and what did is
/// interrupted. The first failure is answered.
pub proof fn law_shutdown_stops_each_item<S>(
    before: ActorModel<S>,
    calls: Seq<BackendCall<S>>,
    result: Result<(), PlaybackError>,
    after: ActorModel<S>,
)
    requires
        before.consistent(),
        before.shut_down(calls, result, after),
    ensures
        calls.len() == before.active.len() + 1,
        calls.last() is Shutdown,
        forall|i: int|
            0 <= i < before.active.len() ==> (#[trigger] calls[i] matches BackendCall::Stop(id, _)
                && id == before.active[i]),
        after.active.len() == 0,
        after.pending.len() == 0,
        forall|x: PlaybackId|
            #![trigger after.statuses.contains_key(x)]
            after.statuses.contains_key(x) && (before.active.contains(x) || actor::pending_ids(
                before.pending,
            ).contains(x)) ==> after.statuses[x] == PlaybackState::Interrupted,
        result is Ok <==> forall|i: int|
            0 <= i < calls.len() ==> (#[trigger] calls[i]).reply() is Ok,
        result matches Err(error) ==> exists|i: int|
            {
                &&& 0 <= i < calls.len()
                &&& (#[trigger] calls[i]).reply() == Err::<(), PlaybackError>(error)
                &&& forall|j: int| 0 <= j < i ==> (#[trigger] calls[j]).reply() is Ok
            },
{
    actor_laws::law_shutdown_releases_everything(before, calls, result, after);
    lemma_first_failure(calls);
    let stopping = calls.drop_last();
    assert forall|i: int| 0 <= i < before.active.len() implies (#[trigger] calls[i] matches
        BackendCall::Stop(id, _) && id == before.active[i]) by {
        assert(stopping[i] is Stop);
    }
    assert forall|x: PlaybackId|
        #![trigger after.statuses.contains_key(x)]
        after.statuses.contains_key(x) && (before.active.contains(x) || actor::pending_ids(
            before.pending,
        ).contains(x)) implies after.statuses[x] == PlaybackState::Interrupted by {
        assert(before.in_flight(x));
        item_laws::law_shutdown_interrupts_what_is_in_flight(before, calls, result, after, x);
    }
}

/// The item that was accepted last is listed first, and the others behind it as
/// they were.
pub proof fn law_newest_item_is_listed_first<S>(
    before: ActorModel<S>,
    job: PlaybackJob<S>,
    calls: Seq<BackendCall<S>>,
    after: ActorModel<S>,
)
    requires
        before.consistent(),
        !before.statuses.contains_key(job.id),
        before.submitted(
            job,
            ConcurrencyMode::Enqueue,
            calls,
            Ok(Acceptance { playback_id: job.id }),
            after,
        ),
    ensures
        after.newest_first() == seq![
            PlaybackStatus {
                playback_id: job.id,
                state: if before.active.len() == 0 {
                    PlaybackState::Playing
                } else {
                    PlaybackState::Accepted
                },
            },
        ] + before.newest_first(),
{
    let shown = after.newest_first();
    let earlier = before.newest_first();
    let result = Ok::<Acceptance, PlaybackError>(Acceptance { playback_id: job.id });
    law_enqueued_items_play_or_wait(before, job, calls, result, after);
    assert(after.order == before.order.push(job.id)) by {
        if before.active.len() == 0 {
            let playing = before.activate(job.id);
            lemma_recorded(playing, job.id, PlaybackState::Accepted, None);
            let accepted = playing.record(job.id, PlaybackState::Accepted, None);
            assert(accepted.order == before.order.push(job.id));
            lemma_recorded(accepted, job.id, PlaybackState::Playing, None);
        }
    }
    let count = before.order.len() as int;
    assert forall|i: int| 0 <= i < count implies #[trigger] earlier[i] == shown[i + 1] by {
        let id = before.order[count - 1 - i];
        assert(after.order[count - 1 - i] == id);
        assert(before.order.contains(id));
        assert(before.statuses.contains_key(id));
        assert(id != job.id);
        assert(has_state(after, id, before.statuses[id]));
    }
    assert(shown =~= seq![shown[0]] + earlier);
}

/// The states that have ended are the last ones of an item.
pub proof fn law_three_states_are_final(state: PlaybackState)
    ensures
        state.ended() <==> state == PlaybackState::Completed || state == PlaybackState::Interrupted
            || state == PlaybackState::Failed,
{
}

/// A call is answered as the backend answered it; only the end of an item, which
/// the backend is merely told of, is always well.
pub proof fn law_replies_are_what_the_backend_said<S>(
    job: PlaybackJob<S>,
    id: PlaybackId,
    reply: Result<(), PlaybackError>,
)
    ensures
        BackendCall::Start(job, reply).reply() == reply,
        BackendCall::<S>::Stop(id, reply).reply() == reply,
        BackendCall::<S>::Shutdown(reply).reply() == reply,
        BackendCall::<S>::Finished(id).reply() is Ok,
{
}

/// A lifecycle record tells of its own item, with its state and its error. A
/// failed item has the error that the backend gave, a completed one has none.
pub proof fn law_records_are_told_whole(event: LifecycleEvent, detail: String, count: nat)
    ensures
        event@.playback_id == event.playback_id,
        event@.state == event.state,
        event@.error is Some <==> event.error is Some,
        event.error matches Some(error) ==> event@.error == Some(error@),
        BackendCompletion::Completed.error_text() is None,
        BackendCompletion::Failed(detail).error_text() == Some(detail@),
        actor::optional_text(Some(detail)) == Some(detail@),
        actor::optional_text(None) is None,
        count <= usize::MAX ==> actor::items_stopped(count) == count,
        count > usize::MAX ==> actor::items_stopped(count) == usize::MAX,
{
}

} // verus!
