//! How the FIFO is worked off, said of every round.
use super::actor;
use super::actor::{ActorModel, BackendCall, EventModel, PlaybackState};
use super::actor_laws;
use super::job::{ConcurrencyMode, PlaybackId};
use vstd::prelude::*;

verus! {

/// The items that these calls started, in order.
pub open spec fn started_ids<S>(calls: Seq<BackendCall<S>>) -> Seq<PlaybackId>
    decreases calls.len(),
{
    if calls.len() == 0 {
        Seq::empty()
    } else {
        let rest = started_ids(calls.skip(1));
        match calls[0] {
            BackendCall::Start(job, Ok(())) => seq![job.id] + rest,
            _ => rest,
        }
    }
}

/// The first of some starts.
proof fn lemma_first_started<S>(calls: Seq<BackendCall<S>>, count: int)
    requires
        1 <= count <= calls.len(),
        calls[0] is Start,
    ensures
        started_ids(calls.take(count)).len() == (if calls[0].reply() is Ok {
            1int
        } else {
            0int
        }) + started_ids(calls.skip(1).take(count - 1)).len(),
{
    assert(calls.take(count).skip(1) =~= calls.skip(1).take(count - 1));
    assert(calls.take(count)[0] == calls[0]);
}

/// A round starts the waiting items from the head on. What started joins what
/// played, in that order. An item that does not mix starts only where nothing
/// plays, and one that mixes only where nothing plays or a stream is free. A round
/// ends where nothing waits any more, where the next item may not start, or with
/// the start of an item that does not mix.
pub proof fn law_round_fills_the_free_streams<S>(
    before: ActorModel<S>,
    calls: Seq<BackendCall<S>>,
    after: ActorModel<S>,
)
    requires
        before.consistent(),
        before.advanced(calls, after),
    ensures
        calls.len() <= before.pending.len(),
        after.pending == before.pending.skip(calls.len() as int),
        after.active == before.active + started_ids(calls),
        forall|i: int|
            0 <= i < calls.len() ==> {
                let playing = before.active.len() + started_ids(calls.take(i)).len();
                &&& #[trigger] calls[i] matches BackendCall::Start(job, _)
                &&& job == before.pending[i].job
                &&& playing == 0 || (before.pending[i].mode == ConcurrencyMode::Mix && playing
                    < before.maximum_active_items)
            },
        after.pending.len() > 0 ==> {
            ||| after.active.len() > 0 && after.pending[0].mode != ConcurrencyMode::Mix
            ||| after.active.len() > 0 && after.active.len() >= after.maximum_active_items
            ||| calls.len() > 0 && calls.last().reply() is Ok && before.pending[calls.len()
                - 1].mode != ConcurrencyMode::Mix
        },
        after.maximum_active_items == before.maximum_active_items,
        after.unhealthy == before.unhealthy,
    decreases calls.len(),
{
    actor_laws::law_queue_is_first_in_first_out(before, calls, after);
    if !before.head_may_start() {
        assert(after.active =~= before.active + started_ids(calls));
    } else {
        let head = before.pending[0].job.id;
        let reply = calls[0].reply();
        let next = before.head_taken().start_replied(head, reply, true);
        let rest = calls.skip(1);
        assert(actor::pending_ids(before.pending)[0] == head);
        assert(actor::pending_ids(before.pending).contains(head));
        assert(!before.active.contains(head));
        assert(next.active =~= if reply is Ok {
            before.active.push(head)
        } else {
            before.active
        });
        actor_laws::lemma_head_started(before, reply);
        if reply is Ok && before.pending[0].mode != ConcurrencyMode::Mix {
            assert(rest =~= Seq::empty());
            assert(started_ids(rest) =~= Seq::empty());
            assert(after.active =~= before.active + started_ids(calls));
        } else {
            law_round_fills_the_free_streams(next, rest, after);
            assert(after.active =~= before.active + started_ids(calls));
            assert(calls.last() == if rest.len() > 0 {
                rest.last()
            } else {
                calls[0]
            });
        }
        assert forall|i: int| 0 <= i < calls.len() implies {
            let playing = before.active.len() + started_ids(calls.take(i)).len();
            &&& #[trigger] calls[i] matches BackendCall::Start(job, _)
            &&& job == before.pending[i].job
            &&& playing == 0 || (before.pending[i].mode == ConcurrencyMode::Mix && playing
                < before.maximum_active_items)
        } by {
            if i == 0 {
                assert(calls.take(0) =~= Seq::empty());
            } else {
                lemma_first_started(calls, i);
                assert(rest[i - 1] == calls[i]);
                assert(next.pending[i - 1] == before.pending[i]);
            }
        }
    }
}

/// Waiting items that mix play together: a round with as many free streams as
/// mixing items wait at the head of the FIFO, and whose starts succeed, starts all
/// of them.
pub proof fn law_mixing_items_play_together<S>(
    before: ActorModel<S>,
    calls: Seq<BackendCall<S>>,
    after: ActorModel<S>,
    count: nat,
)
    requires
        before.consistent(),
        before.advanced(calls, after),
        count <= before.pending.len(),
        before.active.len() + count <= before.maximum_active_items,
        forall|i: int|
            0 <= i < count ==> (#[trigger] before.pending[i]).mode == ConcurrencyMode::Mix,
        forall|i: int| 0 <= i < calls.len() ==> (#[trigger] calls[i]).reply() is Ok,
    ensures
        calls.len() >= count,
        forall|i: int|
            0 <= i < count ==> after.active.contains((#[trigger] before.pending[i]).job.id)
                && after.status_of(before.pending[i].job.id) == Some(
                actor::PlaybackStatus {
                    playback_id: before.pending[i].job.id,
                    state: PlaybackState::Playing,
                },
            ),
{
    law_round_fills_the_free_streams(before, calls, after);
    actor_laws::law_advancing_keeps_consistency(before, calls, after);
    lemma_all_started(calls);
    let started = started_ids(calls);
    if calls.len() < count {
        assert(after.pending[0] == before.pending[calls.len() as int]);
    }
    assert forall|i: int| 0 <= i < count implies after.active.contains(
        (#[trigger] before.pending[i]).job.id,
    ) by {
        assert(calls[i] is Start);
        assert(started[i] == before.pending[i].job.id);
        assert(after.active[before.active.len() + i] == before.pending[i].job.id);
    }
}

/// Starts that all succeed start all of their items.
proof fn lemma_all_started<S>(calls: Seq<BackendCall<S>>)
    requires
        forall|i: int|
            0 <= i < calls.len() ==> (#[trigger] calls[i]) is Start && calls[i].reply() is Ok,
    ensures
        started_ids(calls).len() == calls.len(),
        forall|i: int|
            0 <= i < calls.len() ==> (calls[i] matches BackendCall::Start(job, _)
                && #[trigger] started_ids(calls)[i] == job.id),
    decreases calls.len(),
{
    if calls.len() > 0 {
        let rest = calls.skip(1);
        assert forall|i: int| 0 <= i < rest.len() implies (#[trigger] rest[i]) is Start
            && rest[i].reply() is Ok by {
            assert(rest[i] == calls[i + 1]);
        }
        lemma_all_started(rest);
        assert(calls[0] is Start);
        assert forall|i: int| 0 <= i < calls.len() implies (calls[i] matches
            BackendCall::Start(job, _) && #[trigger] started_ids(calls)[i] == job.id) by {
            if i > 0 {
                assert(rest[i - 1] == calls[i]);
                assert(started_ids(calls)[i] == started_ids(rest)[i - 1]);
            }
        }
    }
}

/// A round tells of each item that it tried, in order: that it plays, or that it
/// failed and why.
pub proof fn law_round_tells_of_every_item<S>(
    before: ActorModel<S>,
    calls: Seq<BackendCall<S>>,
    after: ActorModel<S>,
)
    requires
        before.advanced(calls, after),
    ensures
        calls.len() <= before.pending.len(),
        after.events.len() == before.events.len() + calls.len(),
        before.events.is_prefix_of(after.events),
        forall|i: int|
            0 <= i < calls.len() ==> {
                let event = #[trigger] after.events[before.events.len() + i];
                &&& event.playback_id == before.pending[i].job.id
                &&& match calls[i].reply() {
                    Ok(()) => event.state == PlaybackState::Playing && event.error is None,
                    Err(error) => event.state == PlaybackState::Failed && event.error == Some(
                        error.message_text(),
                    ),
                }
            },
    decreases calls.len(),
{
    actor_laws::law_queue_is_first_in_first_out(before, calls, after);
    let told = before.events.len() as int;
    if before.head_may_start() {
        let head = before.pending[0].job.id;
        let reply = calls[0].reply();
        let next = before.head_taken().start_replied(head, reply, true);
        let rest = calls.skip(1);
        assert(next.events =~= before.events.push(
            EventModel {
                playback_id: head,
                state: match reply {
                    Ok(()) => PlaybackState::Playing,
                    Err(_) => PlaybackState::Failed,
                },
                error: match reply {
                    Ok(()) => None,
                    Err(error) => Some(error.message_text()),
                },
            },
        ));
        if reply is Ok && before.pending[0].mode != ConcurrencyMode::Mix {
        } else {
            law_round_tells_of_every_item(next, rest, after);
            assert(before.events =~= after.events.take(told));
            assert forall|i: int| 0 <= i < calls.len() implies {
                let event = #[trigger] after.events[told + i];
                &&& event.playback_id == before.pending[i].job.id
                &&& match calls[i].reply() {
                    Ok(()) => event.state == PlaybackState::Playing && event.error is None,
                    Err(error) => event.state == PlaybackState::Failed && event.error == Some(
                        error.message_text(),
                    ),
                }
            } by {
                if i == 0 {
                    assert(after.events[told] == next.events[told]);
                } else {
                    assert(after.events[next.events.len() + (i - 1)] == after.events[told + i]);
                    assert(rest[i - 1] == calls[i]);
                    assert(next.pending[i - 1] == before.pending[i]);
                }
            }
        }
        assert(before.events =~= after.events.take(told));
    }
}

} // verus!
