use super::error::PlaybackError;
use super::job::{ConcurrencyMode, PlaybackId, PlaybackJob};
use std::collections::{HashMap, VecDeque};
use vstd::prelude::*;

verus! {

broadcast use vstd::std_specs::hash::group_hash_axioms;

/// Most-recent terminal playback results retained for status inspection.
pub const PLAYBACK_STATUS_RETENTION_ITEMS: usize = 256;

/// Default stream capacity for callers that do not supply policy.
pub const DEFAULT_INTERNAL_MIX_STREAM_CAPACITY: usize = 2;

/// A successful actor acceptance. It does not claim completion or audibility.
#[derive(Clone, Copy, Debug, PartialEq, Eq, Structural)]
pub struct Acceptance {
    pub playback_id: PlaybackId,
}

/// Result of asking the actor to cancel one accepted playback ID.
#[derive(Clone, Copy, Debug, PartialEq, Eq, Structural)]
pub struct Cancellation {
    pub playback_id: PlaybackId,
    pub state: PlaybackState,
    pub cancelled: bool,
}

/// Result of stopping every active or queued item owned by this actor.
#[derive(Clone, Copy, Debug, PartialEq, Eq, Structural)]
pub struct EmergencyStop {
    pub interrupted_items: usize,
}

/// Where one accepted playback item stands.
#[derive(Clone, Copy, Debug, PartialEq, Eq, Structural)]
pub enum PlaybackState {
    Accepted,
    Playing,
    Completed,
    Interrupted,
    Failed,
}

impl PlaybackState {
    /// The states that no event leaves.
    pub open spec fn ended(self) -> bool {
        self is Completed || self is Interrupted || self is Failed
    }

    pub fn is_terminal(self) -> (terminal: bool)
        ensures
            terminal == self.ended(),
    {
        matches!(self, PlaybackState::Completed | PlaybackState::Interrupted | PlaybackState::Failed)
    }
}

/// Current or retained terminal state for one actor-accepted playback ID.
#[derive(Clone, Copy, Debug, PartialEq, Eq, Structural)]
pub struct PlaybackStatus {
    pub playback_id: PlaybackId,
    pub state: PlaybackState,
}

/// One lifecycle record for diagnostics and history.
#[derive(Debug, PartialEq, Eq)]
pub struct LifecycleEvent {
    pub playback_id: PlaybackId,
    pub state: PlaybackState,
    pub error: Option<String>,
}

/// What a lifecycle record says, its error as characters.
pub struct EventModel {
    pub playback_id: PlaybackId,
    pub state: PlaybackState,
    pub error: Option<Seq<char>>,
}

/// The characters of an optional text.
pub open spec fn optional_text(text: Option<String>) -> Option<Seq<char>> {
    match text {
        Some(text) => Some(text@),
        None => None,
    }
}

impl View for LifecycleEvent {
    type V = EventModel;

    open spec fn view(&self) -> EventModel {
        EventModel {
            playback_id: self.playback_id,
            state: self.state,
            error: optional_text(self.error),
        }
    }
}

/// Terminal information supplied by a backend after a successful start.
#[derive(Debug, PartialEq, Eq)]
pub enum BackendCompletion {
    Completed,
    Failed(String),
}

impl BackendCompletion {
    /// The error that ended the item, if one did.
    pub open spec fn error_text(self) -> Option<Seq<char>> {
        match self {
            BackendCompletion::Completed => None,
            BackendCompletion::Failed(error) => Some(error@),
        }
    }
}

/// One call that the actor made on its backend, with the backend's reply.
pub enum BackendCall<S> {
    Start(PlaybackJob<S>, Result<(), PlaybackError>),
    Stop(PlaybackId, Result<(), PlaybackError>),
    Finished(PlaybackId),
    Shutdown(Result<(), PlaybackError>),
}

impl<S> BackendCall<S> {
    pub open spec fn reply(self) -> Result<(), PlaybackError> {
        match self {
            BackendCall::Start(_, reply) => reply,
            BackendCall::Stop(_, reply) => reply,
            BackendCall::Finished(_) => Ok(()),
            BackendCall::Shutdown(reply) => reply,
        }
    }
}

/// Narrow seam around the platform-specific playback implementation.
pub trait PlaybackBackend<S>: Sized {
    fn start(&mut self, job: PlaybackJob<S>) -> Result<(), PlaybackError>;

    /// Return only once this active output has been asked to stop.
    fn stop(&mut self, playback_id: PlaybackId) -> Result<(), PlaybackError>;

    /// Release per-item backend state after a terminal callback.
    fn finished(&mut self, playback_id: PlaybackId)
        default_ensures
            *final(self) == *old(self),
    {
    }

    /// Release what the backend holds; by default there is nothing to release.
    fn shutdown(&mut self) -> (reply: Result<(), PlaybackError>)
        default_ensures
            reply is Ok,
            *final(self) == *old(self),
    {
        Ok(())
    }
}

/// The call was made on the backend, with the arguments and the reply that the
/// call holds.
pub open spec fn made_on<S, B: PlaybackBackend<S>>(backend: &mut B, call: BackendCall<S>) -> bool {
    match call {
        BackendCall::Start(job, reply) => call_ensures(B::start, (backend, job), reply),
        BackendCall::Stop(id, reply) => call_ensures(B::stop, (backend, id), reply),
        BackendCall::Finished(id) => call_ensures(B::finished, (backend, id), ()),
        BackendCall::Shutdown(reply) => call_ensures(B::shutdown, (backend,), reply),
    }
}

/// A backend with the record of every call made on it.
pub struct RecordedBackend<S, B> {
    backend: B,
    record: Ghost<Seq<BackendCall<S>>>,
    /// The backend before each call of the record.
    earlier: Ghost<Seq<B>>,
}

impl<S, B: PlaybackBackend<S>> RecordedBackend<S, B> {
    /// Every call made so far, with its reply, oldest first.
    pub closed spec fn calls(&self) -> Seq<BackendCall<S>> {
        self.record@
    }

    /// The backend before each call, and as it is now.
    pub closed spec fn states(&self) -> Seq<B> {
        self.earlier@.push(self.backend)
    }

    fn new(backend: B) -> (recorded: Self)
        ensures
            recorded.calls().len() == 0,
            recorded.states() == seq![backend],
    {
        let recorded = RecordedBackend {
            backend,
            record: Ghost(Seq::empty()),
            earlier: Ghost(Seq::empty()),
        };
        assert(recorded.states() =~= seq![backend]);
        recorded
    }

    fn start(&mut self, job: PlaybackJob<S>) -> (reply: Result<(), PlaybackError>)
        ensures
            final(self).calls() == old(self).calls().push(BackendCall::Start(job, reply)),
            final(self).states().drop_last() == old(self).states(),
            exists|backend: &mut B|
                *backend == old(self).states().last() && *final(backend)
                    == final(self).states().last() && #[trigger] made_on(
                    backend,
                    BackendCall::Start(job, reply),
                ),
    {
        let ghost asked = job;
        self.earlier = Ghost(self.earlier@.push(self.backend));
        let reply = self.backend.start(job);
        assert(forall|backend: &mut B| #[trigger]
            call_ensures(B::start, (backend, asked), reply) ==> made_on(
                backend,
                BackendCall::Start(asked, reply),
            ));
        self.record = Ghost(self.record@.push(BackendCall::Start(asked, reply)));
        reply
    }

    fn stop(&mut self, playback_id: PlaybackId) -> (reply: Result<(), PlaybackError>)
        ensures
            final(self).calls() == old(self).calls().push(BackendCall::Stop(playback_id, reply)),
            final(self).states().drop_last() == old(self).states(),
            exists|backend: &mut B|
                *backend == old(self).states().last() && *final(backend)
                    == final(self).states().last() && #[trigger] made_on(
                    backend,
                    BackendCall::<S>::Stop(playback_id, reply),
                ),
    {
        self.earlier = Ghost(self.earlier@.push(self.backend));
        let reply = self.backend.stop(playback_id);
        assert(forall|backend: &mut B| #[trigger]
            call_ensures(B::stop, (backend, playback_id), reply) ==> made_on(
                backend,
                BackendCall::<S>::Stop(playback_id, reply),
            ));
        self.record = Ghost(self.record@.push(BackendCall::Stop(playback_id, reply)));
        reply
    }

    fn finished(&mut self, playback_id: PlaybackId)
        ensures
            final(self).calls() == old(self).calls().push(BackendCall::Finished(playback_id)),
            final(self).states().drop_last() == old(self).states(),
            exists|backend: &mut B|
                *backend == old(self).states().last() && *final(backend)
                    == final(self).states().last() && #[trigger] made_on(
                    backend,
                    BackendCall::<S>::Finished(playback_id),
                ),
    {
        self.earlier = Ghost(self.earlier@.push(self.backend));
        self.backend.finished(playback_id);
        assert(forall|backend: &mut B| #[trigger]
            call_ensures(B::finished, (backend, playback_id), ()) ==> made_on(
                backend,
                BackendCall::<S>::Finished(playback_id),
            ));
        self.record = Ghost(self.record@.push(BackendCall::Finished(playback_id)));
    }

    fn shutdown(&mut self) -> (reply: Result<(), PlaybackError>)
        ensures
            final(self).calls() == old(self).calls().push(BackendCall::Shutdown(reply)),
            final(self).states().drop_last() == old(self).states(),
            exists|backend: &mut B|
                *backend == old(self).states().last() && *final(backend)
                    == final(self).states().last() && #[trigger] made_on(
                    backend,
                    BackendCall::<S>::Shutdown(reply),
                ),
    {
        self.earlier = Ghost(self.earlier@.push(self.backend));
        let reply = self.backend.shutdown();
        assert(forall|backend: &mut B| #[trigger]
            call_ensures(B::shutdown, (backend,), reply) ==> made_on(
                backend,
                BackendCall::<S>::Shutdown(reply),
            ));
        self.record = Ghost(self.record@.push(BackendCall::Shutdown(reply)));
        reply
    }
}

/// An accepted item that waits in the FIFO.
#[derive(Debug)]
pub struct Pending<S> {
    pub job: PlaybackJob<S>,
    pub mode: ConcurrencyMode,
}

/// The actor's state as mathematical values.
#[verifier::ext_equal]
pub struct ActorModel<S> {
    pub maximum_queue_items: nat,
    pub maximum_active_items: nat,
    /// Items whose backend start succeeded and that have not ended.
    pub active: Seq<PlaybackId>,
    /// Accepted items that have not started, next first.
    pub pending: Seq<Pending<S>>,
    pub statuses: Map<PlaybackId, PlaybackState>,
    /// Items with a retained terminal state, oldest first.
    pub terminal: Seq<PlaybackId>,
    /// Every item with a status, by first acceptance.
    pub order: Seq<PlaybackId>,
    /// A stop was not confirmed; nothing more is started.
    pub unhealthy: bool,
    /// Lifecycle records, oldest first.
    pub events: Seq<EventModel>,
}

/// The identifiers of waiting items, in order.
pub open spec fn pending_ids<S>(pending: Seq<Pending<S>>) -> Seq<PlaybackId> {
    pending.map_values(|item: Pending<S>| item.job.id)
}

/// A sequence without one value.
pub open spec fn without(ids: Seq<PlaybackId>, id: PlaybackId) -> Seq<PlaybackId> {
    ids.filter(|other: PlaybackId| other != id)
}

/// The first failed reply of a series of calls.
pub open spec fn first_error<S>(calls: Seq<BackendCall<S>>) -> Option<PlaybackError>
    decreases calls.len(),
{
    if calls.len() == 0 {
        None
    } else {
        match first_error(calls.drop_last()) {
            Some(error) => Some(error),
            None => match calls.last().reply() {
                Ok(()) => None,
                Err(error) => Some(error),
            },
        }
    }
}

/// The calls are one stop for each of `ids`, in order.
pub open spec fn stops<S>(ids: Seq<PlaybackId>, calls: Seq<BackendCall<S>>) -> bool {
    calls.len() == ids.len() && forall|i: int|
        0 <= i < ids.len() ==> (#[trigger] calls[i] matches BackendCall::Stop(id, _) && id
            == ids[i])
}

/// A number of items as a machine integer; a count that would not fit is held
/// at the largest one.
pub open spec fn items_stopped(count: nat) -> usize {
    if count <= usize::MAX {
        count as usize
    } else {
        usize::MAX
    }
}

impl<S> ActorModel<S> {
    /// An actor that has accepted nothing.
    pub open spec fn idle(maximum_queue_items: nat, maximum_active_items: nat) -> Self {
        ActorModel {
            maximum_queue_items,
            maximum_active_items,
            active: Seq::empty(),
            pending: Seq::empty(),
            statuses: Map::empty(),
            terminal: Seq::empty(),
            order: Seq::empty(),
            unhealthy: false,
            events: Seq::empty(),
        }
    }

    /// Record a new state for an item: its status, the retained terminal
    /// results, and a lifecycle event. The oldest terminal result leaves when
    /// the retention limit is passed.
    pub open spec fn record(
        self,
        id: PlaybackId,
        state: PlaybackState,
        error: Option<Seq<char>>,
    ) -> Self {
        let order = if self.statuses.contains_key(id) {
            self.order
        } else {
            self.order.push(id)
        };
        let ends = state.ended() && !(self.statuses.contains_key(id)
            && self.statuses[id].ended());
        let statuses = self.statuses.insert(id, state);
        let terminal = if ends {
            self.terminal.push(id)
        } else {
            self.terminal
        };
        let events = self.events.push(EventModel { playback_id: id, state, error });
        if terminal.len() > PLAYBACK_STATUS_RETENTION_ITEMS {
            ActorModel {
                statuses: statuses.remove(terminal[0]),
                terminal: terminal.skip(1),
                order: without(order, terminal[0]),
                events,
                ..self
            }
        } else {
            ActorModel { statuses, terminal, order, events, ..self }
        }
    }

    /// The item plays.
    pub open spec fn activate(self, id: PlaybackId) -> Self {
        if self.active.contains(id) {
            self
        } else {
            ActorModel { active: self.active.push(id), ..self }
        }
    }

    /// The item no longer plays.
    pub open spec fn deactivate(self, id: PlaybackId) -> Self {
        ActorModel { active: without(self.active, id), ..self }
    }

    /// The item joins the tail of the FIFO.
    pub open spec fn queued(self, item: Pending<S>) -> Self {
        let id = item.job.id;
        ActorModel { pending: self.pending.push(item), ..self }.record(
            id,
            PlaybackState::Accepted,
            None,
        )
    }

    /// After the backend answered a start. `accepted` says whether the item was
    /// accepted into the FIFO before.
    pub open spec fn start_replied(
        self,
        id: PlaybackId,
        reply: Result<(), PlaybackError>,
        accepted: bool,
    ) -> Self {
        match reply {
            Ok(()) => {
                let playing = self.activate(id);
                if accepted {
                    playing.record(id, PlaybackState::Playing, None)
                } else {
                    playing.record(id, PlaybackState::Accepted, None).record(
                        id,
                        PlaybackState::Playing,
                        None,
                    )
                }
            },
            Err(error) => if accepted {
                self.record(id, PlaybackState::Failed, Some(error.message_text()))
            } else {
                self
            },
        }
    }

    /// Whether the head of the FIFO may start: anything when idle, otherwise a
    /// mixing item while a stream is free.
    pub open spec fn head_may_start(self) -> bool {
        &&& self.pending.len() > 0
        &&& self.active.len() == 0 || (self.pending[0].mode == ConcurrencyMode::Mix
            && self.active.len() < self.maximum_active_items)
    }

    /// The FIFO without its head.
    pub open spec fn head_taken(self) -> Self {
        ActorModel { pending: self.pending.skip(1), ..self }
    }

    /// Starting from the head of the FIFO led to `after` by these backend
    /// calls: each item that may start is started in order, a failed item is
    /// skipped, and the first started item that does not mix ends the round.
    pub open spec fn advanced(self, calls: Seq<BackendCall<S>>, after: Self) -> bool
        decreases calls.len(),
    {
        if !self.head_may_start() {
            calls.len() == 0 && after == self
        } else if calls.len() == 0 {
            false
        } else {
            match calls[0] {
                BackendCall::Start(job, reply) => {
                    let next = self.head_taken().start_replied(job.id, reply, true);
                    &&& job == self.pending[0].job
                    &&& if reply is Ok && self.pending[0].mode != ConcurrencyMode::Mix {
                        calls.len() == 1 && after == next
                    } else {
                        next.advanced(calls.skip(1), after)
                    }
                },
                _ => false,
            }
        }
    }

    /// After stops were asked for: an item whose stop was confirmed is
    /// interrupted, another keeps playing.
    pub open spec fn stops_replied(self, ids: Seq<PlaybackId>, calls: Seq<BackendCall<S>>) -> Self
        decreases ids.len(),
    {
        if ids.len() == 0 || calls.len() == 0 {
            self
        } else {
            let before = self.stops_replied(ids.drop_last(), calls.drop_last());
            match calls.last().reply() {
                Ok(()) => before.deactivate(ids.last()).record(
                    ids.last(),
                    PlaybackState::Interrupted,
                    None,
                ),
                Err(_) => before,
            }
        }
    }

    /// Each item is interrupted, in order.
    pub open spec fn interrupted(self, ids: Seq<PlaybackId>) -> Self
        decreases ids.len(),
    {
        if ids.len() == 0 {
            self
        } else {
            self.interrupted(ids.drop_last()).record(ids.last(), PlaybackState::Interrupted, None)
        }
    }

    /// Each item stops playing and is interrupted, whatever the backend said.
    pub open spec fn released(self, ids: Seq<PlaybackId>) -> Self
        decreases ids.len(),
    {
        if ids.len() == 0 {
            self
        } else {
            self.released(ids.drop_last()).deactivate(ids.last()).record(
                ids.last(),
                PlaybackState::Interrupted,
                None,
            )
        }
    }

    /// The FIFO is emptied and its items are interrupted.
    pub open spec fn queue_discarded(self) -> Self {
        ActorModel { pending: Seq::empty(), ..self }.interrupted(pending_ids(self.pending))
    }

    pub open spec fn marked_unhealthy(self) -> Self {
        ActorModel { unhealthy: true, ..self }
    }

    /// Whether a new item has to wait in the FIFO.
    pub open spec fn must_wait(self, mode: ConcurrencyMode) -> bool {
        match mode {
            ConcurrencyMode::Enqueue => self.active.len() > 0,
            ConcurrencyMode::Interrupt => false,
            ConcurrencyMode::Mix => self.active.len() >= self.maximum_active_items
                || self.pending.len() > 0,
        }
    }

    /// What submitting an item does and answers, given the backend's replies.
    pub open spec fn submitted(
        self,
        job: PlaybackJob<S>,
        mode: ConcurrencyMode,
        calls: Seq<BackendCall<S>>,
        result: Result<Acceptance, PlaybackError>,
        after: Self,
    ) -> bool {
        let accepted = Ok::<Acceptance, PlaybackError>(Acceptance { playback_id: job.id });
        if self.unhealthy {
            &&& calls.len() == 0
            &&& after == self
            &&& result matches Err(error) && error.is_backend(
                "playback backend is unhealthy after a failed stop"@,
            )
        } else if self.must_wait(mode) {
            &&& calls.len() == 0
            &&& if self.pending.len() >= self.maximum_queue_items {
                result == Err::<Acceptance, PlaybackError>(PlaybackError::QueueFull) && after
                    == self
            } else {
                result == accepted && after == self.queued(Pending { job, mode })
            }
        } else if mode == ConcurrencyMode::Interrupt && self.active.len() > 0 {
            let count = self.active.len() as int;
            let stopping = calls.take(count);
            let stopped = self.stops_replied(self.active, stopping);
            &&& calls.len() >= count
            &&& stops(self.active, stopping)
            &&& match first_error(stopping) {
                Some(error) => {
                    &&& calls.len() == count
                    &&& result == Err::<Acceptance, PlaybackError>(error)
                    &&& after == stopped.marked_unhealthy()
                },
                None => {
                    &&& calls.len() > count
                    &&& calls[count] matches BackendCall::Start(started, reply) && started == job
                        && match reply {
                        Ok(()) => {
                            &&& calls.len() == count + 1
                            &&& result == accepted
                            &&& after == stopped.start_replied(job.id, reply, false)
                        },
                        Err(error) => {
                            &&& result == Err::<Acceptance, PlaybackError>(error)
                            &&& stopped.advanced(calls.skip(count + 1), after)
                        },
                    }
                },
            }
        } else {
            &&& calls.len() == 1
            &&& calls[0] matches BackendCall::Start(started, reply) && started == job && after
                == self.start_replied(job.id, reply, false) && result == match reply {
                Ok(()) => accepted,
                Err(error) => Err::<Acceptance, PlaybackError>(error),
            }
        }
    }

    /// What cancelling an item does and answers, given the backend's replies.
    pub open spec fn cancelled(
        self,
        id: PlaybackId,
        calls: Seq<BackendCall<S>>,
        result: Result<Option<Cancellation>, PlaybackError>,
        after: Self,
    ) -> bool {
        let interrupted = Cancellation {
            playback_id: id,
            state: PlaybackState::Interrupted,
            cancelled: true,
        };
        if self.active.contains(id) {
            &&& calls.len() >= 1
            &&& calls[0] matches BackendCall::Stop(stopped, reply) && stopped == id && match reply {
                Err(error) => {
                    &&& calls.len() == 1
                    &&& result == Err::<Option<Cancellation>, PlaybackError>(error)
                    &&& after == self.marked_unhealthy()
                },
                Ok(()) => {
                    let next = self.deactivate(id).record(id, PlaybackState::Interrupted, None);
                    &&& result == Ok::<Option<Cancellation>, PlaybackError>(Some(interrupted))
                    &&& if self.unhealthy {
                        calls.len() == 1 && after == next
                    } else {
                        next.advanced(calls.skip(1), after)
                    }
                },
            }
        } else {
            &&& calls.len() == 0
            &&& match pending_ids(self.pending).index_of_first(id) {
                Some(position) => {
                    &&& result == Ok::<Option<Cancellation>, PlaybackError>(Some(interrupted))
                    &&& after == ActorModel {
                        pending: self.pending.remove(position),
                        ..self
                    }.record(id, PlaybackState::Interrupted, None)
                },
                None => {
                    &&& after == self
                    &&& if !self.statuses.contains_key(id) {
                        result == Ok::<Option<Cancellation>, PlaybackError>(None)
                    } else if self.statuses[id].ended() {
                        result == Ok::<Option<Cancellation>, PlaybackError>(
                            Some(
                                Cancellation {
                                    playback_id: id,
                                    state: self.statuses[id],
                                    cancelled: false,
                                },
                            ),
                        )
                    } else {
                        result matches Err(error) && error.is_backend(
                            "playback status is inconsistent with actor state"@,
                        )
                    }
                },
            }
        }
    }

    /// What an emergency stop does and answers, given the backend's replies.
    pub open spec fn emergency_stopped(
        self,
        calls: Seq<BackendCall<S>>,
        result: Result<EmergencyStop, PlaybackError>,
        after: Self,
    ) -> bool {
        let stopped = self.queue_discarded().stops_replied(self.active, calls);
        &&& stops(self.active, calls)
        &&& match first_error(calls) {
            Some(error) => {
                &&& result == Err::<EmergencyStop, PlaybackError>(error)
                &&& after == stopped.marked_unhealthy()
            },
            None => {
                &&& result matches Ok(stop) && stop.interrupted_items == items_stopped(
                    self.pending.len() + self.active.len(),
                )
                &&& after == stopped
            },
        }
    }

    /// What a backend completion does, given the backend's replies.
    pub open spec fn finished(
        self,
        id: PlaybackId,
        error: Option<Seq<char>>,
        calls: Seq<BackendCall<S>>,
        after: Self,
    ) -> bool {
        if !self.active.contains(id) {
            calls.len() == 0 && after == self
        } else {
            let state = match error {
                None => PlaybackState::Completed,
                Some(_) => PlaybackState::Failed,
            };
            let next = self.deactivate(id).record(id, state, error);
            &&& calls.len() >= 1
            &&& calls[0] == BackendCall::<S>::Finished(id)
            &&& if self.unhealthy {
                calls.len() == 1 && after == next
            } else {
                next.advanced(calls.skip(1), after)
            }
        }
    }

    /// What shutting down does and answers, given the backend's replies.
    pub open spec fn shut_down(
        self,
        calls: Seq<BackendCall<S>>,
        result: Result<(), PlaybackError>,
        after: Self,
    ) -> bool {
        &&& calls.len() == self.active.len() + 1
        &&& stops(self.active, calls.drop_last())
        &&& calls.last() is Shutdown
        &&& after == self.queue_discarded().released(self.active)
        &&& result == match first_error(calls) {
            Some(error) => Err::<(), PlaybackError>(error),
            None => Ok(()),
        }
    }

    /// The status that an item has, if it has one.
    pub open spec fn status_of(self, id: PlaybackId) -> Option<PlaybackStatus> {
        if self.statuses.contains_key(id) {
            Some(PlaybackStatus { playback_id: id, state: self.statuses[id] })
        } else {
            None
        }
    }

    /// Every status, the item accepted last first.
    pub open spec fn newest_first(self) -> Seq<PlaybackStatus> {
        Seq::new(
            self.order.len(),
            |i: int|
                {
                    let id = self.order[self.order.len() - 1 - i];
                    PlaybackStatus { playback_id: id, state: self.statuses[id] }
                },
        )
    }

    /// The limits that every operation keeps.
    pub open spec fn bounded(self) -> bool {
        &&& 0 < self.maximum_active_items
        &&& self.active.no_duplicates()
        &&& self.active.len() <= self.maximum_active_items
        &&& self.pending.len() <= self.maximum_queue_items
        &&& self.terminal.len() <= PLAYBACK_STATUS_RETENTION_ITEMS
        &&& self.order.no_duplicates()
        &&& forall|id: PlaybackId| self.order.contains(id) <==> self.statuses.contains_key(id)
    }
}

/// Leaving one value out keeps the others, and no value twice.
pub proof fn lemma_without(ids: Seq<PlaybackId>, id: PlaybackId)
    ensures
        forall|x: PlaybackId|
            #[trigger] without(ids, id).contains(x) <==> ids.contains(x) && x != id,
        ids.no_duplicates() ==> without(ids, id).no_duplicates(),
        without(ids, id).len() <= ids.len(),
        ids.contains(id) ==> without(ids, id).len() < ids.len(),
        !ids.contains(id) ==> without(ids, id) == ids,
        ids.no_duplicates() && ids.contains(id) ==> without(ids, id).len() == ids.len() - 1,
    decreases ids.len(),
{
    reveal(Seq::filter);
    if ids.len() > 0 {
        let rest = ids.drop_last();
        let last = ids.last();
        lemma_without(rest, id);
        assert(ids =~= rest.push(last));
        assert forall|x: PlaybackId| ids.contains(x) <==> rest.contains(x) || x == last by {
            if rest.contains(x) {
                let i = choose|i: int| 0 <= i < rest.len() && rest[i] == x;
                assert(ids[i] == x);
            }
            if ids.contains(x) {
                let i = choose|i: int| 0 <= i < ids.len() && ids[i] == x;
                if i < rest.len() {
                    assert(rest[i] == x);
                }
            }
            assert(ids[ids.len() - 1] == last);
        }
        let kept = without(rest, id);
        if last != id {
            assert(without(ids, id) =~= kept.push(last));
            assert forall|x: PlaybackId|
                without(ids, id).contains(x) <==> ids.contains(x) && x != id by {
                if kept.contains(x) {
                    let i = choose|i: int| 0 <= i < kept.len() && kept[i] == x;
                    assert(kept.push(last)[i] == x);
                }
                assert(kept.push(last)[kept.len() as int] == last);
                if kept.push(last).contains(x) && x != last {
                    let i = choose|i: int| 0 <= i < kept.push(last).len() && kept.push(last)[i] == x;
                    assert(kept[i] == x);
                }
            }
            if ids.no_duplicates() {
                assert(rest.no_duplicates());
                assert(!rest.contains(last));
                assert(!kept.contains(last));
                assert(kept.push(last).no_duplicates());
            }
        } else {
            assert(without(ids, id) =~= kept);
            if ids.no_duplicates() {
                assert(rest.no_duplicates());
                assert(!rest.contains(last));
            }
        }
    }
}

/// Recording a state keeps the limits.
pub proof fn lemma_record_keeps_bounds<S>(
    before: ActorModel<S>,
    id: PlaybackId,
    state: PlaybackState,
    error: Option<Seq<char>>,
)
    requires
        before.bounded(),
    ensures
        before.record(id, state, error).bounded(),
        before.record(id, state, error).active == before.active,
        before.record(id, state, error).pending == before.pending,
        before.record(id, state, error).unhealthy == before.unhealthy,
{
    let order = if before.statuses.contains_key(id) {
        before.order
    } else {
        before.order.push(id)
    };
    let statuses = before.statuses.insert(id, state);
    assert forall|x: PlaybackId| order.contains(x) <==> statuses.contains_key(x) by {
        if before.order.contains(x) {
            let i = choose|i: int| 0 <= i < before.order.len() && before.order[i] == x;
            assert(order[i] == x);
        }
        if !before.statuses.contains_key(id) {
            assert(order[order.len() - 1] == id);
        }
        if order.contains(x) {
            let i = choose|i: int| 0 <= i < order.len() && order[i] == x;
            if i < before.order.len() {
                assert(before.order[i] == x);
            }
        }
    }
    assert(order.no_duplicates()) by {
        if !before.statuses.contains_key(id) {
            assert(!before.order.contains(id));
        }
    }
    let ends = state.ended() && !(before.statuses.contains_key(id) && before.statuses[id].ended());
    if ends {
        let terminal = before.terminal.push(id);
        lemma_without(order, terminal[0]);
    }
}

/// The single owner of playback order and of the backend.
pub struct Actor<S, B> {
    backend: RecordedBackend<S, B>,
    maximum_queue_items: usize,
    maximum_active_items: usize,
    active: Vec<PlaybackId>,
    pending: VecDeque<Pending<S>>,
    statuses: HashMap<PlaybackId, PlaybackState>,
    terminal_statuses: VecDeque<PlaybackId>,
    status_order: VecDeque<PlaybackId>,
    unhealthy: bool,
    events: Vec<LifecycleEvent>,
}

/// What a list of lifecycle records says.
pub open spec fn event_models(events: Seq<LifecycleEvent>) -> Seq<EventModel> {
    events.map_values(|event: LifecycleEvent| event@)
}

/// The items of a sequence other than `id`.
fn filtered(ids: &VecDeque<PlaybackId>, id: PlaybackId) -> (kept: VecDeque<PlaybackId>)
    ensures
        kept@ == without(ids@, id),
{
    let mut kept: VecDeque<PlaybackId> = VecDeque::new();
    let mut i: usize = 0;
    while i < ids.len()
        invariant
            i <= ids@.len(),
            kept@ == without(ids@.take(i as int), id),
        decreases ids@.len() - i,
    {
        proof {
            reveal(Seq::filter);
            assert(ids@.take(i + 1).drop_last() =~= ids@.take(i as int));
        }
        let other: PlaybackId = ids[i];
        if other != id {
            kept.push_back(other);
        }
        i += 1;
    }
    assert(ids@.take(i as int) =~= ids@);
    kept
}

impl<S, B: PlaybackBackend<S>> Actor<S, B> {
    /// An idle actor for a backend. A capacity of no stream at all is refused.
    pub fn new(backend: B, maximum_queue_items: usize, maximum_active_items: usize) -> (actor:
        Result<Self, PlaybackError>)
        ensures
            match actor {
                Ok(actor) => {
                    &&& maximum_active_items > 0
                    &&& actor.well_formed()
                    &&& actor.calls().len() == 0
                    &&& actor.backend_view() == backend
                    &&& actor.model() == ActorModel::<S>::idle(
                        maximum_queue_items as nat,
                        maximum_active_items as nat,
                    )
                },
                Err(error) => {
                    &&& maximum_active_items == 0
                    &&& error.is_backend("playback active-stream capacity must be positive"@)
                },
            },
    {
        if maximum_active_items == 0 {
            return Err(
                PlaybackError::Backend(
                    "playback active-stream capacity must be positive".to_string(),
                ),
            );
        }
        let actor = Actor {
            backend: RecordedBackend::new(backend),
            maximum_queue_items,
            maximum_active_items,
            active: Vec::new(),
            pending: VecDeque::new(),
            statuses: HashMap::new(),
            terminal_statuses: VecDeque::new(),
            status_order: VecDeque::new(),
            unhealthy: false,
            events: Vec::new(),
        };
        assert(event_models(actor.events@) =~= Seq::empty());
        assert(actor.model() =~= ActorModel::<S>::idle(
            maximum_queue_items as nat,
            maximum_active_items as nat,
        ));
        Ok(actor)
    }

    pub closed spec fn model(&self) -> ActorModel<S> {
        ActorModel {
            maximum_queue_items: self.maximum_queue_items as nat,
            maximum_active_items: self.maximum_active_items as nat,
            active: self.active@,
            pending: self.pending@,
            statuses: self.statuses@,
            terminal: self.terminal_statuses@,
            order: self.status_order@,
            unhealthy: self.unhealthy,
            events: event_models(self.events@),
        }
    }

    /// The calls made on the backend so far.
    pub closed spec fn calls(&self) -> Seq<BackendCall<S>> {
        self.backend.calls()
    }

    /// The backend before each of these calls, and as it is now.
    pub closed spec fn states(&self) -> Seq<B> {
        self.backend.states()
    }

    /// The backend as it is now.
    pub open spec fn backend_view(&self) -> B {
        self.states().last()
    }

    pub open spec fn well_formed(&self) -> bool {
        &&& self.model().bounded()
        &&& self.states().len() == self.calls().len() + 1
    }

    /// The calls made between `before` and now.
    pub open spec fn calls_since(&self, before: &Self) -> Seq<BackendCall<S>> {
        self.calls().skip(before.calls().len() as int)
    }

    /// The call at `i` was made between `before` and now.
    pub open spec fn called_since(&self, before: &Self, i: int) -> bool {
        before.calls().len() <= i < self.calls().len()
    }

    /// Nothing that was called is forgotten, and the backend changed by calls alone.
    pub open spec fn extends(&self, before: &Self) -> bool {
        &&& before.calls().is_prefix_of(self.calls())
        &&& before.states().is_prefix_of(self.states())
        &&& self.states().len() - self.calls().len() == before.states().len()
            - before.calls().len()
    }

    /// The first call after `before` was made on the backend as it was.
    proof fn lemma_one_call(before: &Self, call: BackendCall<S>, after: &Self)
        requires
            before.well_formed(),
            after.calls() == before.calls().push(call),
            after.states().drop_last() == before.states(),
            exists|backend: &mut B|
                *backend == before.backend_view() && *final(backend) == after.backend_view()
                    && #[trigger] made_on(backend, call),
        ensures
            after.extends(before),
            forall|i: int| #[trigger]
                after.called_since(before, i) ==> exists|backend: &mut B|
                    *backend == after.states()[i] && *final(backend) == after.states()[i + 1]
                        && #[trigger] made_on(backend, after.calls()[i]),
    {
        let count = before.calls().len() as int;
        assert(before.calls() =~= after.calls().take(count));
        assert(before.states() =~= after.states().take(count + 1));
        assert forall|i: int| #[trigger] after.called_since(before, i) implies exists|
            backend: &mut B,
        |
            *backend == after.states()[i] && *final(backend) == after.states()[i + 1]
                && #[trigger] made_on(backend, after.calls()[i]) by {
            assert(i == count);
            assert(after.states()[i] == before.states().last());
            assert(after.states()[i + 1] == after.states().last());
            assert(after.calls()[i] == call);
        }
    }

    /// Calls in two stretches are calls in one.
    proof fn lemma_calls_joined(before: &Self, between: &Self, after: &Self)
        requires
            before.well_formed(),
            between.extends(before),
            after.extends(between),
            forall|i: int| #[trigger]
                between.called_since(before, i) ==> exists|backend: &mut B|
                    *backend == between.states()[i] && *final(backend) == between.states()[i + 1]
                        && #[trigger] made_on(backend, between.calls()[i]),
            forall|i: int| #[trigger]
                after.called_since(between, i) ==> exists|backend: &mut B|
                    *backend == after.states()[i] && *final(backend) == after.states()[i + 1]
                        && #[trigger] made_on(backend, after.calls()[i]),
        ensures
            after.extends(before),
            forall|i: int| #[trigger]
                after.called_since(before, i) ==> exists|backend: &mut B|
                    *backend == after.states()[i] && *final(backend) == after.states()[i + 1]
                        && #[trigger] made_on(backend, after.calls()[i]),
    {
        let count = before.calls().len() as int;
        assert(before.calls() =~= after.calls().take(count));
        assert(before.states() =~= after.states().take(count + 1));
        assert forall|i: int| #[trigger] after.called_since(before, i) implies exists|
            backend: &mut B,
        |
            *backend == after.states()[i] && *final(backend) == after.states()[i + 1]
                && #[trigger] made_on(backend, after.calls()[i]) by {
            if i < between.calls().len() {
                assert(between.called_since(before, i));
                assert(after.calls()[i] == between.calls()[i]);
                assert(after.states()[i] == between.states()[i]);
                assert(after.states()[i + 1] == between.states()[i + 1]);
            } else {
                assert(after.called_since(between, i));
            }
        }
    }

    /// Recorded stops of some items are stops of these items on the backend.
    proof fn lemma_stops_made(before: &Self, after: &Self, ids: Seq<PlaybackId>)
        requires
            after.extends(before),
            ids.len() <= after.calls_since(before).len(),
            stops(ids, after.calls_since(before).take(ids.len() as int)),
            forall|i: int| #[trigger]
                after.called_since(before, i) ==> exists|backend: &mut B|
                    *backend == after.states()[i] && *final(backend) == after.states()[i + 1]
                        && #[trigger] made_on(backend, after.calls()[i]),
        ensures
            forall|id: PlaybackId| #[trigger]
                ids.contains(id) ==> exists|backend: &mut B, reply: Result<(), PlaybackError>|
                    #[trigger] call_ensures(B::stop, (backend, id), reply) && after.calls_since(
                        before,
                    ).contains(BackendCall::<S>::Stop(id, reply)),
    {
        let made = after.calls_since(before);
        let count = before.calls().len() as int;
        assert forall|id: PlaybackId| #[trigger] ids.contains(id) implies exists|
            backend: &mut B,
            reply: Result<(), PlaybackError>,
        |
            #[trigger] call_ensures(B::stop, (backend, id), reply) && made.contains(
                BackendCall::<S>::Stop(id, reply),
            ) by {
            let i = choose|i: int| 0 <= i < ids.len() && ids[i] == id;
            assert(after.called_since(before, count + i));
            assert(after.calls()[count + i] == made[i]);
            assert(made.take(ids.len() as int)[i] is Stop);
            assert(made[i] == BackendCall::<S>::Stop(id, made[i].reply()));
            assert(forall|backend: &mut B| #[trigger]
                made_on(backend, made[i]) ==> call_ensures(
                    B::stop,
                    (backend, id),
                    made[i].reply(),
                ));
        }
    }

    fn emit(&mut self, playback_id: PlaybackId, state: PlaybackState, error: Option<String>)
        requires
            old(self).model().terminal.len() <= PLAYBACK_STATUS_RETENTION_ITEMS,
        ensures
            final(self).model() == old(self).model().record(
                playback_id,
                state,
                optional_text(error),
            ),
            final(self).backend == old(self).backend,
    {
        let ghost event = EventModel { playback_id, state, error: optional_text(error) };
        let previous: Option<PlaybackState> = match self.statuses.get(&playback_id) {
            Some(state) => Some(*state),
            None => None,
        };
        if previous.is_none() {
            self.status_order.push_back(playback_id);
        }
        let was_terminal = match previous {
            Some(state) => state.is_terminal(),
            None => false,
        };
        self.statuses.insert(playback_id, state);
        if state.is_terminal() && !was_terminal {
            self.terminal_statuses.push_back(playback_id);
            if self.terminal_statuses.len() > PLAYBACK_STATUS_RETENTION_ITEMS {
                let ghost terminal = self.terminal_statuses@;
                if let Some(expired) = self.terminal_statuses.pop_front() {
                    self.statuses.remove(&expired);
                    self.status_order = filtered(&self.status_order, expired);
                    assert(self.terminal_statuses@ =~= terminal.skip(1));
                }
            }
        }
        self.events.push(LifecycleEvent { playback_id, state, error });
        assert(event_models(self.events@) =~= event_models(old(self).events@).push(event));
        assert(self.model() =~= old(self).model().record(playback_id, state, event.error));
    }

    fn is_active(&self, playback_id: PlaybackId) -> (found: bool)
        ensures
            found == self.model().active.contains(playback_id),
    {
        let mut i: usize = 0;
        while i < self.active.len()
            invariant
                i <= self.active.len(),
                forall|j: int| 0 <= j < i ==> self.active@[j] != playback_id,
            decreases self.active.len() - i,
        {
            if self.active[i] == playback_id {
                return true;
            }
            i += 1;
        }
        false
    }

    fn add_active(&mut self, playback_id: PlaybackId)
        ensures
            final(self).model() == old(self).model().activate(playback_id),
            final(self).backend == old(self).backend,
    {
        if !self.is_active(playback_id) {
            self.active.push(playback_id);
        }
    }

    fn remove_active(&mut self, playback_id: PlaybackId)
        ensures
            final(self).model() == old(self).model().deactivate(playback_id),
            final(self).backend == old(self).backend,
    {
        let mut kept: Vec<PlaybackId> = Vec::new();
        let mut i: usize = 0;
        while i < self.active.len()
            invariant
                i <= self.active.len(),
                self == old(self),
                kept@ == without(self.active@.take(i as int), playback_id),
            decreases self.active.len() - i,
        {
            proof {
                reveal(Seq::filter);
                assert(self.active@.take(i + 1).drop_last() =~= self.active@.take(i as int));
            }
            let other: PlaybackId = self.active[i];
            if other != playback_id {
                kept.push(other);
            }
            i += 1;
        }
        assert(self.active@.take(i as int) =~= self.active@);
        self.active = kept;
    }

    fn start_now(&mut self, job: PlaybackJob<S>, previously_accepted: bool) -> (result: Result<
        Acceptance,
        PlaybackError,
    >)
        requires
            old(self).well_formed(),
            old(self).model().active.len() < old(self).model().maximum_active_items,
        ensures
            final(self).well_formed(),
            final(self).extends(old(self)),
            forall|i: int| #[trigger]
                final(self).called_since(old(self), i) ==> exists|backend: &mut B|
                    *backend == final(self).states()[i] && *final(backend)
                        == final(self).states()[i + 1] && #[trigger] made_on(
                        backend,
                        final(self).calls()[i],
                    ),
            final(self).calls().len() == old(self).calls().len() + 1,
            final(self).calls().drop_last() == old(self).calls(),
            final(self).calls().last() matches BackendCall::Start(started, reply) && started == job
                && final(self).model() == old(self).model().start_replied(
                job.id,
                reply,
                previously_accepted,
            ) && result == match reply {
                Ok(()) => Ok::<Acceptance, PlaybackError>(Acceptance { playback_id: job.id }),
                Err(error) => Err::<Acceptance, PlaybackError>(error),
            },
    {
        let playback_id: PlaybackId = job.id;
        let ghost before = self.model();
        let ghost idle = *self;
        let ghost asked = job;
        let reply = self.backend.start(job);
        let ghost called = *self;
        proof {
            Self::lemma_one_call(&idle, BackendCall::Start(asked, reply), self);
        }
        match reply {
            Ok(()) => {
                assert(self.model() =~= before);
                self.add_active(playback_id);
                proof {
                    let playing = before.activate(playback_id);
                    assert(playing.bounded());
                    lemma_record_keeps_bounds(playing, playback_id, PlaybackState::Accepted, None);
                    lemma_record_keeps_bounds(playing, playback_id, PlaybackState::Playing, None);
                    lemma_record_keeps_bounds(
                        playing.record(playback_id, PlaybackState::Accepted, None),
                        playback_id,
                        PlaybackState::Playing,
                        None,
                    );
                }
                if !previously_accepted {
                    self.emit(playback_id, PlaybackState::Accepted, None);
                }
                self.emit(playback_id, PlaybackState::Playing, None);
                proof {
                    Self::lemma_calls_joined(&idle, &called, self);
                }
                Ok(Acceptance { playback_id })
            },
            Err(error) => {
                assert(self.model() =~= before);
                if previously_accepted {
                    proof {
                        lemma_record_keeps_bounds(
                            before,
                            playback_id,
                            PlaybackState::Failed,
                            Some(error.message_text()),
                        );
                    }
                    self.emit(playback_id, PlaybackState::Failed, Some(error.message()));
                    proof {
                        Self::lemma_calls_joined(&idle, &called, self);
                    }
                }
                Err(error)
            },
        }
    }

    fn advance_queue(&mut self)
        requires
            old(self).well_formed(),
        ensures
            final(self).well_formed(),
            final(self).extends(old(self)),
            forall|i: int| #[trigger]
                final(self).called_since(old(self), i) ==> exists|backend: &mut B|
                    *backend == final(self).states()[i] && *final(backend)
                        == final(self).states()[i + 1] && #[trigger] made_on(
                        backend,
                        final(self).calls()[i],
                    ),
            old(self).model().advanced(final(self).calls_since(old(self)), final(self).model()),
        decreases old(self).model().pending.len(),
    {
        let ghost before = *self;
        let can_start = self.pending.len() > 0 && (self.active.len() == 0 || (self.pending[0].mode
            == ConcurrencyMode::Mix && self.active.len() < self.maximum_active_items));
        if can_start {
            if let Some(next) = self.pending.pop_front() {
                let mode = next.mode;
                assert(self.model() =~= before.model().head_taken());
                let ghost taken = *self;
                let started = self.start_now(next.job, true).is_ok();
                let ghost between = *self;
                let ghost call = self.calls().last();
                assert(between.calls() =~= before.calls().push(call));
                proof {
                    Self::lemma_calls_joined(&before, &taken, self);
                }
                if !started || mode == ConcurrencyMode::Mix {
                    self.advance_queue();
                    proof {
                        Self::lemma_calls_joined(&before, &between, self);
                    }
                    assert(self.calls_since(&before).skip(1) =~= self.calls_since(&between));
                    assert(before.calls() =~= between.calls().take(before.calls().len() as int));
                }
                assert(self.calls_since(&before)[0] == call);
            }
        }
        assert(self.calls_since(&before).len() == self.calls().len() - before.calls().len());
    }

    /// Ask the backend to stop every active item, in order.
    fn stop_active(&mut self) -> (error: Option<PlaybackError>)
        requires
            old(self).well_formed(),
        ensures
            final(self).well_formed(),
            final(self).extends(old(self)),
            forall|i: int| #[trigger]
                final(self).called_since(old(self), i) ==> exists|backend: &mut B|
                    *backend == final(self).states()[i] && *final(backend)
                        == final(self).states()[i + 1] && #[trigger] made_on(
                        backend,
                        final(self).calls()[i],
                    ),
            stops(old(self).model().active, final(self).calls_since(old(self))),
            final(self).model() == old(self).model().stops_replied(
                old(self).model().active,
                final(self).calls_since(old(self)),
            ),
            error == first_error(final(self).calls_since(old(self))),
            error is None ==> final(self).model().active.len() == 0,
            final(self).model().active.len() <= old(self).model().active.len(),
            final(self).model().unhealthy == old(self).model().unhealthy,
    {
        let ghost before = *self;
        let ids = self.active.clone();
        let mut first: Option<PlaybackError> = None;
        let mut i: usize = 0;
        assert(ids@.skip(0) =~= ids@);
        while i < ids.len()
            invariant
                i <= ids.len(),
                ids@ == before.model().active,
                self.well_formed(),
                before.well_formed(),
                self.extends(&before),
                forall|i: int| #[trigger]
                    self.called_since(&before, i) ==> exists|backend: &mut B|
                        *backend == self.states()[i] && *final(backend) == self.states()[i + 1]
                            && #[trigger] made_on(backend, self.calls()[i]),
                stops(ids@.take(i as int), self.calls_since(&before)),
                self.model() == before.model().stops_replied(
                    ids@.take(i as int),
                    self.calls_since(&before),
                ),
                first == first_error(self.calls_since(&before)),
                first is None ==> forall|x: PlaybackId| #[trigger]
                    self.model().active.contains(x) ==> ids@.skip(i as int).contains(x),
                self.model().active.len() <= before.model().active.len(),
                self.model().unhealthy == before.model().unhealthy,
            decreases ids.len() - i,
        {
            let playback_id: PlaybackId = ids[i];
            let ghost earlier = *self;
            let ghost made = self.calls_since(&before);
            let reply = self.backend.stop(playback_id);
            assert(self.model() =~= earlier.model());
            let ghost call = BackendCall::<S>::Stop(playback_id, reply);
            assert(self.calls() == earlier.calls().push(call));
            proof {
                Self::lemma_one_call(&earlier, call, self);
                Self::lemma_calls_joined(&before, &earlier, self);
            }
            assert(self.calls_since(&before) =~= made.push(call));
            assert(made.push(call).drop_last() =~= made);
            assert(ids@.take(i + 1).drop_last() =~= ids@.take(i as int));
            assert(before.calls() =~= self.calls().take(before.calls().len() as int));
            let ghost stopped = *self;
            match reply {
                Err(error) => {
                    if first.is_none() {
                        first = Some(error);
                    }
                },
                Ok(()) => {
                    proof {
                        lemma_without(self.active@, playback_id);
                        lemma_record_keeps_bounds(
                            self.model().deactivate(playback_id),
                            playback_id,
                            PlaybackState::Interrupted,
                            None,
                        );
                    }
                    self.remove_active(playback_id);
                    self.emit(playback_id, PlaybackState::Interrupted, None);
                    assert(self.calls() == stopped.calls());
                    proof {
                        Self::lemma_calls_joined(&before, &stopped, self);
                    }
                },
            }
            proof {
                let rest = ids@.skip(i as int);
                assert(ids@.skip(i + 1) =~= rest.skip(1));
                assert forall|x: PlaybackId|
                    rest.contains(x) && x != playback_id implies rest.skip(1).contains(x) by {
                    let j = choose|j: int| 0 <= j < rest.len() && rest[j] == x;
                    assert(rest.skip(1)[j - 1] == x);
                }
                assert forall|j: int| 0 <= j < i + 1 implies (#[trigger] made.push(
                    call,
                )[j] matches BackendCall::Stop(id, _) && id == ids@.take(i + 1)[j]) by {
                    if j < i {
                        assert(made[j] is Stop);
                    }
                }
            }
            i += 1;
        }
        proof {
            assert(ids@.take(i as int) =~= ids@);
            if first is None && self.active@.len() > 0 {
                assert(self.model().active.contains(self.active@[0]));
                assert(ids@.skip(i as int).len() == 0);
            }
        }
        first
    }

    /// Submit a validated job.
    pub fn submit(&mut self, job: PlaybackJob<S>, mode: ConcurrencyMode) -> (result: Result<
        Acceptance,
        PlaybackError,
    >)
        requires
            old(self).well_formed(),
        ensures
            final(self).well_formed(),
            final(self).extends(old(self)),
            forall|i: int| #[trigger]
                final(self).called_since(old(self), i) ==> exists|backend: &mut B|
                    *backend == final(self).states()[i] && *final(backend)
                        == final(self).states()[i + 1] && #[trigger] made_on(
                        backend,
                        final(self).calls()[i],
                    ),
            final(self).calls_since(old(self)).len() == 0 ==> final(self).backend_view() == old(self).backend_view(),
            mode == ConcurrencyMode::Interrupt && !old(self).model().unhealthy ==> forall|id: PlaybackId| #[trigger]
                old(self).model().active.contains(id) ==> exists|
                    backend: &mut B,
                    reply: Result<(), PlaybackError>,
                |
                    #[trigger] call_ensures(B::stop, (backend, id), reply) && final(self).calls_since(old(self)).contains(BackendCall::<S>::Stop(id, reply)),
            old(self).model().submitted(
                job,
                mode,
                final(self).calls_since(old(self)),
                result,
                final(self).model(),
            ),
    {
        let ghost before = *self;
        let playback_id: PlaybackId = job.id;
        assert(self.calls_since(&before) =~= Seq::empty());
        if self.unhealthy {
            return Err(
                PlaybackError::Backend(
                    "playback backend is unhealthy after a failed stop".to_string(),
                ),
            );
        }
        let must_wait = match mode {
            ConcurrencyMode::Enqueue => self.active.len() > 0,
            ConcurrencyMode::Interrupt => false,
            ConcurrencyMode::Mix => self.active.len() >= self.maximum_active_items
                || self.pending.len() > 0,
        };
        if must_wait {
            if self.pending.len() >= self.maximum_queue_items {
                return Err(PlaybackError::QueueFull);
            }
            self.pending.push_back(Pending { job, mode });
            proof {
                let waiting = ActorModel {
                    pending: before.model().pending.push(Pending { job, mode }),
                    ..before.model()
                };
                assert(self.model() =~= waiting);
                lemma_record_keeps_bounds(waiting, playback_id, PlaybackState::Accepted, None);
            }
            self.emit(playback_id, PlaybackState::Accepted, None);
            assert(self.calls_since(&before) =~= Seq::empty());
            return Ok(Acceptance { playback_id });
        }
        if mode == ConcurrencyMode::Interrupt && self.active.len() > 0 {
            let stop_error = self.stop_active();
            let ghost stopped = *self;
            let ghost stopping = self.calls_since(&before);
            let ghost count = before.model().active.len() as int;
            assert(stopping.take(count) =~= stopping);
            if let Some(error) = stop_error {
                // Starting anything else could overlap output whose stop was
                // never confirmed. Keep the FIFO paused until restart.
                self.unhealthy = true;
                assert(self.calls_since(&before) =~= stopping);
                assert(self.model() =~= stopped.model().marked_unhealthy());
                proof {
                    Self::lemma_calls_joined(&before, &stopped, self);
                    Self::lemma_stops_made(&before, self, before.model().active);
                }
                return Err(error);
            }
            let result = self.start_now(job, false);
            let ghost attempted = *self;
            assert(attempted.calls() =~= stopped.calls().push(attempted.calls().last()));
            proof {
                Self::lemma_calls_joined(&before, &stopped, self);
            }
            if result.is_err() {
                self.advance_queue();
                proof {
                    Self::lemma_calls_joined(&before, &attempted, self);
                }
                assert(self.calls_since(&before).skip(count + 1) =~= self.calls_since(&attempted));
            }
            proof {
                let made = self.calls_since(&before);
                assert(attempted.calls().is_prefix_of(self.calls()));
                assert(self.calls()[stopped.calls().len() as int] == attempted.calls().last());
                assert(made[count] == attempted.calls().last());
                assert(before.calls() =~= stopped.calls().take(before.calls().len() as int));
                assert(made.take(count) =~= stopping);
                Self::lemma_stops_made(&before, self, before.model().active);
            }
            return result;
        }
        let result = self.start_now(job, false);
        assert(self.calls() =~= before.calls().push(self.calls().last()));
        assert(self.calls_since(&before) =~= seq![self.calls().last()]);
        result
    }

    /// Stop an active item or remove a queued item by accepted playback ID.
    pub fn cancel(&mut self, playback_id: PlaybackId) -> (result: Result<
        Option<Cancellation>,
        PlaybackError,
    >)
        requires
            old(self).well_formed(),
        ensures
            final(self).well_formed(),
            final(self).extends(old(self)),
            forall|i: int| #[trigger]
                final(self).called_since(old(self), i) ==> exists|backend: &mut B|
                    *backend == final(self).states()[i] && *final(backend)
                        == final(self).states()[i + 1] && #[trigger] made_on(
                        backend,
                        final(self).calls()[i],
                    ),
            final(self).calls_since(old(self)).len() == 0 ==> final(self).backend_view() == old(self).backend_view(),
            old(self).model().active.contains(playback_id) ==> exists|backend: &mut B|
                *backend == old(self).backend_view() && #[trigger] call_ensures(
                    B::stop,
                    (backend, playback_id),
                    final(self).calls_since(old(self))[0].reply(),
                ),
            old(self).model().cancelled(
                playback_id,
                final(self).calls_since(old(self)),
                result,
                final(self).model(),
            ),
    {
        let ghost before = *self;
        assert(self.calls_since(&before) =~= Seq::empty());
        if self.is_active(playback_id) {
            let reply = self.backend.stop(playback_id);
            assert(self.model() =~= before.model());
            let ghost call = BackendCall::<S>::Stop(playback_id, reply);
            assert(self.calls() == before.calls().push(call));
            assert(self.calls_since(&before) =~= seq![call]);
            proof {
                Self::lemma_one_call(&before, call, self);
                assert(forall|backend: &mut B| #[trigger]
                    made_on(backend, call) ==> call_ensures(
                        B::stop,
                        (backend, playback_id),
                        reply,
                    ));
            }
            let ghost called = *self;
            if let Err(error) = reply {
                self.unhealthy = true;
                assert(self.model() =~= before.model().marked_unhealthy());
                assert(self.calls_since(&before) =~= seq![call]);
                proof {
                    Self::lemma_calls_joined(&before, &called, self);
                }
                return Err(error);
            }
            proof {
                lemma_without(self.active@, playback_id);
                lemma_record_keeps_bounds(
                    self.model().deactivate(playback_id),
                    playback_id,
                    PlaybackState::Interrupted,
                    None,
                );
            }
            self.remove_active(playback_id);
            self.emit(playback_id, PlaybackState::Interrupted, None);
            let ghost stopped = *self;
            assert(stopped.calls() == before.calls().push(call));
            proof {
                Self::lemma_calls_joined(&before, &called, self);
            }
            if !self.unhealthy {
                self.advance_queue();
                proof {
                    Self::lemma_calls_joined(&before, &stopped, self);
                }
                assert(self.calls_since(&before).skip(1) =~= self.calls_since(&stopped));
            }
            proof {
                assert(stopped.calls().is_prefix_of(self.calls()));
                assert(stopped.calls()[before.calls().len() as int] == call);
                assert(self.calls()[before.calls().len() as int] == call);
                assert(self.calls_since(&before)[0] == call);
                assert(before.calls() =~= self.calls().take(before.calls().len() as int));
            }
            return Ok(
                Some(
                    Cancellation {
                        playback_id,
                        state: PlaybackState::Interrupted,
                        cancelled: true,
                    },
                ),
            );
        }
        let ghost ids = pending_ids(before.model().pending);
        proof {
            ids.index_of_first_ensures(playback_id);
        }
        let mut position: usize = 0;
        while position < self.pending.len()
            invariant
                position <= self.pending@.len(),
                *self == before,
                self.well_formed(),
                ids == pending_ids(self.pending@),
                forall|j: int| 0 <= j < position ==> ids[j] != playback_id,
            ensures
                position < self.pending@.len() ==> ids[position as int] == playback_id,
            decreases self.pending@.len() - position,
        {
            if self.pending[position].job.id == playback_id {
                break;
            }
            position += 1;
        }
        if position < self.pending.len() {
            assert(ids.contains(playback_id)) by {
                assert(ids[position as int] == playback_id);
            }
            self.pending.remove(position);
            proof {
                let removed = ActorModel {
                    pending: before.model().pending.remove(position as int),
                    ..before.model()
                };
                assert(self.model() =~= removed);
                lemma_record_keeps_bounds(removed, playback_id, PlaybackState::Interrupted, None);
            }
            self.emit(playback_id, PlaybackState::Interrupted, None);
            assert(self.calls_since(&before) =~= Seq::empty());
            return Ok(
                Some(
                    Cancellation {
                        playback_id,
                        state: PlaybackState::Interrupted,
                        cancelled: true,
                    },
                ),
            );
        }
        match self.statuses.get(&playback_id) {
            Some(state) => if state.is_terminal() {
                Ok(Some(Cancellation { playback_id, state: *state, cancelled: false }))
            } else {
                Err(
                    PlaybackError::Backend(
                        "playback status is inconsistent with actor state".to_string(),
                    ),
                )
            },
            None => Ok(None),
        }
    }

    /// Empty the FIFO and report its items as interrupted.
    fn discard_queue(&mut self) -> (count: usize)
        requires
            old(self).well_formed(),
        ensures
            final(self).well_formed(),
            final(self).calls() == old(self).calls(),
            final(self).states() == old(self).states(),
            final(self).model() == old(self).model().queue_discarded(),
            final(self).model().active == old(self).model().active,
            final(self).model().unhealthy == old(self).model().unhealthy,
            count == old(self).model().pending.len(),
    {
        let ghost before = *self;
        let mut queued: Vec<PlaybackId> = Vec::new();
        let mut i: usize = 0;
        while i < self.pending.len()
            invariant
                i <= self.pending@.len(),
                *self == before,
                queued@ == pending_ids(self.pending@.take(i as int)),
            decreases self.pending@.len() - i,
        {
            queued.push(self.pending[i].job.id);
            i += 1;
            assert(queued@ =~= pending_ids(self.pending@.take(i as int)));
        }
        assert(self.pending@.take(i as int) =~= self.pending@);
        self.pending.clear();
        let ghost emptied = ActorModel { pending: Seq::empty(), ..before.model() };
        assert(self.model() =~= emptied);
        let mut k: usize = 0;
        while k < queued.len()
            invariant
                k <= queued.len(),
                self.well_formed(),
                self.calls() == before.calls(),
                self.states() == before.states(),
                self.model() == emptied.interrupted(queued@.take(k as int)),
                self.model().active == before.model().active,
                self.model().unhealthy == before.model().unhealthy,
            decreases queued.len() - k,
        {
            proof {
                lemma_record_keeps_bounds(
                    self.model(),
                    queued@[k as int],
                    PlaybackState::Interrupted,
                    None,
                );
                assert(queued@.take(k + 1).drop_last() =~= queued@.take(k as int));
            }
            self.emit(queued[k], PlaybackState::Interrupted, None);
            k += 1;
        }
        assert(queued@.take(k as int) =~= queued@);
        queued.len()
    }

    /// Stop active playback and discard every queued item.
    pub fn emergency_stop(&mut self) -> (result: Result<EmergencyStop, PlaybackError>)
        requires
            old(self).well_formed(),
        ensures
            final(self).well_formed(),
            final(self).extends(old(self)),
            forall|i: int| #[trigger]
                final(self).called_since(old(self), i) ==> exists|backend: &mut B|
                    *backend == final(self).states()[i] && *final(backend)
                        == final(self).states()[i + 1] && #[trigger] made_on(
                        backend,
                        final(self).calls()[i],
                    ),
            final(self).calls_since(old(self)).len() == 0 ==> final(self).backend_view() == old(self).backend_view(),
            forall|id: PlaybackId| #[trigger]
                old(self).model().active.contains(id) ==> exists|
                    backend: &mut B,
                    reply: Result<(), PlaybackError>,
                |
                    #[trigger] call_ensures(B::stop, (backend, id), reply) && final(self).calls_since(old(self)).contains(BackendCall::<S>::Stop(id, reply)),
            old(self).model().emergency_stopped(
                final(self).calls_since(old(self)),
                result,
                final(self).model(),
            ),
    {
        let ghost before = *self;
        let queued: usize = self.discard_queue();
        let ghost discarded = *self;
        let active: usize = self.active.len();
        let first_error = self.stop_active();
        let ghost stopped = *self;
        assert(stopped.calls_since(&before) == stopped.calls_since(&discarded));
        proof {
            Self::lemma_calls_joined(&before, &discarded, self);
        }
        if let Some(error) = first_error {
            self.unhealthy = true;
            assert(self.model() =~= stopped.model().marked_unhealthy());
            assert(self.calls() == stopped.calls());
            proof {
                Self::lemma_calls_joined(&before, &stopped, self);
                assert(self.calls_since(&before).take(active as int) =~= self.calls_since(&before));
                Self::lemma_stops_made(&before, self, before.model().active);
            }
            return Err(error);
        }
        proof {
            assert(self.calls_since(&before).take(active as int) =~= self.calls_since(&before));
            Self::lemma_stops_made(&before, self, before.model().active);
        }
        Ok(EmergencyStop { interrupted_items: queued.saturating_add(active) })
    }

    /// Take note that the backend finished an item.
    pub fn finish(&mut self, playback_id: PlaybackId, completion: BackendCompletion)
        requires
            old(self).well_formed(),
        ensures
            final(self).well_formed(),
            final(self).extends(old(self)),
            forall|i: int| #[trigger]
                final(self).called_since(old(self), i) ==> exists|backend: &mut B|
                    *backend == final(self).states()[i] && *final(backend)
                        == final(self).states()[i + 1] && #[trigger] made_on(
                        backend,
                        final(self).calls()[i],
                    ),
            final(self).calls_since(old(self)).len() == 0 ==> final(self).backend_view() == old(self).backend_view(),
            old(self).model().finished(
                playback_id,
                completion.error_text(),
                final(self).calls_since(old(self)),
                final(self).model(),
            ),
    {
        let ghost before = *self;
        let ghost detail = completion.error_text();
        assert(self.calls_since(&before) =~= Seq::empty());
        if !self.is_active(playback_id) {
            // A completion that races with a confirmed interrupt belongs to the
            // old item and must not advance the replacement.
            return ;
        }
        proof {
            lemma_without(self.active@, playback_id);
            lemma_record_keeps_bounds(
                self.model().deactivate(playback_id),
                playback_id,
                PlaybackState::Completed,
                None,
            );
            lemma_record_keeps_bounds(
                self.model().deactivate(playback_id),
                playback_id,
                PlaybackState::Failed,
                detail,
            );
        }
        self.remove_active(playback_id);
        let ghost removed = *self;
        self.backend.finished(playback_id);
        assert(self.model() =~= removed.model());
        let ghost call = BackendCall::<S>::Finished(playback_id);
        proof {
            Self::lemma_one_call(&removed, call, self);
            Self::lemma_calls_joined(&before, &removed, self);
        }
        let ghost called = *self;
        match completion {
            BackendCompletion::Completed => {
                self.emit(playback_id, PlaybackState::Completed, None);
            },
            BackendCompletion::Failed(error) => {
                self.emit(playback_id, PlaybackState::Failed, Some(error));
            },
        }
        let ghost recorded = *self;
        assert(recorded.calls() == before.calls().push(call));
        proof {
            Self::lemma_calls_joined(&before, &called, self);
        }
        assert(recorded.calls_since(&before) =~= seq![call]);
        if !self.unhealthy {
            self.advance_queue();
            proof {
                Self::lemma_calls_joined(&before, &recorded, self);
            }
            assert(self.calls_since(&before).skip(1) =~= self.calls_since(&recorded));
        }
        proof {
            assert(recorded.calls().is_prefix_of(self.calls()));
            assert(recorded.calls()[before.calls().len() as int] == call);
            assert(self.calls()[before.calls().len() as int] == call);
            assert(self.calls_since(&before)[0] == call);
            assert(before.calls() =~= self.calls().take(before.calls().len() as int));
        }
    }

    /// Stop active playback, discard pending jobs, and release backend state.
    pub fn do_shutdown(&mut self) -> (result: Result<(), PlaybackError>)
        requires
            old(self).well_formed(),
        ensures
            final(self).well_formed(),
            final(self).extends(old(self)),
            forall|i: int| #[trigger]
                final(self).called_since(old(self), i) ==> exists|backend: &mut B|
                    *backend == final(self).states()[i] && *final(backend)
                        == final(self).states()[i + 1] && #[trigger] made_on(
                        backend,
                        final(self).calls()[i],
                    ),
            final(self).calls_since(old(self)).len() == 0 ==> final(self).backend_view() == old(self).backend_view(),
            forall|id: PlaybackId| #[trigger]
                old(self).model().active.contains(id) ==> exists|
                    backend: &mut B,
                    reply: Result<(), PlaybackError>,
                |
                    #[trigger] call_ensures(B::stop, (backend, id), reply) && final(self).calls_since(old(self)).contains(BackendCall::<S>::Stop(id, reply)),
            old(self).model().shut_down(
                final(self).calls_since(old(self)),
                result,
                final(self).model(),
            ),
    {
        let ghost before = *self;
        self.discard_queue();
        let ghost discarded = *self;
        let ids = self.active.clone();
        let mut first: Option<PlaybackError> = None;
        let mut i: usize = 0;
        assert(self.calls_since(&before) =~= Seq::empty());
        while i < ids.len()
            invariant
                i <= ids.len(),
                ids@ == before.model().active,
                self.well_formed(),
                before.well_formed(),
                self.extends(&before),
                forall|i: int| #[trigger]
                    self.called_since(&before, i) ==> exists|backend: &mut B|
                        *backend == self.states()[i] && *final(backend) == self.states()[i + 1]
                            && #[trigger] made_on(backend, self.calls()[i]),
                stops(ids@.take(i as int), self.calls_since(&before)),
                self.model() == discarded.model().released(ids@.take(i as int)),
                first == first_error(self.calls_since(&before)),
            decreases ids.len() - i,
        {
            let playback_id: PlaybackId = ids[i];
            let ghost earlier = *self;
            let ghost made = self.calls_since(&before);
            let reply = self.backend.stop(playback_id);
            assert(self.model() =~= earlier.model());
            let ghost call = BackendCall::<S>::Stop(playback_id, reply);
            let ghost stopped = *self;
            proof {
                Self::lemma_one_call(&earlier, call, self);
                Self::lemma_calls_joined(&before, &earlier, self);
            }
            if let Err(error) = reply {
                if first.is_none() {
                    first = Some(error);
                }
            }
            proof {
                lemma_without(self.active@, playback_id);
                lemma_record_keeps_bounds(
                    self.model().deactivate(playback_id),
                    playback_id,
                    PlaybackState::Interrupted,
                    None,
                );
                assert(ids@.take(i + 1).drop_last() =~= ids@.take(i as int));
            }
            self.remove_active(playback_id);
            self.emit(playback_id, PlaybackState::Interrupted, None);
            proof {
                Self::lemma_calls_joined(&before, &stopped, self);
                assert(self.calls() == earlier.calls().push(call));
                assert(self.calls_since(&before) =~= made.push(call));
                assert(made.push(call).drop_last() =~= made);
                assert(before.calls() =~= self.calls().take(before.calls().len() as int));
                assert forall|j: int| 0 <= j < i + 1 implies (#[trigger] made.push(
                    call,
                )[j] matches BackendCall::Stop(id, _) && id == ids@.take(i + 1)[j]) by {
                    if j < i {
                        assert(made[j] is Stop);
                    }
                }
            }
            i += 1;
        }
        assert(ids@.take(i as int) =~= ids@);
        let ghost released = *self;
        let ghost made = self.calls_since(&before);
        let reply = self.backend.shutdown();
        proof {
            let call = BackendCall::<S>::Shutdown(reply);
            Self::lemma_one_call(&released, call, self);
            Self::lemma_calls_joined(&before, &released, self);
            assert(self.model() =~= released.model());
            assert(self.calls() == released.calls().push(call));
            assert(self.calls_since(&before) =~= made.push(call));
            assert(made.push(call).drop_last() =~= made);
            assert(before.calls() =~= self.calls().take(before.calls().len() as int));
            assert(made.push(call).take(ids@.len() as int) =~= made);
            Self::lemma_stops_made(&before, self, before.model().active);
        }
        if let Err(error) = reply {
            if first.is_none() {
                first = Some(error);
            }
        }
        match first {
            Some(error) => Err(error),
            None => Ok(()),
        }
    }

    /// The current or retained terminal state for an accepted ID.
    pub fn status(&self, playback_id: PlaybackId) -> (status: Option<PlaybackStatus>)
        ensures
            status == self.model().status_of(playback_id),
    {
        match self.statuses.get(&playback_id) {
            Some(state) => Some(PlaybackStatus { playback_id, state: *state }),
            None => None,
        }
    }

    /// Every in-flight and retained terminal status, newest first.
    pub fn snapshot(&self) -> (statuses: Vec<PlaybackStatus>)
        requires
            self.well_formed(),
        ensures
            statuses@ == self.model().newest_first(),
    {
        let mut statuses: Vec<PlaybackStatus> = Vec::new();
        let mut left: usize = self.status_order.len();
        while left > 0
            invariant
                left <= self.status_order@.len(),
                self.well_formed(),
                statuses@.len() == self.status_order@.len() - left,
                forall|i: int|
                    0 <= i < statuses@.len() ==> #[trigger] statuses@[i]
                        == self.model().newest_first()[i],
            decreases left,
        {
            left -= 1;
            let playback_id: PlaybackId = self.status_order[left];
            assert(self.model().order.contains(playback_id)) by {
                assert(self.status_order@[left as int] == playback_id);
            }
            if let Some(state) = self.statuses.get(&playback_id) {
                statuses.push(PlaybackStatus { playback_id, state: *state });
            }
        }
        assert(statuses@ =~= self.model().newest_first());
        statuses
    }

    /// Hand over the lifecycle records that were not yet taken.
    pub fn take_events(&mut self) -> (events: Vec<LifecycleEvent>)
        requires
            old(self).well_formed(),
        ensures
            final(self).well_formed(),
            final(self).calls() == old(self).calls(),
            final(self).states() == old(self).states(),
            final(self).model() == (ActorModel { events: Seq::empty(), ..old(self).model() }),
            event_models(events@) == old(self).model().events,
    {
        let mut events: Vec<LifecycleEvent> = Vec::new();
        std::mem::swap(&mut events, &mut self.events);
        assert(event_models(self.events@) =~= Seq::empty());
        events
    }
}

} // verus!
