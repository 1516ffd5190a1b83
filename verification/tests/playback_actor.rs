//! The playback actor against scripted backends.
use std::cell::RefCell;
use std::collections::HashSet;
use std::rc::Rc;

use agent_speak::gain::Gain;
use agent_speak::playback::actor::{
    Acceptance, Actor, BackendCompletion, Cancellation, EmergencyStop, PlaybackBackend,
    PlaybackState, PlaybackStatus, DEFAULT_INTERNAL_MIX_STREAM_CAPACITY,
    PLAYBACK_STATUS_RETENTION_ITEMS,
};
use agent_speak::playback::completion::{event_capacity, mailbox_capacity, CompletionNotifier};
use agent_speak::playback::error::PlaybackError;
use agent_speak::playback::job::{ConcurrencyMode, PlaybackId, PlaybackJob};

#[derive(Default)]
struct FakeState {
    started: Vec<PlaybackId>,
    stopped: Vec<PlaybackId>,
    active: HashSet<PlaybackId>,
    fail_on_start: HashSet<PlaybackId>,
    fail_stop: bool,
    shutdowns: usize,
    single: bool,
}

#[derive(Clone, Default)]
struct FakeControl(Rc<RefCell<FakeState>>);

impl FakeControl {
    fn started(&self) -> Vec<PlaybackId> {
        self.0.borrow().started.clone()
    }

    fn stopped(&self) -> Vec<PlaybackId> {
        self.0.borrow().stopped.clone()
    }
}

struct FakeBackend(FakeControl);

impl PlaybackBackend<()> for FakeBackend {
    fn start(&mut self, job: PlaybackJob<()>) -> Result<(), PlaybackError> {
        let mut state = self.0 .0.borrow_mut();
        if state.fail_on_start.remove(&job.id) {
            return Err(PlaybackError::Backend("simulated start failure".into()));
        }
        assert!(
            !state.single || state.active.is_empty(),
            "fake backend observed overlap"
        );
        assert!(state.active.insert(job.id), "duplicate active playback ID");
        state.started.push(job.id);
        Ok(())
    }

    fn stop(&mut self, playback_id: PlaybackId) -> Result<(), PlaybackError> {
        let mut state = self.0 .0.borrow_mut();
        if state.fail_stop {
            return Err(PlaybackError::Backend("simulated stop failure".into()));
        }
        if state.active.remove(&playback_id) {
            state.stopped.push(playback_id);
        }
        Ok(())
    }

    fn finished(&mut self, playback_id: PlaybackId) {
        self.0 .0.borrow_mut().active.remove(&playback_id);
    }

    fn shutdown(&mut self) -> Result<(), PlaybackError> {
        let mut state = self.0 .0.borrow_mut();
        state.shutdowns += 1;
        if state.fail_stop {
            return Err(PlaybackError::Backend("simulated stop failure".into()));
        }
        Ok(())
    }
}

type TestActor = Actor<(), FakeBackend>;

fn setup_with(maximum_queue_items: usize, capacity: usize, single: bool) -> (TestActor, FakeControl) {
    let control = FakeControl::default();
    control.0.borrow_mut().single = single;
    let actor =
        Actor::new(FakeBackend(control.clone()), maximum_queue_items, capacity).unwrap();
    (actor, control)
}

fn setup(maximum_queue_items: usize) -> (TestActor, FakeControl) {
    setup_with(maximum_queue_items, DEFAULT_INTERNAL_MIX_STREAM_CAPACITY, true)
}

fn setup_multi(maximum_queue_items: usize) -> (TestActor, FakeControl) {
    setup_with(maximum_queue_items, DEFAULT_INTERNAL_MIX_STREAM_CAPACITY, false)
}

fn job(id: PlaybackId) -> PlaybackJob<()> {
    PlaybackJob::speech(id, "test".to_owned(), Gain { bits: 0.4_f64.to_bits() })
}

fn complete(actor: &mut TestActor, id: PlaybackId) {
    let message = CompletionNotifier::new(id).complete().unwrap();
    actor.finish(message.playback_id, message.completion);
}

fn state_of(actor: &TestActor, id: PlaybackId) -> PlaybackState {
    actor.status(id).unwrap().state
}

#[test]
fn reports_accepted_playing_and_terminal_states() {
    let (mut actor, _control) = setup(2);
    assert_eq!(actor.status(99), None);
    actor.submit(job(1), ConcurrencyMode::Enqueue).unwrap();
    actor.submit(job(2), ConcurrencyMode::Enqueue).unwrap();
    assert_eq!(
        actor.status(1),
        Some(PlaybackStatus { playback_id: 1, state: PlaybackState::Playing })
    );
    assert_eq!(
        actor.status(2),
        Some(PlaybackStatus { playback_id: 2, state: PlaybackState::Accepted })
    );

    complete(&mut actor, 1);
    assert_eq!(state_of(&actor, 1), PlaybackState::Completed);
    assert_eq!(state_of(&actor, 2), PlaybackState::Playing);

    actor.submit(job(3), ConcurrencyMode::Interrupt).unwrap();
    assert_eq!(state_of(&actor, 2), PlaybackState::Interrupted);
    assert_eq!(state_of(&actor, 3), PlaybackState::Playing);

    actor.finish(3, BackendCompletion::Failed("simulated device loss".into()));
    assert_eq!(state_of(&actor, 3), PlaybackState::Failed);
    actor.do_shutdown().unwrap();
}

#[test]
fn cancels_queued_and_active_items_then_advances_fifo() {
    let (mut actor, control) = setup(3);
    for id in [1, 2, 3] {
        actor.submit(job(id), ConcurrencyMode::Enqueue).unwrap();
    }
    assert_eq!(
        actor.cancel(2).unwrap(),
        Some(Cancellation { playback_id: 2, state: PlaybackState::Interrupted, cancelled: true })
    );
    assert_eq!(state_of(&actor, 2), PlaybackState::Interrupted);
    assert_eq!(control.started(), vec![1]);
    assert_eq!(
        actor.cancel(1).unwrap(),
        Some(Cancellation { playback_id: 1, state: PlaybackState::Interrupted, cancelled: true })
    );
    assert_eq!(control.started(), vec![1, 3]);
    assert_eq!(control.stopped(), vec![1]);
    assert_eq!(state_of(&actor, 1), PlaybackState::Interrupted);
    actor.do_shutdown().unwrap();
}

#[test]
fn cancellation_is_a_noop_for_terminal_and_unknown_ids() {
    let (mut actor, _control) = setup(1);
    actor.submit(job(1), ConcurrencyMode::Enqueue).unwrap();
    complete(&mut actor, 1);
    assert_eq!(
        actor.cancel(1).unwrap(),
        Some(Cancellation { playback_id: 1, state: PlaybackState::Completed, cancelled: false })
    );
    assert_eq!(actor.cancel(99).unwrap(), None);
    actor.do_shutdown().unwrap();
}

#[test]
fn cancellation_stop_failure_preserves_state_and_pauses_fifo() {
    let (mut actor, control) = setup(1);
    actor.submit(job(1), ConcurrencyMode::Enqueue).unwrap();
    actor.submit(job(2), ConcurrencyMode::Enqueue).unwrap();
    control.0.borrow_mut().fail_stop = true;

    assert!(matches!(actor.cancel(1), Err(PlaybackError::Backend(_))));
    assert_eq!(state_of(&actor, 1), PlaybackState::Playing);
    complete(&mut actor, 1);
    assert_eq!(state_of(&actor, 1), PlaybackState::Completed);
    assert_eq!(control.started(), vec![1]);
    assert_eq!(state_of(&actor, 2), PlaybackState::Accepted);
    assert!(actor.do_shutdown().is_err());
}

#[test]
fn snapshot_is_newest_first_without_playback_content() {
    let (mut actor, _control) = setup(2);
    actor.submit(job(1), ConcurrencyMode::Enqueue).unwrap();
    actor.submit(job(2), ConcurrencyMode::Enqueue).unwrap();
    assert_eq!(
        actor.snapshot(),
        vec![
            PlaybackStatus { playback_id: 2, state: PlaybackState::Accepted },
            PlaybackStatus { playback_id: 1, state: PlaybackState::Playing },
        ]
    );
    complete(&mut actor, 1);
    assert_eq!(actor.snapshot()[0].state, PlaybackState::Playing);
    actor.do_shutdown().unwrap();
}

#[test]
fn emergency_stop_interrupts_active_and_every_queued_item() {
    let (mut actor, control) = setup(3);
    for id in [1, 2, 3] {
        actor.submit(job(id), ConcurrencyMode::Enqueue).unwrap();
    }
    assert_eq!(actor.emergency_stop().unwrap(), EmergencyStop { interrupted_items: 3 });
    assert_eq!(control.stopped(), vec![1]);
    for id in [1, 2, 3] {
        assert_eq!(state_of(&actor, id), PlaybackState::Interrupted);
    }
    actor.do_shutdown().unwrap();
}

#[test]
fn emergency_stop_failure_discards_queue_but_preserves_active_state() {
    let (mut actor, control) = setup(2);
    actor.submit(job(1), ConcurrencyMode::Enqueue).unwrap();
    actor.submit(job(2), ConcurrencyMode::Enqueue).unwrap();
    control.0.borrow_mut().fail_stop = true;
    assert!(matches!(actor.emergency_stop(), Err(PlaybackError::Backend(_))));
    assert_eq!(state_of(&actor, 1), PlaybackState::Playing);
    assert_eq!(state_of(&actor, 2), PlaybackState::Interrupted);
    assert!(actor.do_shutdown().is_err());
}

#[test]
fn completion_and_cancellation_race_to_one_terminal_state() {
    let (mut actor, _control) = setup(1);
    actor.submit(job(1), ConcurrencyMode::Enqueue).unwrap();
    assert!(actor.cancel(1).unwrap().unwrap().cancelled);
    complete(&mut actor, 1);
    assert_eq!(state_of(&actor, 1), PlaybackState::Interrupted);

    let (mut actor, _control) = setup(1);
    actor.submit(job(1), ConcurrencyMode::Enqueue).unwrap();
    complete(&mut actor, 1);
    let cancellation = actor.cancel(1).unwrap().unwrap();
    assert!(!cancellation.cancelled);
    assert_eq!(cancellation.state, PlaybackState::Completed);
    assert_eq!(state_of(&actor, 1), PlaybackState::Completed);
}

#[test]
fn retains_only_the_newest_bounded_terminal_statuses() {
    let (mut actor, _control) = setup(1);
    let last = PLAYBACK_STATUS_RETENTION_ITEMS as PlaybackId;
    for id in 0..=last {
        actor.submit(job(id), ConcurrencyMode::Enqueue).unwrap();
        complete(&mut actor, id);
    }
    assert_eq!(actor.status(0), None);
    assert_eq!(state_of(&actor, 1), PlaybackState::Completed);
    assert_eq!(state_of(&actor, last), PlaybackState::Completed);
    actor.do_shutdown().unwrap();
}

#[test]
fn starts_immediately_when_idle() {
    let (mut actor, control) = setup(2);
    assert_eq!(
        actor.submit(job(1), ConcurrencyMode::Enqueue),
        Ok(Acceptance { playback_id: 1 })
    );
    assert_eq!(control.started(), vec![1]);
    actor.do_shutdown().unwrap();
}

#[test]
fn mix_uses_two_internal_slots_and_advances_each_id_independently() {
    let (mut actor, control) = setup_multi(3);
    for id in [1, 2, 3] {
        actor.submit(job(id), ConcurrencyMode::Mix).unwrap();
    }
    assert_eq!(control.started(), vec![1, 2]);
    assert_eq!(state_of(&actor, 3), PlaybackState::Accepted);
    complete(&mut actor, 2);
    assert_eq!(state_of(&actor, 2), PlaybackState::Completed);
    assert_eq!(control.started(), vec![1, 2, 3]);
    assert_eq!(state_of(&actor, 1), PlaybackState::Playing);
    assert_eq!(state_of(&actor, 3), PlaybackState::Playing);
    actor.do_shutdown().unwrap();
}

#[test]
fn internal_mix_capacity_is_configurable_and_not_a_two_stream_ceiling() {
    let (mut actor, control) = setup_with(2, 3, false);
    for id in [1, 2, 3, 4] {
        actor.submit(job(id), ConcurrencyMode::Mix).unwrap();
    }
    assert_eq!(control.started(), vec![1, 2, 3]);
    complete(&mut actor, 2);
    assert_eq!(control.started(), vec![1, 2, 3, 4]);
    actor.do_shutdown().unwrap();
}

#[test]
fn zero_internal_mix_capacity_is_rejected() {
    let result = Actor::<(), FakeBackend>::new(FakeBackend(FakeControl::default()), 1, 0);
    assert!(
        matches!(result, Err(PlaybackError::Backend(message)) if message.contains("capacity"))
    );
}

#[test]
fn cancelling_one_mixed_item_preserves_its_peer_and_fills_the_slot() {
    let (mut actor, control) = setup_multi(2);
    for id in [1, 2, 3] {
        actor.submit(job(id), ConcurrencyMode::Mix).unwrap();
    }
    assert_eq!(
        actor.cancel(1).unwrap(),
        Some(Cancellation { playback_id: 1, state: PlaybackState::Interrupted, cancelled: true })
    );
    assert_eq!(control.started(), vec![1, 2, 3]);
    assert_eq!(control.stopped(), vec![1]);
    assert_eq!(control.0.borrow().active, HashSet::from([2, 3]));
    assert_eq!(state_of(&actor, 2), PlaybackState::Playing);
    actor.do_shutdown().unwrap();
}

#[test]
fn enqueue_at_the_fifo_head_waits_for_every_mixed_item() {
    let (mut actor, control) = setup_multi(3);
    for id in [1, 2] {
        actor.submit(job(id), ConcurrencyMode::Mix).unwrap();
    }
    actor.submit(job(3), ConcurrencyMode::Enqueue).unwrap();
    actor.submit(job(4), ConcurrencyMode::Mix).unwrap();

    complete(&mut actor, 1);
    assert_eq!(state_of(&actor, 1), PlaybackState::Completed);
    assert_eq!(control.started(), vec![1, 2]);
    complete(&mut actor, 2);
    assert_eq!(control.started(), vec![1, 2, 3]);
    complete(&mut actor, 3);
    assert_eq!(control.started(), vec![1, 2, 3, 4]);
    actor.do_shutdown().unwrap();
}

#[test]
fn interrupt_stops_every_mixed_item_before_replacement() {
    let (mut actor, control) = setup_multi(2);
    for id in [1, 2] {
        actor.submit(job(id), ConcurrencyMode::Mix).unwrap();
    }
    actor.submit(job(3), ConcurrencyMode::Interrupt).unwrap();
    assert_eq!(control.started(), vec![1, 2, 3]);
    assert_eq!(control.stopped().into_iter().collect::<HashSet<_>>(), HashSet::from([1, 2]));
    assert_eq!(control.0.borrow().active, HashSet::from([3]));
    for id in [1, 2] {
        assert_eq!(state_of(&actor, id), PlaybackState::Interrupted);
    }
    actor.do_shutdown().unwrap();
}

#[test]
fn enqueued_items_play_in_fifo_order() {
    let (mut actor, control) = setup(3);
    for id in [1, 2, 3] {
        actor.submit(job(id), ConcurrencyMode::Enqueue).unwrap();
    }
    assert_eq!(control.started(), vec![1]);
    complete(&mut actor, 1);
    complete(&mut actor, 2);
    assert_eq!(control.started(), vec![1, 2, 3]);
    actor.do_shutdown().unwrap();
}

#[test]
fn rejects_when_pending_fifo_is_full() {
    let (mut actor, _control) = setup(1);
    actor.submit(job(1), ConcurrencyMode::Enqueue).unwrap();
    actor.submit(job(2), ConcurrencyMode::Enqueue).unwrap();
    assert_eq!(
        actor.submit(job(3), ConcurrencyMode::Enqueue),
        Err(PlaybackError::QueueFull)
    );
    actor.do_shutdown().unwrap();
}

#[test]
fn interrupt_stops_active_and_preserves_pending_fifo() {
    let (mut actor, control) = setup(3);
    for id in [1, 2, 3] {
        actor.submit(job(id), ConcurrencyMode::Enqueue).unwrap();
    }
    actor.submit(job(4), ConcurrencyMode::Interrupt).unwrap();
    assert_eq!(control.started(), vec![1, 4]);
    assert_eq!(control.stopped(), vec![1]);
    complete(&mut actor, 4);
    complete(&mut actor, 2);
    assert_eq!(control.started(), vec![1, 4, 2, 3]);
    actor.do_shutdown().unwrap();
}

#[test]
fn backend_failure_advances_pending_fifo() {
    let (mut actor, control) = setup(2);
    actor.submit(job(1), ConcurrencyMode::Enqueue).unwrap();
    actor.submit(job(2), ConcurrencyMode::Enqueue).unwrap();
    let message = CompletionNotifier::new(1).fail("simulated device loss".into()).unwrap();
    actor.finish(message.playback_id, message.completion);
    assert_eq!(control.started(), vec![1, 2]);
    actor.do_shutdown().unwrap();
}

#[test]
fn dropped_completion_callback_fails_item_and_advances_fifo() {
    let (mut actor, control) = setup(2);
    actor.submit(job(1), ConcurrencyMode::Enqueue).unwrap();
    actor.submit(job(2), ConcurrencyMode::Enqueue).unwrap();
    let message = CompletionNotifier::new(1).dropped().unwrap();
    actor.finish(message.playback_id, message.completion);
    assert_eq!(control.started(), vec![1, 2]);
    let failed = actor
        .take_events()
        .into_iter()
        .find(|event| event.playback_id == 1 && event.state == PlaybackState::Failed)
        .unwrap();
    assert_eq!(
        failed.error.as_deref(),
        Some("playback backend dropped its completion callback")
    );
    actor.do_shutdown().unwrap();
}

#[test]
fn failed_interrupt_start_restores_pending_fifo_progress() {
    let (mut actor, control) = setup(2);
    actor.submit(job(1), ConcurrencyMode::Enqueue).unwrap();
    actor.submit(job(2), ConcurrencyMode::Enqueue).unwrap();
    control.0.borrow_mut().fail_on_start.insert(3);
    assert!(matches!(
        actor.submit(job(3), ConcurrencyMode::Interrupt),
        Err(PlaybackError::Backend(_))
    ));
    assert_eq!(control.started(), vec![1, 2]);
    actor.do_shutdown().unwrap();
}

#[test]
fn failed_stop_marks_backend_unhealthy_and_pauses_fifo() {
    let (mut actor, control) = setup(2);
    actor.submit(job(1), ConcurrencyMode::Enqueue).unwrap();
    actor.submit(job(2), ConcurrencyMode::Enqueue).unwrap();
    control.0.borrow_mut().fail_stop = true;
    assert!(matches!(
        actor.submit(job(3), ConcurrencyMode::Interrupt),
        Err(PlaybackError::Backend(_))
    ));
    complete(&mut actor, 1);
    assert_eq!(control.started(), vec![1]);
    assert!(matches!(
        actor.submit(job(4), ConcurrencyMode::Enqueue),
        Err(PlaybackError::Backend(_))
    ));
    assert!(actor.do_shutdown().is_err());
}

#[test]
fn shutdown_stops_active_and_discards_pending() {
    let (mut actor, control) = setup(2);
    actor.submit(job(1), ConcurrencyMode::Enqueue).unwrap();
    actor.submit(job(2), ConcurrencyMode::Enqueue).unwrap();
    actor.do_shutdown().unwrap();
    assert_eq!(control.started(), vec![1]);
    assert_eq!(control.stopped(), vec![1]);
    assert_eq!(control.0.borrow().shutdowns, 1);
}

#[test]
fn lifecycle_records_come_in_acceptance_order() {
    let (mut actor, _control) = setup(16);
    for id in 1..=8 {
        actor.submit(job(id), ConcurrencyMode::Enqueue).unwrap();
    }
    let accepted: Vec<PlaybackId> = actor
        .take_events()
        .into_iter()
        .filter(|event| event.state == PlaybackState::Accepted)
        .map(|event| event.playback_id)
        .collect();
    assert_eq!(accepted, (1..=8).collect::<Vec<PlaybackId>>());
    assert!(actor.take_events().is_empty());
}

#[test]
fn a_completion_token_yields_one_message() {
    let mut token = CompletionNotifier::new(5);
    assert_eq!(token.playback_id(), 5);
    assert!(token.complete().is_some());
    assert!(token.complete().is_none());
    assert!(token.dropped().is_none());
    let mut retired = CompletionNotifier::new(6);
    retired.discard();
    assert!(retired.fail("late".into()).is_none());
    assert_eq!(mailbox_capacity(16), 20);
    assert_eq!(mailbox_capacity(usize::MAX), usize::MAX);
    assert_eq!(event_capacity(2), 16);
    assert_eq!(event_capacity(20), 80);
}

#[test]
fn terminal_states_are_the_ended_ones() {
    assert!(!PlaybackState::Accepted.is_terminal());
    assert!(!PlaybackState::Playing.is_terminal());
    assert!(PlaybackState::Completed.is_terminal());
    assert!(PlaybackState::Interrupted.is_terminal());
    assert!(PlaybackState::Failed.is_terminal());
}

#[test]
fn nothing_waits_where_nothing_plays() {
    let (mut actor, control) = setup(4);
    for id in 1..=4 {
        actor.submit(job(id), ConcurrencyMode::Enqueue).unwrap();
    }
    control.0.borrow_mut().fail_on_start.extend([2, 3, 4]);
    complete(&mut actor, 1);
    assert_eq!(control.started(), vec![1]);
    for id in 2..=4 {
        assert_eq!(state_of(&actor, id), PlaybackState::Failed);
    }
    actor.submit(job(5), ConcurrencyMode::Mix).unwrap();
    assert_eq!(state_of(&actor, 5), PlaybackState::Playing);
    actor.do_shutdown().unwrap();
}

#[test]
fn a_repeated_cancellation_gives_the_same_state_while_it_is_retained() {
    let (mut actor, control) = setup(1);
    let others = PLAYBACK_STATUS_RETENTION_ITEMS as PlaybackId;
    actor.submit(job(0), ConcurrencyMode::Enqueue).unwrap();
    let first = actor.cancel(0).unwrap().unwrap();
    assert_eq!(
        first,
        Cancellation { playback_id: 0, state: PlaybackState::Interrupted, cancelled: true }
    );
    let stopped = control.stopped();
    for id in 1..others {
        actor.submit(job(id), ConcurrencyMode::Enqueue).unwrap();
        complete(&mut actor, id);
        assert_eq!(
            actor.cancel(0).unwrap(),
            Some(Cancellation { playback_id: 0, state: first.state, cancelled: false })
        );
    }
    assert_eq!(control.stopped(), stopped);
    actor.submit(job(others), ConcurrencyMode::Enqueue).unwrap();
    complete(&mut actor, others);
    assert_eq!(actor.cancel(0).unwrap(), None);
    assert_eq!(state_of(&actor, 1), PlaybackState::Completed);
    actor.do_shutdown().unwrap();
}

#[test]
fn every_way_to_end_counts_towards_what_is_retained() {
    let (mut actor, control) = setup(2);
    let last = PLAYBACK_STATUS_RETENTION_ITEMS as PlaybackId;
    actor.submit(job(1_000), ConcurrencyMode::Enqueue).unwrap();
    actor.submit(job(1_001), ConcurrencyMode::Enqueue).unwrap();
    actor.submit(job(1_002), ConcurrencyMode::Enqueue).unwrap();
    actor.cancel(1_001).unwrap();
    control.0.borrow_mut().fail_on_start.insert(1_002);
    complete(&mut actor, 1_000);
    // 1001 ended first, 1000 next, and 1002 last.
    for id in 1..last - 2 {
        actor.submit(job(id), ConcurrencyMode::Enqueue).unwrap();
        complete(&mut actor, id);
        actor.take_events();
    }
    assert_eq!(state_of(&actor, 1_001), PlaybackState::Interrupted);
    for (id, forgotten) in [(last, 1_001), (last + 1, 1_000), (last + 2, 1_002)] {
        actor.submit(job(id), ConcurrencyMode::Enqueue).unwrap();
        complete(&mut actor, id);
        assert_eq!(actor.status(forgotten), None);
    }
    assert_eq!(state_of(&actor, 1), PlaybackState::Completed);
    actor.do_shutdown().unwrap();
}

#[test]
fn the_backend_is_asked_exactly_what_is_answered_for() {
    let (mut actor, control) = setup_multi(2);
    for id in [1, 2] {
        actor.submit(job(id), ConcurrencyMode::Mix).unwrap();
    }
    actor.submit(job(3), ConcurrencyMode::Interrupt).unwrap();
    assert_eq!(control.stopped(), vec![1, 2]);
    assert_eq!(control.started(), vec![1, 2, 3]);
    complete(&mut actor, 1);
    assert_eq!(actor.cancel(1).unwrap().unwrap().state, PlaybackState::Interrupted);
    assert_eq!((control.stopped(), control.started()), (vec![1, 2], vec![1, 2, 3]));
    actor.cancel(3).unwrap();
    assert_eq!(control.stopped(), vec![1, 2, 3]);
    assert!(control.0.borrow().active.is_empty());
}
