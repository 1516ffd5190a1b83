//! One-shot completion of a started item.
use super::actor::BackendCompletion;
use super::job::PlaybackId;
use vstd::prelude::*;

verus! {

/// What a backend reports to the actor when an item ended.
#[derive(Debug, PartialEq, Eq)]
pub struct CompletionMessage {
    pub playback_id: PlaybackId,
    pub completion: BackendCompletion,
}

/// A one-shot completion token handed to the active backend.
///
/// It yields at most one message: of the first completion, failure or drop.
#[derive(Debug)]
pub struct CompletionNotifier {
    playback_id: PlaybackId,
    open: bool,
}

impl CompletionNotifier {
    pub closed spec fn id(&self) -> PlaybackId {
        self.playback_id
    }

    /// No message was yielded and none was renounced.
    pub closed spec fn is_open(&self) -> bool {
        self.open
    }

    pub fn new(playback_id: PlaybackId) -> (notifier: Self)
        ensures
            notifier.id() == playback_id,
            notifier.is_open(),
    {
        CompletionNotifier { playback_id, open: true }
    }

    pub fn playback_id(&self) -> (id: PlaybackId)
        ensures
            id == self.id(),
    {
        self.playback_id
    }

    pub fn complete(&mut self) -> (message: Option<CompletionMessage>)
        ensures
            final(self).id() == old(self).id(),
            !final(self).is_open(),
            message == if old(self).is_open() {
                Some(
                    CompletionMessage {
                        playback_id: old(self).id(),
                        completion: BackendCompletion::Completed,
                    },
                )
            } else {
                None
            },
    {
        self.send(BackendCompletion::Completed)
    }

    pub fn fail(&mut self, error: String) -> (message: Option<CompletionMessage>)
        ensures
            final(self).id() == old(self).id(),
            !final(self).is_open(),
            message == if old(self).is_open() {
                Some(
                    CompletionMessage {
                        playback_id: old(self).id(),
                        completion: BackendCompletion::Failed(error),
                    },
                )
            } else {
                None
            },
    {
        self.send(BackendCompletion::Failed(error))
    }

    /// Retire this token without manufacturing another terminal event.
    pub fn discard(&mut self)
        ensures
            final(self).id() == old(self).id(),
            !final(self).is_open(),
    {
        self.open = false;
    }

    /// The token is given up. An open one reports that its callback was lost.
    pub fn dropped(&mut self) -> (message: Option<CompletionMessage>)
        ensures
            final(self).id() == old(self).id(),
            !final(self).is_open(),
            match message {
                Some(message) => old(self).is_open() && message.playback_id == old(self).id()
                    && message.completion.error_text() == Some(
                    "playback backend dropped its completion callback"@,
                ),
                None => !old(self).is_open(),
            },
    {
        self.send(
            BackendCompletion::Failed(
                "playback backend dropped its completion callback".to_string(),
            ),
        )
    }

    fn send(&mut self, completion: BackendCompletion) -> (message: Option<CompletionMessage>)
        ensures
            final(self).id() == old(self).id(),
            !final(self).is_open(),
            message == if old(self).is_open() {
                Some(CompletionMessage { playback_id: old(self).id(), completion })
            } else {
                None
            },
    {
        if self.open {
            self.open = false;
            Some(CompletionMessage { playback_id: self.playback_id, completion })
        } else {
            None
        }
    }
}

/// How many commands the actor's mailbox holds: the FIFO, and headroom for
/// completions and control.
pub fn mailbox_capacity(maximum_queue_items: usize) -> (capacity: usize)
    ensures
        capacity == if maximum_queue_items + 4 <= usize::MAX {
            maximum_queue_items + 4
        } else {
            usize::MAX as int
        },
{
    maximum_queue_items.saturating_add(4)
}

/// How many lifecycle records a slow listener may fall behind.
pub fn event_capacity(mailbox_capacity: usize) -> (capacity: usize)
    ensures
        capacity >= 16,
        4 * mailbox_capacity <= usize::MAX ==> capacity == if 4 * mailbox_capacity < 16 {
            16
        } else {
            4 * mailbox_capacity
        },
        4 * mailbox_capacity > usize::MAX ==> capacity == usize::MAX,
{
    let wanted: usize = match mailbox_capacity.checked_mul(4) {
        Some(wanted) => wanted,
        None => usize::MAX,
    };
    if wanted < 16 {
        16
    } else {
        wanted
    }
}

} // verus!
