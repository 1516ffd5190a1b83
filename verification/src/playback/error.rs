use crate::text::join;
use vstd::prelude::*;

verus! {

/// Why playback was not accepted, or ended early.
#[derive(Debug, PartialEq, Eq)]
pub enum PlaybackError {
    QueueFull,
    ActorBusy,
    ActorClosed,
    Backend(String),
    OutputUnavailable(String),
    OpenFile(String),
    NotRegularFile,
    UnsupportedAudio,
    DurationUnknown,
    AudioTooLong,
}

impl Clone for PlaybackError {
    fn clone(&self) -> (copy: Self)
        ensures
            copy == *self,
    {
        match self {
            PlaybackError::QueueFull => PlaybackError::QueueFull,
            PlaybackError::ActorBusy => PlaybackError::ActorBusy,
            PlaybackError::ActorClosed => PlaybackError::ActorClosed,
            PlaybackError::Backend(detail) => PlaybackError::Backend(detail.clone()),
            PlaybackError::OutputUnavailable(detail) => PlaybackError::OutputUnavailable(
                detail.clone(),
            ),
            PlaybackError::OpenFile(detail) => PlaybackError::OpenFile(detail.clone()),
            PlaybackError::NotRegularFile => PlaybackError::NotRegularFile,
            PlaybackError::UnsupportedAudio => PlaybackError::UnsupportedAudio,
            PlaybackError::DurationUnknown => PlaybackError::DurationUnknown,
            PlaybackError::AudioTooLong => PlaybackError::AudioTooLong,
        }
    }
}

impl PlaybackError {
    /// The sentence that reports this error.
    pub open spec fn message_text(self) -> Seq<char> {
        match self {
            PlaybackError::QueueFull => "the playback queue is full"@,
            PlaybackError::ActorBusy => "the playback actor command channel is busy"@,
            PlaybackError::ActorClosed => "the playback actor is not available"@,
            PlaybackError::Backend(detail) => "playback backend error: "@ + detail@,
            PlaybackError::OutputUnavailable(detail) => "output target is unavailable: "@ + detail@,
            PlaybackError::OpenFile(detail) => "audio file could not be opened: "@ + detail@,
            PlaybackError::NotRegularFile => "audio source is not a regular file"@,
            PlaybackError::UnsupportedAudio => "audio format is not supported"@,
            PlaybackError::DurationUnknown => "audio duration could not be determined"@,
            PlaybackError::AudioTooLong => "audio duration exceeds the built-in maximum"@,
        }
    }

    /// A backend failure with the given detail.
    pub open spec fn is_backend(self, detail: Seq<char>) -> bool {
        self matches PlaybackError::Backend(text) && text@ == detail
    }

    pub fn message(&self) -> (text: String)
        ensures
            text@ == self.message_text(),
    {
        match self {
            PlaybackError::QueueFull => "the playback queue is full".to_string(),
            PlaybackError::ActorBusy => "the playback actor command channel is busy".to_string(),
            PlaybackError::ActorClosed => "the playback actor is not available".to_string(),
            PlaybackError::Backend(detail) => join("playback backend error: ", detail.as_str()),
            PlaybackError::OutputUnavailable(detail) => join(
                "output target is unavailable: ",
                detail.as_str(),
            ),
            PlaybackError::OpenFile(detail) => join(
                "audio file could not be opened: ",
                detail.as_str(),
            ),
            PlaybackError::NotRegularFile => "audio source is not a regular file".to_string(),
            PlaybackError::UnsupportedAudio => "audio format is not supported".to_string(),
            PlaybackError::DurationUnknown => "audio duration could not be determined".to_string(),
            PlaybackError::AudioTooLong => "audio duration exceeds the built-in maximum".to_string(),
        }
    }
}

} // verus!
