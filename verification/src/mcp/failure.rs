//! What a refused tool call is answered.
use crate::playback::error::PlaybackError;
use vstd::prelude::*;

verus! {

/// A refusal: a stable code, a sentence, and whether trying again may help.
#[derive(Debug)]
pub struct ToolFailure {
    pub code: &'static str,
    pub message: String,
    pub retryable: bool,
}

/// What a refusal says.
pub struct FailureModel {
    pub code: Seq<char>,
    pub message: Seq<char>,
    pub retryable: bool,
}

impl View for ToolFailure {
    type V = FailureModel;

    open spec fn view(&self) -> FailureModel {
        FailureModel { code: self.code@, message: self.message@, retryable: self.retryable }
    }
}

/// A refusal with these contents.
pub open spec fn failure(code: Seq<char>, message: Seq<char>, retryable: bool) -> FailureModel {
    FailureModel { code, message, retryable }
}

/// How a playback error is reported: by what kind of error it is, without its
/// detail.
pub open spec fn playback_failure(error: PlaybackError) -> FailureModel {
    match error {
        PlaybackError::QueueFull => failure("queue_full"@, "the playback queue is full"@, true),
        PlaybackError::ActorBusy => failure(
            "request_not_accepted"@,
            "the playback service is busy; retry later"@,
            true,
        ),
        PlaybackError::ActorClosed | PlaybackError::Backend(_) => failure(
            "playback_unavailable"@,
            "the playback backend is unavailable"@,
            true,
        ),
        PlaybackError::OutputUnavailable(_) => failure(
            "output_unavailable"@,
            "the selected output target is unavailable"@,
            true,
        ),
        PlaybackError::OpenFile(_) | PlaybackError::NotRegularFile => failure(
            "invalid_path"@,
            "audio file could not be opened"@,
            false,
        ),
        PlaybackError::UnsupportedAudio => failure(
            "unsupported_audio"@,
            "audio format is not supported"@,
            false,
        ),
        PlaybackError::DurationUnknown => failure(
            "duration_unknown"@,
            "audio duration could not be determined"@,
            false,
        ),
        PlaybackError::AudioTooLong => failure(
            "audio_too_long"@,
            "audio exceeds playback.maximum_audio_seconds"@,
            false,
        ),
    }
}

impl ToolFailure {
    pub fn new(code: &'static str, message: &str, retryable: bool) -> (refusal: Self)
        ensures
            refusal@ == failure(code@, message@, retryable),
    {
        ToolFailure { code, message: message.to_string(), retryable }
    }

    pub fn from_playback(error: &PlaybackError) -> (refusal: Self)
        ensures
            refusal@ == playback_failure(*error),
    {
        match error {
            PlaybackError::QueueFull => Self::new(
                "queue_full",
                "the playback queue is full",
                true,
            ),
            PlaybackError::ActorBusy => Self::new(
                "request_not_accepted",
                "the playback service is busy; retry later",
                true,
            ),
            PlaybackError::ActorClosed | PlaybackError::Backend(_) => Self::new(
                "playback_unavailable",
                "the playback backend is unavailable",
                true,
            ),
            PlaybackError::OutputUnavailable(_) => Self::new(
                "output_unavailable",
                "the selected output target is unavailable",
                true,
            ),
            PlaybackError::OpenFile(_) | PlaybackError::NotRegularFile => Self::new(
                "invalid_path",
                "audio file could not be opened",
                false,
            ),
            PlaybackError::UnsupportedAudio => Self::new(
                "unsupported_audio",
                "audio format is not supported",
                false,
            ),
            PlaybackError::DurationUnknown => Self::new(
                "duration_unknown",
                "audio duration could not be determined",
                false,
            ),
            PlaybackError::AudioTooLong => Self::new(
                "audio_too_long",
                "audio exceeds playback.maximum_audio_seconds",
                false,
            ),
        }
    }

    /// The answer when a result cannot be put into words.
    pub fn unserializable() -> (refusal: Self)
        ensures
            refusal@ == failure(
                "request_not_accepted"@,
                "the result could not be serialized"@,
                true,
            ),
    {
        Self::new("request_not_accepted", "the result could not be serialized", true)
    }
}

} // verus!
