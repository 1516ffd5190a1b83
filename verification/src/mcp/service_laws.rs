//! What a server starts with, and how it answers.
use super::failure;
use super::failure::{FailureModel, ToolFailure};
use super::outputs;
use super::outputs::{AcceptanceOutput, PlaybackStatusOutput};
use super::startup;
use super::startup::{OpenedAudio, ServerStartupError};
use crate::config::model::{AudioCueConfig, AudioCueKind, ProfileConfig};
use crate::paths::PathStyle;
use crate::playback::actor::{Acceptance, PlaybackStatus};
use crate::playback::audio::{PreparedAudio, PreparedAudioSource};
use crate::playback::error::PlaybackError;
use crate::playback::job::ConcurrencyMode;
use vstd::prelude::*;

verus! {

/// A refusal says this.
pub open spec fn says(
    refusal: FailureModel,
    code: Seq<char>,
    message: Seq<char>,
    retryable: bool,
) -> bool {
    refusal.code == code && refusal.message == message && refusal.retryable == retryable
}

/// Each playback error has its code and its sentence. What may pass is worth
/// another try: a full queue, a busy or closed service, a lost output. What is
/// wrong with a file is not.
pub proof fn law_playback_errors_have_their_code(error: PlaybackError)
    ensures
        match error {
            PlaybackError::QueueFull => says(
                failure::playback_failure(error),
                "queue_full"@,
                "the playback queue is full"@,
                true,
            ),
            PlaybackError::ActorBusy => says(
                failure::playback_failure(error),
                "request_not_accepted"@,
                "the playback service is busy; retry later"@,
                true,
            ),
            PlaybackError::ActorClosed => says(
                failure::playback_failure(error),
                "playback_unavailable"@,
                "the playback backend is unavailable"@,
                true,
            ),
            PlaybackError::Backend(_) => says(
                failure::playback_failure(error),
                "playback_unavailable"@,
                "the playback backend is unavailable"@,
                true,
            ),
            PlaybackError::OutputUnavailable(_) => says(
                failure::playback_failure(error),
                "output_unavailable"@,
                "the selected output target is unavailable"@,
                true,
            ),
            PlaybackError::OpenFile(_) => says(
                failure::playback_failure(error),
                "invalid_path"@,
                "audio file could not be opened"@,
                false,
            ),
            PlaybackError::NotRegularFile => says(
                failure::playback_failure(error),
                "invalid_path"@,
                "audio file could not be opened"@,
                false,
            ),
            PlaybackError::UnsupportedAudio => says(
                failure::playback_failure(error),
                "unsupported_audio"@,
                "audio format is not supported"@,
                false,
            ),
            PlaybackError::DurationUnknown => says(
                failure::playback_failure(error),
                "duration_unknown"@,
                "audio duration could not be determined"@,
                false,
            ),
            PlaybackError::AudioTooLong => says(
                failure::playback_failure(error),
                "audio_too_long"@,
                "audio exceeds playback.maximum_audio_seconds"@,
                false,
            ),
        },
        says(
            outputs::unknown_id_failure(),
            "unknown_playback_id"@,
            "playback ID is not known to this server or is no longer retained"@,
            false,
        ),
        forall|code: Seq<char>, message: Seq<char>, retryable: bool|
            says(#[trigger] failure::failure(code, message, retryable), code, message, retryable),
{
}

/// Each way to start has its own name.
pub proof fn law_modes_are_named()
    ensures
        outputs::mode_text(ConcurrencyMode::Enqueue) == "enqueue"@,
        outputs::mode_text(ConcurrencyMode::Interrupt) == "interrupt"@,
        outputs::mode_text(ConcurrencyMode::Mix) == "mix"@,
{
}

/// A status is shown with its own identifier and state; it is terminal where it
/// has completed, was interrupted or failed, and has a code only where it failed.
pub proof fn law_statuses_are_shown_as_they_are(
    shown: PlaybackStatusOutput,
    status: PlaybackStatus,
)
    ensures
        outputs::shows_status(shown, status) <==> {
            &&& shown.playback_id@ == crate::ids::hyphenated(status.playback_id)
            &&& shown.status@ == crate::control::state_text(status.state)
            &&& shown.terminal <==> (status.state is Completed || status.state is Interrupted
                || status.state is Failed)
            &&& shown.error_code is Some <==> status.state is Failed
            &&& shown.error_code matches Some(code) ==> code@ == "playback_unavailable"@
        },
{
}

/// An accepted item is answered with its identifier and the time, a refused one
/// with the reason.
pub proof fn law_submissions_are_answered(
    result: Result<Acceptance, PlaybackError>,
    accepted_at: Seq<char>,
    output: Result<AcceptanceOutput, ToolFailure>,
)
    requires
        outputs::answers_submission(result, accepted_at, output),
    ensures
        match result {
            Ok(accepted) => {
                &&& output matches Ok(shown)
                &&& shown.playback_id@ == crate::ids::hyphenated(accepted.playback_id)
                &&& shown.status@ == "accepted"@
                &&& shown.accepted_at@ == accepted_at
            },
            Err(error) => output matches Err(refusal) && refusal@ == failure::playback_failure(
                error,
            ),
        },
{
}

/// Files may be played where any file may be or a cue is one; something may be
/// spoken where any text may be and speech is enabled, or a cue is spoken.
pub proof fn law_backends_follow_what_may_be_played(profile: ProfileConfig)
    ensures
        startup::audio_enabled(profile) <==> (profile.permissions.arbitrary_local_audio
            || exists|i: int|
            0 <= i < profile.audio_cues@.len() && (#[trigger] profile.audio_cues@[i]).kind
                == AudioCueKind::AudioFile),
        startup::speech_enabled(profile) <==> ((profile.permissions.arbitrary_text
            && profile.tts.enabled) || exists|i: int|
            0 <= i < profile.audio_cues@.len() && (#[trigger] profile.audio_cues@[i]).kind
                == AudioCueKind::Speech),
{
}

/// The duration limit is that of the profile in nanoseconds, and zero is none.
pub proof fn law_duration_limit_is_in_nanoseconds(profile: ProfileConfig)
    ensures
        profile.playback.maximum_audio_seconds == 0 ==> startup::duration_limit_nanos(profile)
            is None,
        profile.playback.maximum_audio_seconds > 0 ==> startup::duration_limit_nanos(profile)
            == Some((1_000_000_000 * profile.playback.maximum_audio_seconds) as u128),
{
}

/// Only the file of an audio-file cue is looked at.
pub proof fn law_files_of_cues_are_looked_at(cue: AudioCueConfig)
    ensures
        cue.kind == AudioCueKind::AudioFile ==> startup::media_source(cue) == cue.source,
        cue.kind == AudioCueKind::Speech ==> startup::media_source(cue) is None,
{
}

/// The cue that stops a start is the first whose file failed; where there is none,
/// no file failed.
pub proof fn law_first_failed_cue_stops_the_start(
    cues: Seq<AudioCueConfig>,
    outcomes: Seq<Option<PlaybackError>>,
    from: int,
)
    requires
        0 <= from <= cues.len(),
    ensures
        match startup::failed_cue(cues, outcomes, from) {
            Some(at) => {
                &&& from <= at < cues.len()
                &&& cues[at].kind == AudioCueKind::AudioFile
                &&& cues[at].source is Some
                &&& outcomes[at] is Some
                &&& forall|i: int|
                    from <= i < at ==> (#[trigger] cues[i]).kind == AudioCueKind::Speech
                        || cues[i].source is None || outcomes[i] is None
            },
            None => forall|i: int|
                from <= i < cues.len() ==> (#[trigger] cues[i]).kind == AudioCueKind::Speech
                    || cues[i].source is None || outcomes[i] is None,
        },
    decreases cues.len() - from,
{
    if from < cues.len() {
        law_first_failed_cue_stops_the_start(cues, outcomes, from + 1);
        assert(cues[from].kind == AudioCueKind::Speech || cues[from].kind
            == AudioCueKind::AudioFile);
    }
}

/// Why a server cannot start is told with the cue and the error.
pub proof fn law_startup_errors_are_told(error: ServerStartupError)
    ensures
        match error {
            ServerStartupError::AudioCuePreflight { cue_id, source } => error.message_text()
                == "audio cue '"@ + cue_id@ + "' failed decoder preflight: "@
                + source.message_text(),
            ServerStartupError::History(detail) => error.message_text()
                == "playback history could not be initialized: "@ + detail@,
            ServerStartupError::Playback(inner) => error.message_text() == inner.message_text(),
        },
{
}

/// The file could not be opened, for this reason.
pub open spec fn not_opened<F>(
    result: Result<PreparedAudio<F>, PlaybackError>,
    reason: Seq<char>,
) -> bool {
    &&& result is Err
    &&& result->Err_0 is OpenFile
    &&& result->Err_0->OpenFile_0@ == reason
}

/// A file is prepared only where it is regular and local behind all links, and is
/// the very file that was opened. The first question that has no good answer is
/// the reason otherwise.
pub proof fn law_opened_files_are_regular_and_local<F>(
    style: PathStyle,
    opened: OpenedAudio<F>,
    limit: Option<u128>,
    result: Result<PreparedAudio<F>, PlaybackError>,
)
    requires
        startup::opened_outcome(style, opened, limit, result),
    ensures
        result matches Ok(audio) ==> {
            &&& opened.is_regular == Ok::<bool, String>(true)
            &&& opened.is_local == Ok::<bool, String>(true)
            &&& opened.blocking is Ok
            &&& opened.final_path matches Ok(path) && crate::paths::local_absolute(style, path@)
            &&& audio.source_view() == PreparedAudioSource::File(opened.file)
            &&& audio.limit_view() == limit
            &&& crate::playback::audio::preflighted(
                opened.header@,
                opened.byte_length,
                opened.decoded,
                limit,
            ) == Ok::<crate::playback::audio::AudioInfo, PlaybackError>(audio.info_view())
        },
        opened.is_regular matches Err(reason) ==> not_opened(result, reason@),
        opened.is_regular == Ok::<bool, String>(false) ==> result is Err && result->Err_0
            is NotRegularFile,
        opened.is_regular == Ok::<bool, String>(true) ==> {
            &&& opened.final_path matches Err(reason) ==> not_opened(result, reason@)
            &&& opened.final_path matches Ok(path) ==> {
                let local = crate::paths::local_absolute(style, path@);
                &&& !local ==> not_opened(result, "network and device paths are not supported"@)
                &&& local && opened.is_local is Err ==> not_opened(
                    result,
                    opened.is_local->Err_0@,
                )
                &&& local && opened.is_local == Ok::<bool, String>(false) ==> not_opened(
                    result,
                    "network filesystems are not supported"@,
                )
                &&& local && opened.is_local == Ok::<bool, String>(true) && opened.blocking is Err
                    ==> not_opened(result, opened.blocking->Err_0@)
                &&& local && opened.is_local == Ok::<bool, String>(true) && opened.blocking is Ok
                    ==> match crate::playback::audio::preflighted(
                    opened.header@,
                    opened.byte_length,
                    opened.decoded,
                    limit,
                ) {
                    Err(error) => result is Err && result->Err_0 == error,
                    Ok(_) => result is Ok,
                }
            }
        },
{
}

/// The tools stand in the order of their names.
pub proof fn law_tools_are_in_order()
    ensures
        super::server::tool_names().len() == 7,
        super::server::tool_names()[0] == "cancel_playback"@,
        super::server::tool_names()[1] == "get_audio_capabilities"@,
        super::server::tool_names()[2] == "get_playback_status"@,
        super::server::tool_names()[3] == "list_audio_cues"@,
        super::server::tool_names()[4] == "play_audio_cue"@,
        super::server::tool_names()[5] == "play_audio_source"@,
        super::server::tool_names()[6] == "speak_text"@,
{
}

} // verus!
