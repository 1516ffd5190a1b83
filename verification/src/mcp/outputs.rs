//! What the tools answer about accepted items.
use super::failure::ToolFailure;
use crate::config::model::AudioCueSummary;
use crate::control::state_name;
use crate::history::timestamp;
use crate::ids::{id_text, parse_id};
use crate::playback::actor::{Acceptance, Cancellation, PlaybackState, PlaybackStatus};
use crate::playback::error::PlaybackError;
use crate::playback::job::{ConcurrencyMode, PlaybackId};
use vstd::prelude::*;

verus! {

#[derive(Debug)]
pub struct AcceptanceOutput {
    pub playback_id: String,
    pub status: &'static str,
    pub accepted_at: String,
}

#[derive(Debug)]
pub struct PlaybackStatusOutput {
    pub playback_id: String,
    pub status: &'static str,
    pub terminal: bool,
    pub error_code: Option<&'static str>,
}

#[derive(Debug)]
pub struct CancellationOutput {
    pub playback_id: String,
    pub status: &'static str,
    pub terminal: bool,
    pub cancelled: bool,
}

#[derive(Debug)]
pub struct AudioCueListOutput {
    pub audio_cues: Vec<AudioCueSummary>,
}

/// The name of a way to start.
pub open spec fn mode_text(mode: ConcurrencyMode) -> Seq<char> {
    match mode {
        ConcurrencyMode::Enqueue => "enqueue"@,
        ConcurrencyMode::Interrupt => "interrupt"@,
        ConcurrencyMode::Mix => "mix"@,
    }
}

pub fn concurrency_name(mode: ConcurrencyMode) -> (name: &'static str)
    ensures
        name@ == mode_text(mode),
{
    match mode {
        ConcurrencyMode::Enqueue => "enqueue",
        ConcurrencyMode::Interrupt => "interrupt",
        ConcurrencyMode::Mix => "mix",
    }
}

pub fn playback_state_name(state: PlaybackState) -> (name: &'static str)
    ensures
        name@ == crate::control::state_text(state),
{
    state_name(state)
}

/// Read a playback identifier that a client sent.
pub fn parse_playback_id(value: &str) -> (result: Result<PlaybackId, ToolFailure>)
    ensures
        match result {
            Ok(id) => crate::ids::parsed_id(value@) == Some(id),
            Err(refusal) => crate::ids::parsed_id(value@) is None && refusal@
                == super::failure::failure(
                "invalid_playback_id"@,
                "playback_id must be a valid UUID returned by a playback tool"@,
                false,
            ),
        },
        forall|id: PlaybackId|
            value@ == #[trigger] crate::ids::hyphenated(id) ==> result == Ok::<
                PlaybackId,
                ToolFailure,
            >(id),
{
    match parse_id(value) {
        Some(id) => Ok(id),
        None => Err(
            ToolFailure::new(
                "invalid_playback_id",
                "playback_id must be a valid UUID returned by a playback tool",
                false,
            ),
        ),
    }
}

/// The answer about an item that is not known.
pub open spec fn unknown_id_failure() -> super::failure::FailureModel {
    super::failure::failure(
        "unknown_playback_id"@,
        "playback ID is not known to this server or is no longer retained"@,
        false,
    )
}

pub fn unknown_playback_id() -> (refusal: ToolFailure)
    ensures
        refusal@ == unknown_id_failure(),
{
    ToolFailure::new(
        "unknown_playback_id",
        "playback ID is not known to this server or is no longer retained",
        false,
    )
}

/// Answer a cancellation.
pub fn cancellation_output(result: &Result<Option<Cancellation>, PlaybackError>) -> (output: Result<
    CancellationOutput,
    ToolFailure,
>)
    ensures
        match (result, output) {
            (Ok(Some(done)), Ok(shown)) => {
                &&& shown.playback_id@ == crate::ids::hyphenated(done.playback_id)
                &&& shown.status@ == crate::control::state_text(done.state)
                &&& shown.terminal == done.state.ended()
                &&& shown.cancelled == done.cancelled
            },
            (Ok(None), Err(refusal)) => refusal@ == unknown_id_failure(),
            (Err(error), Err(refusal)) => refusal@ == super::failure::playback_failure(*error),
            _ => false,
        },
{
    match result {
        Ok(Some(done)) => Ok(
            CancellationOutput {
                playback_id: id_text(done.playback_id),
                status: playback_state_name(done.state),
                terminal: done.state.is_terminal(),
                cancelled: done.cancelled,
            },
        ),
        Ok(None) => Err(unknown_playback_id()),
        Err(error) => Err(ToolFailure::from_playback(error)),
    }
}

/// What is shown of a status.
pub open spec fn shows_status(shown: PlaybackStatusOutput, status: PlaybackStatus) -> bool {
    &&& shown.playback_id@ == crate::ids::hyphenated(status.playback_id)
    &&& shown.status@ == crate::control::state_text(status.state)
    &&& shown.terminal == status.state.ended()
    &&& match shown.error_code {
        Some(code) => status.state is Failed && code@ == "playback_unavailable"@,
        None => !(status.state is Failed),
    }
}

/// Answer a question about an item.
pub fn status_output(result: &Result<Option<PlaybackStatus>, PlaybackError>) -> (output: Result<
    PlaybackStatusOutput,
    ToolFailure,
>)
    ensures
        match (result, output) {
            (Ok(Some(status)), Ok(shown)) => shows_status(shown, *status),
            (Ok(None), Err(refusal)) => refusal@ == unknown_id_failure(),
            (Err(error), Err(refusal)) => refusal@ == super::failure::playback_failure(*error),
            _ => false,
        },
{
    match result {
        Ok(Some(status)) => {
            let error_code = match status.state {
                PlaybackState::Failed => Some("playback_unavailable"),
                _ => None,
            };
            Ok(
                PlaybackStatusOutput {
                    playback_id: id_text(status.playback_id),
                    status: playback_state_name(status.state),
                    terminal: status.state.is_terminal(),
                    error_code,
                },
            )
        },
        Ok(None) => Err(unknown_playback_id()),
        Err(error) => Err(ToolFailure::from_playback(error)),
    }
}

/// What is answered to a request that the actor has decided about.
pub open spec fn answers_submission(
    result: Result<Acceptance, PlaybackError>,
    accepted_at: Seq<char>,
    output: Result<AcceptanceOutput, ToolFailure>,
) -> bool {
    match (result, output) {
        (Ok(accepted), Ok(shown)) => {
            &&& shown.playback_id@ == crate::ids::hyphenated(accepted.playback_id)
            &&& shown.status@ == "accepted"@
            &&& shown.accepted_at@ == accepted_at
        },
        (Err(error), Err(refusal)) => refusal@ == super::failure::playback_failure(error),
        _ => false,
    }
}

/// Answer a request that the actor decided about at the given time.
pub fn acceptance_output_at(
    result: &Result<Acceptance, PlaybackError>,
    accepted_at: String,
) -> (output: Result<AcceptanceOutput, ToolFailure>)
    ensures
        answers_submission(*result, accepted_at@, output),
{
    match result {
        Ok(accepted) => Ok(
            AcceptanceOutput {
                playback_id: id_text(accepted.playback_id),
                status: "accepted",
                accepted_at,
            },
        ),
        Err(error) => Err(ToolFailure::from_playback(error)),
    }
}

/// Answer a request that the actor has just decided about.
pub fn acceptance_output(result: &Result<Acceptance, PlaybackError>) -> (output: Result<
    AcceptanceOutput,
    ToolFailure,
>)
    ensures
        exists|now: Seq<char>|
            (crate::history::is_utc_time(now) || now == "unknown"@) && #[trigger]
            answers_submission(*result, now, output),
{
    let now = timestamp();
    let ghost text = now@;
    let output = acceptance_output_at(result, now);
    assert(answers_submission(*result, text, output));
    output
}

} // verus!
