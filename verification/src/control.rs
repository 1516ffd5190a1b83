//! Decisions of the optional authenticated loopback control channel.
use crate::ids::{id_text, parse_id};
use crate::playback::actor::{Cancellation, EmergencyStop, PlaybackState, PlaybackStatus};
use crate::playback::error::PlaybackError;
use crate::playback::job::PlaybackId;
use crate::private_file::constant_time_equal;
use crate::text::same_text;
use vstd::prelude::*;

verus! {

pub const CONTROL_SCHEMA_VERSION: u32 = 1;

pub const MAXIMUM_REQUEST_BYTES: u64 = 8_192;

pub const MAXIMUM_CONNECTIONS: usize = 16;

pub const REQUEST_TIMEOUT_SECONDS: u64 = 2;

/// What a client needs to reach the control channel.
#[derive(Debug)]
pub struct ControlDescriptor {
    pub schema_version: u32,
    pub session_id: String,
    pub host: String,
    pub port: u16,
    pub token: String,
}

impl ControlDescriptor {
    pub fn new(session: PlaybackId, host: String, port: u16, token: String) -> (descriptor: Self)
        ensures
            descriptor.schema_version == CONTROL_SCHEMA_VERSION,
            descriptor.session_id@ == crate::ids::hyphenated(session),
            descriptor.host == host,
            descriptor.port == port,
            descriptor.token == token,
    {
        ControlDescriptor {
            schema_version: CONTROL_SCHEMA_VERSION,
            session_id: id_text(session),
            host,
            port,
            token,
        }
    }
}

/// One request line.
#[derive(Debug)]
pub struct ControlRequest {
    pub token: String,
    pub method: String,
    pub playback_id: Option<String>,
}

/// One item of a snapshot.
#[derive(Debug, PartialEq, Eq)]
pub struct ControlItem {
    pub playback_id: String,
    pub status: String,
    pub terminal: bool,
    pub error_code: Option<String>,
}

/// What is answered to a request line.
#[derive(Debug, PartialEq, Eq)]
pub enum ControlResponse {
    Snapshot { session_id: String, items: Vec<ControlItem> },
    Cancellation { playback_id: String, status: String, terminal: bool, cancelled: bool },
    EmergencyStop { interrupted_items: usize },
    Error { code: String, message: String, retryable: bool },
}

impl ControlResponse {
    /// An error with this code, message and hint.
    pub open spec fn is_error(self, code: Seq<char>, message: Seq<char>, retryable: bool) -> bool {
        self matches ControlResponse::Error { code: held, message: said, retryable: again }
            && held@ == code && said@ == message && again == retryable
    }

    /// The answer to a request that makes no sense.
    pub open spec fn is_invalid_request(self) -> bool {
        self.is_error("invalid_request"@, "control request is invalid"@, false)
    }
}

/// What to do about a request.
#[derive(Debug)]
pub enum ControlAction {
    Snapshot,
    Cancel(PlaybackId),
    EmergencyStop,
    Respond(ControlResponse),
}

/// The name of a state.
pub open spec fn state_text(state: PlaybackState) -> Seq<char> {
    match state {
        PlaybackState::Accepted => "accepted"@,
        PlaybackState::Playing => "playing"@,
        PlaybackState::Completed => "completed"@,
        PlaybackState::Interrupted => "interrupted"@,
        PlaybackState::Failed => "failed"@,
    }
}

pub fn state_name(state: PlaybackState) -> (name: &'static str)
    ensures
        name@ == state_text(state),
{
    match state {
        PlaybackState::Accepted => "accepted",
        PlaybackState::Playing => "playing",
        PlaybackState::Completed => "completed",
        PlaybackState::Interrupted => "interrupted",
        PlaybackState::Failed => "failed",
    }
}

pub fn error_response(code: &str, message: &str, retryable: bool) -> (response: ControlResponse)
    ensures
        response.is_error(code@, message@, retryable),
{
    ControlResponse::Error { code: code.to_string(), message: message.to_string(), retryable }
}

/// The answer for a playback request that failed. No detail of the failure is
/// passed on.
pub open spec fn is_playback_error(response: ControlResponse, error: PlaybackError) -> bool {
    match error {
        PlaybackError::ActorBusy => response.is_error(
            "request_not_accepted"@,
            "playback service is busy; retry later"@,
            true,
        ),
        PlaybackError::ActorClosed => response.is_error(
            "playback_unavailable"@,
            "playback backend is unavailable"@,
            true,
        ),
        PlaybackError::Backend(_) => response.is_error(
            "playback_unavailable"@,
            "playback backend is unavailable"@,
            true,
        ),
        _ => response.is_error(
            "request_not_accepted"@,
            "playback request was not accepted"@,
            false,
        ),
    }
}

pub fn playback_error_response(error: &PlaybackError) -> (response: ControlResponse)
    ensures
        is_playback_error(response, *error),
{
    match error {
        PlaybackError::ActorBusy => error_response(
            "request_not_accepted",
            "playback service is busy; retry later",
            true,
        ),
        PlaybackError::ActorClosed | PlaybackError::Backend(_) => error_response(
            "playback_unavailable",
            "playback backend is unavailable",
            true,
        ),
        _ => error_response("request_not_accepted", "playback request was not accepted", false),
    }
}

/// What a request asks for.
pub open spec fn dispatched(request: ControlRequest, action: ControlAction) -> bool {
    match request.playback_id {
        None => if request.method@ == "snapshot"@ {
            action is Snapshot
        } else if request.method@ == "emergency_stop"@ {
            action is EmergencyStop
        } else {
            action matches ControlAction::Respond(response) && response.is_invalid_request()
        },
        Some(text) => if request.method@ == "cancel"@ {
            match crate::ids::parsed_id(text@) {
                Some(id) => action == ControlAction::Cancel(id),
                None => action matches ControlAction::Respond(response) && response.is_error(
                    "invalid_playback_id"@,
                    "playback_id must be a valid UUID"@,
                    false,
                ),
            }
        } else {
            action matches ControlAction::Respond(response) && response.is_invalid_request()
        },
    }
}

/// Find out what an authenticated request asks for.
pub fn dispatch(request: &ControlRequest) -> (action: ControlAction)
    ensures
        dispatched(*request, action),
        request.method@ == "cancel"@ ==> forall|id: PlaybackId|
            (request.playback_id matches Some(text) && text@ == #[trigger] crate::ids::hyphenated(
                id,
            )) ==> action == ControlAction::Cancel(id),
{
    match &request.playback_id {
        None => if same_text(request.method.as_str(), "snapshot") {
            ControlAction::Snapshot
        } else if same_text(request.method.as_str(), "emergency_stop") {
            ControlAction::EmergencyStop
        } else {
            ControlAction::Respond(
                error_response("invalid_request", "control request is invalid", false),
            )
        },
        Some(text) => if same_text(request.method.as_str(), "cancel") {
            match parse_id(text.as_str()) {
                Some(id) => ControlAction::Cancel(id),
                None => ControlAction::Respond(
                    error_response(
                        "invalid_playback_id",
                        "playback_id must be a valid UUID",
                        false,
                    ),
                ),
            }
        } else {
            ControlAction::Respond(
                error_response("invalid_request", "control request is invalid", false),
            )
        },
    }
}

/// What is done about a request line of `length` bytes, read as `request` where
/// it is one. Only the right token gets anything done.
pub open spec fn decided(
    length: u64,
    request: Option<ControlRequest>,
    expected_token: Seq<char>,
    action: ControlAction,
) -> bool {
    if length == 0 || length > MAXIMUM_REQUEST_BYTES {
        action matches ControlAction::Respond(response) && response.is_invalid_request()
    } else {
        match request {
            None => action matches ControlAction::Respond(response)
                && response.is_invalid_request(),
            Some(request) => if request.token@ == expected_token {
                dispatched(request, action)
            } else {
                action matches ControlAction::Respond(response) && response.is_error(
                    "permission_denied"@,
                    "control token is invalid"@,
                    false,
                )
            },
        }
    }
}

/// Decide about a request line.
pub fn decide(length: u64, request: &Option<ControlRequest>, expected_token: &str) -> (action:
    ControlAction)
    ensures
        decided(length, *request, expected_token@, action),
{
    if length == 0 || length > MAXIMUM_REQUEST_BYTES {
        return ControlAction::Respond(
            error_response("invalid_request", "control request is invalid", false),
        );
    }
    match request {
        None => ControlAction::Respond(
            error_response("invalid_request", "control request is invalid", false),
        ),
        Some(request) => if constant_time_equal(request.token.as_str(), expected_token) {
            dispatch(request)
        } else {
            ControlAction::Respond(
                error_response("permission_denied", "control token is invalid", false),
            )
        },
    }
}

/// What is shown of a status: its identifier and state, and a fixed code where
/// it failed.
pub open spec fn shows_status(item: ControlItem, status: PlaybackStatus) -> bool {
    &&& item.playback_id@ == crate::ids::hyphenated(status.playback_id)
    &&& item.status@ == state_text(status.state)
    &&& item.terminal == status.state.ended()
    &&& match item.error_code {
        Some(code) => status.state is Failed && code@ == "playback_unavailable"@,
        None => !(status.state is Failed),
    }
}

/// Answer a snapshot request.
pub fn snapshot_response(session_id: &str, result: &Result<Vec<PlaybackStatus>, PlaybackError>) -> (
response: ControlResponse)
    ensures
        match result {
            Ok(statuses) => {
                &&& response matches ControlResponse::Snapshot { session_id: session, items }
                &&& session@ == session_id@
                &&& items@.len() == statuses@.len()
                &&& forall|i: int|
                    0 <= i < items@.len() ==> shows_status(#[trigger] items@[i], statuses@[i])
            },
            Err(error) => is_playback_error(response, *error),
        },
{
    match result {
        Err(error) => playback_error_response(error),
        Ok(statuses) => {
            let mut items: Vec<ControlItem> = Vec::new();
            let mut i: usize = 0;
            while i < statuses.len()
                invariant
                    i <= statuses@.len(),
                    items@.len() == i,
                    forall|j: int|
                        0 <= j < i ==> shows_status(#[trigger] items@[j], statuses@[j]),
                decreases statuses@.len() - i,
            {
                let status: PlaybackStatus = statuses[i];
                let error_code = match status.state {
                    PlaybackState::Failed => Some("playback_unavailable".to_string()),
                    _ => None,
                };
                items.push(
                    ControlItem {
                        playback_id: id_text(status.playback_id),
                        status: state_name(status.state).to_string(),
                        terminal: status.state.is_terminal(),
                        error_code,
                    },
                );
                i += 1;
            }
            ControlResponse::Snapshot { session_id: session_id.to_string(), items }
        },
    }
}

/// Answer a cancellation request.
pub fn cancellation_response(result: &Result<Option<Cancellation>, PlaybackError>) -> (response:
    ControlResponse)
    ensures
        match result {
            Ok(Some(done)) => {
                &&& response matches ControlResponse::Cancellation {
                    playback_id,
                    status,
                    terminal,
                    cancelled,
                }
                &&& playback_id@ == crate::ids::hyphenated(done.playback_id)
                &&& status@ == state_text(done.state)
                &&& terminal == done.state.ended()
                &&& cancelled == done.cancelled
            },
            Ok(None) => response.is_error(
                "unknown_playback_id"@,
                "playback ID is not known or is no longer retained"@,
                false,
            ),
            Err(error) => is_playback_error(response, *error),
        },
{
    match result {
        Ok(Some(done)) => ControlResponse::Cancellation {
            playback_id: id_text(done.playback_id),
            status: state_name(done.state).to_string(),
            terminal: done.state.is_terminal(),
            cancelled: done.cancelled,
        },
        Ok(None) => error_response(
            "unknown_playback_id",
            "playback ID is not known or is no longer retained",
            false,
        ),
        Err(error) => playback_error_response(error),
    }
}

/// Answer an emergency stop.
pub fn emergency_stop_response(result: &Result<EmergencyStop, PlaybackError>) -> (response:
    ControlResponse)
    ensures
        match result {
            Ok(stop) => response matches ControlResponse::EmergencyStop { interrupted_items }
                && interrupted_items == stop.interrupted_items,
            Err(error) => is_playback_error(response, *error),
        },
{
    match result {
        Ok(stop) => ControlResponse::EmergencyStop { interrupted_items: stop.interrupted_items },
        Err(error) => playback_error_response(error),
    }
}

/// A request without the right token never reaches playback, whatever it asks
/// for.
pub proof fn law_wrong_token_is_refused(
    length: u64,
    request: ControlRequest,
    expected_token: Seq<char>,
    action: ControlAction,
)
    requires
        request.token@ != expected_token,
        decided(length, Some(request), expected_token, action),
    ensures
        action is Respond,
        action->Respond_0 is Error,
{
}

/// Two items shown alike have the same identifier, state and outcome: a snapshot
/// tells nothing else of an item, and what was spoken least of all.
pub proof fn law_snapshot_items_are_sanitized(
    a: ControlItem,
    b: ControlItem,
    status: PlaybackStatus,
)
    requires
        shows_status(a, status),
        shows_status(b, status),
    ensures
        a.playback_id@ == b.playback_id@,
        a.status@ == b.status@,
        a.terminal == b.terminal,
        a.error_code is Some == b.error_code is Some,
        a.error_code matches Some(code) ==> code@ == "playback_unavailable"@,
{
}

} // verus!
