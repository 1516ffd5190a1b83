//! What the control channel, the HTTP transport and the history say.
use crate::control;
use crate::control::{ControlAction, ControlItem, ControlRequest, ControlResponse};
use crate::history;
use crate::history::{HistoryMetadata, HistoryRecord};
use crate::ids;
use crate::paths::PathStyle;
use crate::playback::actor::{LifecycleEvent, PlaybackState, PlaybackStatus};
use crate::playback::error::PlaybackError;
use crate::playback::job::PlaybackId;
use crate::private_file;
use crate::private_file::ParentDirectory;
use vstd::prelude::*;

verus! {

// The control channel.

/// The request is answered at once, with this error.
pub open spec fn answered(
    action: ControlAction,
    code: Seq<char>,
    message: Seq<char>,
    retryable: bool,
) -> bool {
    action matches ControlAction::Respond(response) && errs(response, code, message, retryable)
}

/// The response is this error.
pub open spec fn errs(
    response: ControlResponse,
    code: Seq<char>,
    message: Seq<char>,
    retryable: bool,
) -> bool {
    &&& response is Error
    &&& response->code@ == code
    &&& response->message@ == message
    &&& response->Error_retryable == retryable
}

/// A line of one to 8192 bytes that is a request with the right token is done: a
/// snapshot and an emergency stop name no item, and a cancellation names one by an
/// identifier. Anything else is answered with an error and nothing is done.
pub proof fn law_control_requests_are_done(
    length: u64,
    request: Option<ControlRequest>,
    token: Seq<char>,
    action: ControlAction,
)
    requires
        control::decided(length, request, token, action),
    ensures
        length == 0 || length > 8192 || request is None ==> answered(
            action,
            "invalid_request"@,
            "control request is invalid"@,
            false,
        ),
        request matches Some(asked) ==> 0 < length <= 8192 ==> {
            &&& asked.token@ != token ==> answered(
                action,
                "permission_denied"@,
                "control token is invalid"@,
                false,
            )
            &&& asked.token@ == token && asked.playback_id is None ==> {
                &&& asked.method@ == "snapshot"@ ==> action is Snapshot
                &&& asked.method@ == "emergency_stop"@ ==> action is EmergencyStop
                &&& asked.method@ != "snapshot"@ && asked.method@ != "emergency_stop"@ ==> answered(
                    action,
                    "invalid_request"@,
                    "control request is invalid"@,
                    false,
                )
            }
            &&& asked.token@ == token && asked.playback_id is Some ==> {
                let named = ids::parsed_id(asked.playback_id.unwrap()@);
                &&& asked.method@ == "cancel"@ && named is Some ==> action
                    == ControlAction::Cancel(named.unwrap())
                &&& asked.method@ == "cancel"@ && named is None ==> answered(
                    action,
                    "invalid_playback_id"@,
                    "playback_id must be a valid UUID"@,
                    false,
                )
                &&& asked.method@ != "cancel"@ ==> answered(
                    action,
                    "invalid_request"@,
                    "control request is invalid"@,
                    false,
                )
            }
        },
{
    reveal_strlit("snapshot");
    reveal_strlit("emergency_stop");
    assert("snapshot"@.len() != "emergency_stop"@.len());
}

/// Each state has its own name.
pub proof fn law_states_are_named()
    ensures
        control::state_text(PlaybackState::Accepted) == "accepted"@,
        control::state_text(PlaybackState::Playing) == "playing"@,
        control::state_text(PlaybackState::Completed) == "completed"@,
        control::state_text(PlaybackState::Interrupted) == "interrupted"@,
        control::state_text(PlaybackState::Failed) == "failed"@,
{
}

/// An item is shown with its own identifier and state; it is terminal where it has
/// completed, was interrupted or failed, and has a code only where it failed.
pub proof fn law_control_items_are_shown_as_they_are(item: ControlItem, status: PlaybackStatus)
    ensures
        control::shows_status(item, status) <==> {
            &&& item.playback_id@ == ids::hyphenated(status.playback_id)
            &&& item.status@ == control::state_text(status.state)
            &&& item.terminal <==> (status.state is Completed || status.state is Interrupted
                || status.state is Failed)
            &&& item.error_code is Some <==> status.state is Failed
            &&& item.error_code matches Some(code) ==> code@ == "playback_unavailable"@
        },
{
}

/// A failed playback request is answered by what kind of error it is: only a busy
/// or an unavailable service is worth another try.
pub proof fn law_control_failures_are_answered(response: ControlResponse, error: PlaybackError)
    requires
        control::is_playback_error(response, error),
    ensures
        error is ActorBusy ==> errs(
            response,
            "request_not_accepted"@,
            "playback service is busy; retry later"@,
            true,
        ),
        error is ActorClosed || error is Backend ==> errs(
            response,
            "playback_unavailable"@,
            "playback backend is unavailable"@,
            true,
        ),
        !(error is ActorBusy || error is ActorClosed || error is Backend) ==> errs(
            response,
            "request_not_accepted"@,
            "playback request was not accepted"@,
            false,
        ),
{
}

// The HTTP transport.

/// Exactly one header with the bytes of `Bearer` in any case, a space and the
/// token is accepted; the token matches character by character, and every byte can
/// be read.
pub proof fn law_credentials_are_matched_exactly(values: Seq<Seq<u8>>, token: Seq<char>)
    ensures
        crate::http::accepted(values, token) <==> {
            &&& values.len() == 1
            &&& values[0].len() == token.len() + 7
            &&& values[0][0] == 0x62 || values[0][0] == 0x42
            &&& values[0][1] == 0x65 || values[0][1] == 0x45
            &&& values[0][2] == 0x61 || values[0][2] == 0x41
            &&& values[0][3] == 0x72 || values[0][3] == 0x52
            &&& values[0][4] == 0x65 || values[0][4] == 0x45
            &&& values[0][5] == 0x72 || values[0][5] == 0x52
            &&& values[0][6] == 0x20
            &&& forall|i: int|
                0 <= i < token.len() ==> #[trigger] token[i] == values[0][i + 7] as char
            &&& forall|i: int|
                0 <= i < values[0].len() ==> 0x20 <= #[trigger] values[0][i] <= 0x7e
                    || values[0][i] == 0x09
        },
{
    if values.len() == 1 {
        let value = values[0];
        let read = Seq::new(value.len(), |i: int| value[i] as char);
        if value.len() == token.len() + 7 {
            if forall|i: int|
                0 <= i < token.len() ==> #[trigger] token[i] == value[i + 7] as char {
                assert(read.skip(7) =~= token);
            }
        }
        if crate::http::accepted(values, token) {
            assert(crate::http::header_text(value) == Some(read));
            assert(read.skip(7) == token);
            assert forall|i: int| 0 <= i < token.len() implies #[trigger] token[i]
                == value[i + 7] as char by {
                assert(read.skip(7)[i] == read[i + 7]);
            }
        }
    }
}

// Identifiers and tokens.

/// The value of a hexadecimal digit.
pub open spec fn digit_value(c: char) -> int {
    if '0' <= c <= '9' {
        c as int - '0' as int
    } else {
        c as int - 'a' as int + 10
    }
}

/// The number that hexadecimal digits stand for.
pub open spec fn number_of(digits: Seq<char>) -> int
    decreases digits.len(),
{
    if digits.len() == 0 {
        0
    } else {
        16 * number_of(digits.drop_last()) + digit_value(digits.last())
    }
}

/// A small hexadecimal digit.
pub open spec fn hexadecimal(c: char) -> bool {
    '0' <= c <= '9' || 'a' <= c <= 'f'
}

/// Hexadecimal digits read back as the number they were made of.
pub proof fn law_hexadecimal_reads_back(value: nat, count: nat)
    ensures
        ids::hex_digits(value, count).len() == count,
        number_of(ids::hex_digits(value, count)) == value as int % vstd::arithmetic::power::pow(
            16,
            count,
        ),
        forall|i: int|
            0 <= i < count ==> hexadecimal(#[trigger] ids::hex_digits(value, count)[i]),
    decreases count,
{
    vstd::arithmetic::power::lemma_pow0(16);
    let digits = ids::hex_digits(value, count);
    if count > 0 {
        let fewer = (count - 1) as nat;
        law_hexadecimal_reads_back(value / 16, fewer);
        assert(digits.drop_last() =~= ids::hex_digits(value / 16, fewer));
        let p = vstd::arithmetic::power::pow(16, fewer);
        vstd::arithmetic::power::lemma_pow_positive(16, fewer);
        vstd::arithmetic::power::lemma_pow1(16);
        vstd::arithmetic::power::lemma_pow_adds(16, 1, fewer);
        vstd::arithmetic::div_mod::lemma_mod_breakdown(value as int, 16, p);
        assert(digit_value(digits.last()) == value % 16);
    }
}

/// An identifier has 32 digits in five groups, with hyphens between them.
pub proof fn law_identifiers_are_grouped(id: PlaybackId)
    ensures
        ids::hyphenated(id).len() == 36,
        forall|i: int|
            0 <= i < 36 ==> {
                let c = #[trigger] ids::hyphenated(id)[i];
                let digits = ids::hex_digits(id as nat, 32);
                if i == 8 || i == 13 || i == 18 || i == 23 {
                    c == '-'
                } else if i < 8 {
                    c == digits[i]
                } else if i < 13 {
                    c == digits[i - 1]
                } else if i < 18 {
                    c == digits[i - 2]
                } else if i < 23 {
                    c == digits[i - 3]
                } else {
                    c == digits[i - 4]
                }
            },
{
    law_hexadecimal_reads_back(id as nat, 32);
}

/// Two digits that stand for a byte, the high half first.
pub open spec fn stand_for(high: char, low: char, byte: u8) -> bool {
    hexadecimal(high) && hexadecimal(low) && 16 * digit_value(high) + digit_value(low) == byte
}

/// A token has two digits for each byte, the high half first.
pub proof fn law_tokens_read_back(bytes: Seq<u8>, i: int)
    requires
        0 <= i < bytes.len(),
    ensures
        private_file::hex_text(bytes).len() == 2 * bytes.len(),
        stand_for(
            private_file::hex_text(bytes)[2 * i],
            private_file::hex_text(bytes)[2 * i + 1],
            bytes[i],
        ),
    decreases bytes.len(),
{
    private_file::law_token_is_fixed_length_hex(bytes);
    let fewer = bytes.drop_last();
    private_file::law_token_is_fixed_length_hex(fewer);
    let written = private_file::hex_text(bytes);
    if i < fewer.len() {
        law_tokens_read_back(fewer, i);
        assert(written[2 * i] == private_file::hex_text(fewer)[2 * i]);
        assert(written[2 * i + 1] == private_file::hex_text(fewer)[2 * i + 1]);
    } else {
        let byte = bytes.last();
        assert(written[2 * i] == ids::hex_digit(byte as nat / 16));
        assert(written[2 * i + 1] == ids::hex_digit(byte as nat % 16));
        assert(digit_value(ids::hex_digit(byte as nat / 16)) == byte as nat / 16);
        assert(digit_value(ids::hex_digit(byte as nat % 16)) == byte as nat % 16);
    }
}

/// A descriptor is written to an absolute path in a directory that exists, and the
/// first thing that stands against it is told.
pub proof fn law_descriptors_need_a_place(
    style: PathStyle,
    path: Seq<char>,
    parent: ParentDirectory,
    label: Seq<char>,
)
    ensures
        private_file::descriptor_path_fault(style, path, parent) is None
            <==> crate::paths::absolute(style, path) && parent is Present,
        private_file::descriptor_path_fault(style, path, parent) matches Some(fault)
            ==> fault.message_text(label) == label + (if !crate::paths::absolute(style, path) {
            " descriptor path must be absolute"@
        } else if parent is Nowhere {
            " descriptor path has no parent directory"@
        } else {
            " descriptor parent directory does not exist"@
        }),
{
}

// The history.

/// A record tells of its own item: what was remembered at submission, the state
/// that it has reached, what was spoken with the acceptance only, and a code only
/// with an error.
pub proof fn law_records_tell_of_their_item(
    record: HistoryRecord,
    event: LifecycleEvent,
    metadata: HistoryMetadata,
    timestamp: Seq<char>,
)
    ensures
        record.records(event, metadata, timestamp) <==> {
            &&& record.timestamp@ == timestamp
            &&& record.playback_id@ == ids::hyphenated(event.playback_id)
            &&& record.state@ == control::state_text(event.state)
            &&& record.tool == metadata.tool
            &&& record.source_kind == metadata.source_kind
            &&& record.cue_id == metadata.cue_id
            &&& record.gain == metadata.gain
            &&& record.concurrency == metadata.concurrency
            &&& record.output_target == metadata.output_target
            &&& event.state == PlaybackState::Accepted ==> record.spoken_text
                == metadata.spoken_text
            &&& event.state != PlaybackState::Accepted ==> record.spoken_text is None
            &&& record.error_code is Some <==> event.error is Some
            &&& record.error_code matches Some(code) ==> code@ == "playback_unavailable"@
        },
{
}

/// A time in UTC has its digits and marks where RFC 3339 has them.
pub proof fn law_times_are_written_in_full(time: Seq<char>)
    requires
        history::is_utc_time(time),
    ensures
        time.len() == 20 || 22 <= time.len() <= 30,
        time[4] == '-' && time[7] == '-' && time[10] == 'T' && time[13] == ':' && time[16] == ':',
        time.last() == 'Z',
        time.len() > 20 ==> time[19] == '.',
        forall|i: int|
            0 <= i < time.len() - 1 && i != 4 && i != 7 && i != 10 && i != 13 && i != 16 && i != 19
                ==> '0' <= #[trigger] time[i] <= '9',
{
}

} // verus!
