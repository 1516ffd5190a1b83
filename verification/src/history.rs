//! Playback history records.
use crate::control::state_name;
use crate::gain::Gain;
use crate::ids::id_text;
use crate::playback::actor::{Acceptance, LifecycleEvent, PlaybackState};
use crate::playback::error::PlaybackError;
use crate::playback::job::PlaybackId;
use std::collections::HashMap;
use vstd::prelude::*;

verus! {

broadcast use vstd::std_specs::hash::group_hash_axioms;

/// How many records wait for the writer.
pub const WRITER_QUEUE_ITEMS: usize = 1_024;

/// What is remembered of a submitted item until it has ended.
#[derive(Debug)]
pub struct HistoryMetadata {
    pub tool: String,
    pub source_kind: String,
    pub cue_id: Option<String>,
    pub gain: Gain,
    pub concurrency: String,
    pub output_target: String,
    pub spoken_text: Option<String>,
}

fn copy_optional(text: &Option<String>) -> (copy: Option<String>)
    ensures
        copy == *text,
{
    match text {
        Some(text) => Some(text.clone()),
        None => None,
    }
}

impl Clone for HistoryMetadata {
    fn clone(&self) -> (copy: Self)
        ensures
            copy == *self,
    {
        HistoryMetadata {
            tool: self.tool.clone(),
            source_kind: self.source_kind.clone(),
            cue_id: copy_optional(&self.cue_id),
            gain: self.gain,
            concurrency: self.concurrency.clone(),
            output_target: self.output_target.clone(),
            spoken_text: copy_optional(&self.spoken_text),
        }
    }
}

/// One line of the history.
#[derive(Debug, PartialEq, Eq)]
pub struct HistoryRecord {
    pub timestamp: String,
    pub playback_id: String,
    pub state: String,
    pub tool: String,
    pub source_kind: String,
    pub cue_id: Option<String>,
    pub gain: Gain,
    pub concurrency: String,
    pub output_target: String,
    pub spoken_text: Option<String>,
    pub error_code: Option<String>,
}

impl HistoryRecord {
    /// What is written of an event: spoken text only with the acceptance, and a
    /// fixed code in place of an error.
    pub open spec fn records(
        self,
        event: LifecycleEvent,
        metadata: HistoryMetadata,
        timestamp: Seq<char>,
    ) -> bool {
        &&& self.timestamp@ == timestamp
        &&& self.playback_id@ == crate::ids::hyphenated(event.playback_id)
        &&& self.state@ == crate::control::state_text(event.state)
        &&& self.tool == metadata.tool
        &&& self.source_kind == metadata.source_kind
        &&& self.cue_id == metadata.cue_id
        &&& self.gain == metadata.gain
        &&& self.concurrency == metadata.concurrency
        &&& self.output_target == metadata.output_target
        &&& self.spoken_text == if event.state is Accepted {
            metadata.spoken_text
        } else {
            None
        }
        &&& match self.error_code {
            Some(code) => event.error is Some && code@ == "playback_unavailable"@,
            None => event.error is None,
        }
    }
}

/// A time in UTC as RFC 3339 writes it: date and time in digits, up to nine digits
/// of a second where there are any, and a `Z`.
pub open spec fn is_utc_time(text: Seq<char>) -> bool {
    &&& text.len() == 20 || 22 <= text.len() <= 30
    &&& forall|i: int|
        0 <= i < text.len() ==> is_utc_time_character(#[trigger] text[i], i, text.len())
}

/// The character at a place of such a text of `length` characters.
pub open spec fn is_utc_time_character(c: char, place: int, length: nat) -> bool {
    if place == length - 1 {
        c == 'Z'
    } else if place == 4 || place == 7 {
        c == '-'
    } else if place == 10 {
        c == 'T'
    } else if place == 13 || place == 16 {
        c == ':'
    } else if place == 19 {
        c == '.'
    } else {
        crate::text::ascii_digit(c)
    }
}

/// `time::OffsetDateTime::now_utc`, formatted as RFC 3339: the form of the text,
/// where there is one. What the clock says is not known beforehand, so nothing is
/// stated of the digits. A clock that stands outside the years that `time` can hold
/// is not provided for.
#[verifier::external_body]
fn utc_now() -> (text: Option<String>)
    ensures
        text matches Some(time) ==> is_utc_time(time@),
{
    time::OffsetDateTime::now_utc().format(&time::format_description::well_known::Rfc3339).ok()
}

/// The text of a time, where there is one.
pub fn timestamp_text(formatted: Option<String>) -> (text: String)
    ensures
        text@ == match formatted {
            Some(time) => time@,
            None => "unknown"@,
        },
{
    match formatted {
        Some(time) => time,
        None => "unknown".to_string(),
    }
}

/// The current time in UTC, or that it is unknown.
pub(crate) fn timestamp() -> (text: String)
    ensures
        is_utc_time(text@) || text@ == "unknown"@,
{
    timestamp_text(utc_now())
}

/// Items whose end is not yet recorded.
pub struct HistoryTracker {
    pending: HashMap<PlaybackId, HistoryMetadata>,
}

impl HistoryTracker {
    /// The items whose end is waited for.
    pub closed spec fn waiting(&self) -> Map<PlaybackId, HistoryMetadata> {
        self.pending@
    }

    pub fn new() -> (tracker: Self)
        ensures
            tracker.waiting() == Map::<PlaybackId, HistoryMetadata>::empty(),
    {
        HistoryTracker { pending: HashMap::new() }
    }

    /// Remember an item that is about to be submitted.
    pub fn track(&mut self, playback_id: PlaybackId, metadata: HistoryMetadata)
        ensures
            final(self).waiting() == old(self).waiting().insert(playback_id, metadata),
    {
        self.pending.insert(playback_id, metadata);
    }

    /// Forget an item that was not accepted.
    pub fn forget(&mut self, playback_id: PlaybackId)
        ensures
            final(self).waiting() == old(self).waiting().remove(playback_id),
    {
        self.pending.remove(&playback_id);
    }

    /// Take note of how a submission was answered: an item that was refused is
    /// forgotten.
    pub fn settle(&mut self, playback_id: PlaybackId, answer: &Result<Acceptance, PlaybackError>)
        ensures
            final(self).waiting() == match answer {
                Ok(_) => old(self).waiting(),
                Err(_) => old(self).waiting().remove(playback_id),
            },
    {
        if answer.is_err() {
            self.forget(playback_id);
        }
    }

    /// The record of an event that happens now.
    pub fn forward(&mut self, event: &LifecycleEvent) -> (record: Option<HistoryRecord>)
        ensures
            final(self).waiting() == if event.state.ended() {
                old(self).waiting().remove(event.playback_id)
            } else {
                old(self).waiting()
            },
            match record {
                Some(record) => old(self).waiting().contains_key(event.playback_id)
                    && record.records(
                    *event,
                    old(self).waiting()[event.playback_id],
                    record.timestamp@,
                ) && (is_utc_time(record.timestamp@) || record.timestamp@ == "unknown"@),
                None => !old(self).waiting().contains_key(event.playback_id),
            },
    {
        self.forward_at(event, timestamp())
    }

    /// The record of an event, for an item that is waited for. An item that has ended is no
    /// longer waited for.
    pub fn forward_at(&mut self, event: &LifecycleEvent, timestamp: String) -> (record: Option<
        HistoryRecord,
    >)
        ensures
            final(self).waiting() == if event.state.ended() {
                old(self).waiting().remove(event.playback_id)
            } else {
                old(self).waiting()
            },
            match record {
                Some(record) => old(self).waiting().contains_key(event.playback_id)
                    && record.records(
                    *event,
                    old(self).waiting()[event.playback_id],
                    timestamp@,
                ),
                None => !old(self).waiting().contains_key(event.playback_id),
            },
    {
        let metadata: Option<HistoryMetadata> = if event.state.is_terminal() {
            self.pending.remove(&event.playback_id)
        } else {
            match self.pending.get(&event.playback_id) {
                Some(metadata) => Some(metadata.clone()),
                None => None,
            }
        };
        match metadata {
            None => {
                assert(self.waiting() =~= if event.state.ended() {
                    old(self).waiting().remove(event.playback_id)
                } else {
                    old(self).waiting()
                });
                None
            },
            Some(metadata) => {
                let spoken_text = match event.state {
                    PlaybackState::Accepted => metadata.spoken_text,
                    _ => None,
                };
                let error_code = match &event.error {
                    Some(_) => Some("playback_unavailable".to_string()),
                    None => None,
                };
                Some(
                    HistoryRecord {
                        timestamp,
                        playback_id: id_text(event.playback_id),
                        state: state_name(event.state).to_string(),
                        tool: metadata.tool,
                        source_kind: metadata.source_kind,
                        cue_id: metadata.cue_id,
                        gain: metadata.gain,
                        concurrency: metadata.concurrency,
                        output_target: metadata.output_target,
                        spoken_text,
                        error_code,
                    },
                )
            },
        }
    }
}

/// A refused submission leaves nothing behind: after it the same items are waited
/// for as before the item was remembered.
pub proof fn law_refused_item_leaves_no_trace(
    before: Map<PlaybackId, HistoryMetadata>,
    playback_id: PlaybackId,
    metadata: HistoryMetadata,
)
    requires
        !before.contains_key(playback_id),
    ensures
        before.insert(playback_id, metadata).remove(playback_id) == before,
{
    assert(before.insert(playback_id, metadata).remove(playback_id) =~= before);
}

/// A record shows spoken text only where it records an acceptance, and then what
/// was remembered of the item.
pub proof fn law_only_acceptance_shows_text(
    record: HistoryRecord,
    event: LifecycleEvent,
    metadata: HistoryMetadata,
    timestamp: Seq<char>,
)
    requires
        record.records(event, metadata, timestamp),
        record.spoken_text is Some,
    ensures
        event.state is Accepted,
        record.spoken_text == metadata.spoken_text,
{
}

} // verus!
