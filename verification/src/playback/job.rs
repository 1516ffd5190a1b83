use super::audio::{OutputTarget, PreparedAudio};
use crate::gain::Gain;
use vstd::prelude::*;

verus! {

/// The 128-bit value of a playback UUID.
pub type PlaybackId = u128;

#[verifier::external_type_specification]
#[verifier::external_body]
#[verifier::reject_recursive_types(K)]
#[verifier::reject_recursive_types(V)]
pub struct ExJsonMap<K, V>(serde_json::Map<K, V>);

#[verifier::external_type_specification]
#[verifier::external_body]
pub struct ExJsonValue(serde_json::Value);

/// Provider-defined controls for one utterance.
pub type UtteranceOptions = serde_json::Map<String, serde_json::Value>;

/// The names that a JSON object holds.
pub uninterp spec fn option_names(options: UtteranceOptions) -> Set<Seq<char>>;

/// `serde_json::Map::new`: an object without entries.
#[verifier::external_body]
fn empty_options() -> (options: UtteranceOptions)
    ensures
        option_names(options) == Set::<Seq<char>>::empty(),
{
    serde_json::Map::new()
}

/// `serde_json::Map::is_empty`: whether the object has no entry.
#[verifier::external_body]
pub(crate) fn options_are_empty(options: &UtteranceOptions) -> (empty: bool)
    ensures
        empty == (option_names(*options) == Set::<Seq<char>>::empty()),
{
    options.is_empty()
}

/// How a newly accepted item interacts with current playback.
#[derive(Clone, Copy, Debug, PartialEq, Eq, Structural)]
pub enum ConcurrencyMode {
    /// Play immediately when idle, otherwise join the tail of the FIFO.
    Enqueue,
    /// Stop every active item and play this item next, retaining the FIFO.
    Interrupt,
    /// Start beside active playback when a configured stream slot is available.
    Mix,
}

/// The already-validated material that a backend will render. `S` is the
/// opened media.
#[derive(Debug)]
pub enum PlaybackSource<S> {
    Audio(PreparedAudio<S>),
    Speech { text: String, utterance_options: UtteranceOptions },
}

/// A validated request submitted to the single playback actor.
#[derive(Debug)]
pub struct PlaybackJob<S> {
    pub id: PlaybackId,
    pub source: PlaybackSource<S>,
    pub gain: Gain,
    pub output_target: OutputTarget,
}

impl<S> PlaybackJob<S> {
    /// Speech with the given text and no utterance options.
    pub open spec fn is_plain_speech(self, text: Seq<char>) -> bool {
        self.source matches PlaybackSource::Speech { text: held, utterance_options }
            && held@ == text && option_names(utterance_options) == Set::<Seq<char>>::empty()
    }

    pub fn audio(id: PlaybackId, source: PreparedAudio<S>, gain: Gain) -> (job: Self)
        ensures
            job == (PlaybackJob {
                id,
                source: PlaybackSource::Audio(source),
                gain,
                output_target: OutputTarget::SystemDefault,
            }),
    {
        Self::audio_to(id, source, gain, OutputTarget::SystemDefault)
    }

    pub fn audio_to(
        id: PlaybackId,
        source: PreparedAudio<S>,
        gain: Gain,
        output_target: OutputTarget,
    ) -> (job: Self)
        ensures
            job == (PlaybackJob { id, source: PlaybackSource::Audio(source), gain, output_target }),
    {
        PlaybackJob { id, source: PlaybackSource::Audio(source), gain, output_target }
    }

    pub fn speech(id: PlaybackId, text: String, gain: Gain) -> (job: Self)
        ensures
            job.is_plain_speech(text@),
            job.id == id,
            job.gain == gain,
            job.output_target == OutputTarget::SystemDefault,
    {
        Self::speech_to(id, text, gain, OutputTarget::SystemDefault)
    }

    pub fn speech_to(
        id: PlaybackId,
        text: String,
        gain: Gain,
        output_target: OutputTarget,
    ) -> (job: Self)
        ensures
            job.is_plain_speech(text@),
            job.id == id,
            job.gain == gain,
            job.output_target == output_target,
    {
        Self::speech_with_options_to(id, text, empty_options(), gain, output_target)
    }

    pub fn speech_with_options_to(
        id: PlaybackId,
        text: String,
        utterance_options: UtteranceOptions,
        gain: Gain,
        output_target: OutputTarget,
    ) -> (job: Self)
        ensures
            job == (PlaybackJob::<S> {
                id,
                source: PlaybackSource::Speech { text, utterance_options },
                gain,
                output_target,
            }),
    {
        PlaybackJob {
            id,
            source: PlaybackSource::Speech { text, utterance_options },
            gain,
            output_target,
        }
    }
}

} // verus!
