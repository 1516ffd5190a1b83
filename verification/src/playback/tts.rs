//! Dispatch of prepared audio and speech to their adapters.
use super::actor::PlaybackBackend;
use super::audio::{OutputTarget, PreparedAudio};
use super::error::PlaybackError;
use super::job::{options_are_empty, PlaybackId, PlaybackJob, PlaybackSource, UtteranceOptions};
use crate::gain::Gain;
use crate::order::{sort_by_key, TextKeyed};
use crate::text::{join3, same_text};
use vstd::prelude::*;

verus! {

#[derive(Clone, Debug, PartialEq, Eq)]
pub struct TtsCapabilities {
    pub voice_id: Option<String>,
    pub completion_observable: bool,
    pub stoppable: bool,
    pub volume_controllable: bool,
}

/// Read-only metadata for a system voice exposed to applications.
#[derive(Clone, Debug, PartialEq, Eq)]
pub struct SystemVoice {
    pub id: String,
    pub display_name: String,
    pub language: String,
    pub description: String,
    pub gender: String,
    pub is_default: bool,
}

impl TextKeyed for SystemVoice {
    open spec fn key(&self) -> Seq<Seq<char>> {
        seq![self.language@, self.display_name@, self.id@]
    }

    fn key_texts(&self) -> (texts: Vec<String>) {
        let mut texts: Vec<String> = Vec::new();
        texts.push(self.language.clone());
        texts.push(self.display_name.clone());
        texts.push(self.id.clone());
        assert(texts@.map_values(|text: String| text@) =~= self.key());
        texts
    }
}

/// Where system voices come from.
#[derive(Debug)]
pub enum VoiceSource {
    /// A native speech service with these voices and this default.
    Native { installed: Vec<SystemVoice>, default_id: Option<String> },
    /// Linux has no native speech service.
    Linux,
    /// Any other platform.
    Other,
}

/// A voice, marked when it is the default one.
pub open spec fn marked(voice: SystemVoice, default_id: Option<String>) -> SystemVoice {
    SystemVoice { is_default: default_id matches Some(id) && id@ == voice.id@, ..voice }
}

/// What is listed of a platform: its voices by language, name and identity, or
/// that it has none.
pub open spec fn voices_listed(
    source: VoiceSource,
    voices: Result<Vec<SystemVoice>, PlaybackError>,
) -> bool {
    match source {
        VoiceSource::Native { installed, default_id } => voices matches Ok(listed)
            && crate::order::sorted_from(
            listed@,
            installed@.map_values(|voice: SystemVoice| marked(voice, default_id)),
        ),
        VoiceSource::Linux => voices matches Err(error) && error.is_backend(
            "Linux has no supported native system TTS; use a configured UtterPipe provider such as utterpipe-espeak-ng"@,
        ),
        VoiceSource::Other => voices matches Err(error) && error.is_backend(
            "system TTS voice discovery is not implemented on this platform"@,
        ),
    }
}

/// List the voices of a platform.
pub fn list_system_voices(source: VoiceSource) -> (voices: Result<Vec<SystemVoice>, PlaybackError>)
    ensures
        voices_listed(source, voices),
{
    match source {
        VoiceSource::Native { installed, default_id } => {
            let ghost all = installed@;
            let mut left = installed;
            let mut voices: Vec<SystemVoice> = Vec::new();
            while left.len() > 0
                invariant
                    voices@.len() + left@.len() == all.len(),
                    left@ == all.skip(voices@.len() as int),
                    forall|i: int|
                        0 <= i < voices@.len() ==> #[trigger] voices@[i] == marked(
                            all[i],
                            default_id,
                        ),
                decreases left@.len(),
            {
                let mut voice = left.remove(0);
                voice.is_default =
                match &default_id {
                    Some(id) => same_text(id.as_str(), voice.id.as_str()),
                    None => false,
                };
                voices.push(voice);
                assert(left@ =~= all.skip(voices@.len() as int));
            }
            assert(voices@ =~= all.map_values(|voice: SystemVoice| marked(voice, default_id)));
            Ok(sort_by_key(voices))
        },
        VoiceSource::Linux => Err(
            PlaybackError::Backend(
                "Linux has no supported native system TTS; use a configured UtterPipe provider such as utterpipe-espeak-ng".to_string(),
            ),
        ),
        VoiceSource::Other => Err(
            PlaybackError::Backend(
                "system TTS voice discovery is not implemented on this platform".to_string(),
            ),
        ),
    }
}

/// One call on an audio adapter, with its reply.
pub enum AudioCall<F> {
    Play {
        id: PlaybackId,
        source: PreparedAudio<F>,
        gain: Gain,
        target: OutputTarget,
        reply: Result<(), PlaybackError>,
    },
    Stop { id: PlaybackId, reply: Result<(), PlaybackError> },
    Finished { id: PlaybackId },
}

/// Renders prepared audio.
pub trait AudioAdapter<F>: Sized {
    fn play(&mut self, playback_id: PlaybackId, source: PreparedAudio<F>, gain: Gain) -> Result<
        (),
        PlaybackError,
    >;

    /// Play through a selected output target.
    ///
    /// Adapters that do not implement explicit device routing play on the system
    /// default and reject fixed device IDs: the default is one call of `play`, or
    /// none.
    fn play_to(
        &mut self,
        playback_id: PlaybackId,
        source: PreparedAudio<F>,
        gain: Gain,
        target: &OutputTarget,
    ) -> (reply: Result<(), PlaybackError>)
        default_ensures
            match target {
                OutputTarget::SystemDefault => exists|adapter: &mut Self|
                    *adapter == *old(self) && *final(adapter) == *final(self)
                        && #[trigger] call_ensures(
                        Self::play,
                        (adapter, playback_id, source, gain),
                        reply,
                    ),
                OutputTarget::DeviceId(device_id) => {
                    &&& *final(self) == *old(self)
                    &&& reply matches Err(PlaybackError::OutputUnavailable(text))
                    &&& text@ == "audio adapter does not support output device `"@ + device_id@
                        + "`"@
                },
            },
    {
        match default_audio_route(target) {
            Ok(()) => self.play(playback_id, source, gain),
            Err(error) => Err(error),
        }
    }

    fn stop(&mut self, playback_id: PlaybackId) -> Result<(), PlaybackError>;

    fn finished(&mut self, playback_id: PlaybackId)
        default_ensures
            *final(self) == *old(self),
    {
    }

    /// Release what the adapter holds. There is nothing to release by default.
    fn shutdown(&mut self) -> (reply: Result<(), PlaybackError>)
        default_ensures
            reply is Ok,
            *final(self) == *old(self),
    {
        Ok(())
    }
}

/// The call was made on the audio adapter, with the arguments and the reply that
/// the call holds.
pub open spec fn heard_by<F, A: AudioAdapter<F>>(adapter: &mut A, call: AudioCall<F>) -> bool {
    match call {
        AudioCall::Play { id, source, gain, target, reply } => call_ensures(
            A::play_to,
            (adapter, id, source, gain, &target),
            reply,
        ),
        AudioCall::Stop { id, reply } => call_ensures(A::stop, (adapter, id), reply),
        AudioCall::Finished { id } => call_ensures(A::finished, (adapter, id), ()),
    }
}

/// An audio adapter with the record of every call made on it.
pub struct RecordedAudio<F, A> {
    adapter: A,
    /// The adapter before each call, and the call.
    record: Ghost<Seq<(A, AudioCall<F>)>>,
}

impl<F, A: AudioAdapter<F>> RecordedAudio<F, A> {
    /// Every call made so far, with its reply, oldest first.
    pub closed spec fn calls(&self) -> Seq<AudioCall<F>> {
        self.record@.map_values(|entry: (A, AudioCall<F>)| entry.1)
    }

    /// The adapter before each call, and as it is now.
    pub closed spec fn states(&self) -> Seq<A> {
        self.record@.map_values(|entry: (A, AudioCall<F>)| entry.0).push(self.adapter)
    }

    fn new(adapter: A) -> (recorded: Self)
        ensures
            recorded.calls() == Seq::<AudioCall<F>>::empty(),
            recorded.states() == seq![adapter],
    {
        let recorded = RecordedAudio { adapter, record: Ghost(Seq::empty()) };
        assert(recorded.calls() =~= Seq::empty());
        assert(recorded.states() =~= seq![adapter]);
        recorded
    }

    fn play_to(
        &mut self,
        playback_id: PlaybackId,
        source: PreparedAudio<F>,
        gain: Gain,
        target: &OutputTarget,
    ) -> (reply: Result<(), PlaybackError>)
        ensures
            final(self).calls() == old(self).calls().push(
                AudioCall::Play { id: playback_id, source, gain, target: *target, reply },
            ),
            final(self).states().drop_last() == old(self).states(),
            exists|adapter: &mut A|
                *adapter == old(self).states().last() && *final(adapter)
                    == final(self).states().last() && #[trigger] heard_by(
                    adapter,
                    AudioCall::Play { id: playback_id, source, gain, target: *target, reply },
                ),
    {
        let ghost before = *self;
        let ghost asked = source;
        let reply = self.adapter.play_to(playback_id, source, gain, target);
        let ghost call = AudioCall::Play {
            id: playback_id,
            source: asked,
            gain,
            target: *target,
            reply,
        };
        assert(forall|adapter: &mut A| #[trigger]
            call_ensures(A::play_to, (adapter, playback_id, asked, gain, target), reply)
                ==> heard_by(adapter, call));
        self.record = Ghost(self.record@.push((before.adapter, call)));
        assert(self.calls() =~= before.calls().push(call));
        assert(self.states().drop_last() =~= before.states());
        reply
    }

    fn stop(&mut self, playback_id: PlaybackId) -> (reply: Result<(), PlaybackError>)
        ensures
            final(self).calls() == old(self).calls().push(
                AudioCall::Stop { id: playback_id, reply },
            ),
            final(self).states().drop_last() == old(self).states(),
            exists|adapter: &mut A|
                *adapter == old(self).states().last() && *final(adapter)
                    == final(self).states().last() && #[trigger] heard_by(
                    adapter,
                    AudioCall::<F>::Stop { id: playback_id, reply },
                ),
    {
        let ghost before = *self;
        let reply = self.adapter.stop(playback_id);
        let ghost call = AudioCall::<F>::Stop { id: playback_id, reply };
        assert(forall|adapter: &mut A| #[trigger]
            call_ensures(A::stop, (adapter, playback_id), reply) ==> heard_by(adapter, call));
        self.record = Ghost(self.record@.push((before.adapter, call)));
        assert(self.calls() =~= before.calls().push(call));
        assert(self.states().drop_last() =~= before.states());
        reply
    }

    fn finished(&mut self, playback_id: PlaybackId)
        ensures
            final(self).calls() == old(self).calls().push(AudioCall::Finished { id: playback_id }),
            final(self).states().drop_last() == old(self).states(),
            exists|adapter: &mut A|
                *adapter == old(self).states().last() && *final(adapter)
                    == final(self).states().last() && #[trigger] heard_by(
                    adapter,
                    AudioCall::<F>::Finished { id: playback_id },
                ),
    {
        let ghost before = *self;
        self.adapter.finished(playback_id);
        let ghost call = AudioCall::<F>::Finished { id: playback_id };
        assert(forall|adapter: &mut A| #[trigger]
            call_ensures(A::finished, (adapter, playback_id), ()) ==> heard_by(adapter, call));
        self.record = Ghost(self.record@.push((before.adapter, call)));
        assert(self.calls() =~= before.calls().push(call));
        assert(self.states().drop_last() =~= before.states());
    }
}

/// One call on a speech adapter, with its reply.
pub enum SpeechCall {
    Speak {
        id: PlaybackId,
        text: String,
        utterance_options: UtteranceOptions,
        gain: Gain,
        target: OutputTarget,
        reply: Result<(), PlaybackError>,
    },
    Stop { id: PlaybackId, reply: Result<(), PlaybackError> },
    Finished { id: PlaybackId },
}

/// Renders speech.
pub trait TtsAdapter: Sized {
    fn capabilities(&self) -> TtsCapabilities;

    fn speak(&mut self, playback_id: PlaybackId, text: String, gain: Gain) -> Result<
        (),
        PlaybackError,
    >;

    /// Speak through a selected output target. Adapters without device routing
    /// reject fixed device IDs: the default is one call of `speak`, or none.
    fn speak_to(
        &mut self,
        playback_id: PlaybackId,
        text: String,
        gain: Gain,
        target: &OutputTarget,
    ) -> (reply: Result<(), PlaybackError>)
        default_ensures
            match target {
                OutputTarget::SystemDefault => exists|adapter: &mut Self|
                    *adapter == *old(self) && *final(adapter) == *final(self)
                        && #[trigger] call_ensures(
                        Self::speak,
                        (adapter, playback_id, text, gain),
                        reply,
                    ),
                OutputTarget::DeviceId(_) => {
                    &&& *final(self) == *old(self)
                    &&& reply matches Err(PlaybackError::OutputUnavailable(said))
                    &&& said@ == "system TTS does not support explicit output routing"@
                },
            },
    {
        match default_speech_route(target) {
            Ok(()) => self.speak(playback_id, text, gain),
            Err(error) => Err(error),
        }
    }

    /// Speak with provider-defined controls. Adapters without any reject them: the
    /// default is one call of `speak_to`, or none.
    fn speak_with_options_to(
        &mut self,
        playback_id: PlaybackId,
        text: String,
        utterance_options: UtteranceOptions,
        gain: Gain,
        target: &OutputTarget,
    ) -> (reply: Result<(), PlaybackError>)
        default_ensures
            if super::job::option_names(utterance_options) == Set::<Seq<char>>::empty() {
                exists|adapter: &mut Self|
                    *adapter == *old(self) && *final(adapter) == *final(self)
                        && #[trigger] call_ensures(
                        Self::speak_to,
                        (adapter, playback_id, text, gain, target),
                        reply,
                    )
            } else {
                &&& *final(self) == *old(self)
                &&& reply matches Err(error)
                &&& error.is_backend("utterance options are unavailable for this TTS provider"@)
            },
    {
        match refuse_options(&utterance_options) {
            Ok(()) => self.speak_to(playback_id, text, gain, target),
            Err(error) => Err(error),
        }
    }

    fn stop(&mut self, playback_id: PlaybackId) -> Result<(), PlaybackError>;

    fn finished(&mut self, playback_id: PlaybackId)
        default_ensures
            *final(self) == *old(self),
    {
    }
}

/// The call was made on the speech adapter, with the arguments and the reply that
/// the call holds.
pub open spec fn spoken_by<T: TtsAdapter>(adapter: &mut T, call: SpeechCall) -> bool {
    match call {
        SpeechCall::Speak { id, text, utterance_options, gain, target, reply } => call_ensures(
            T::speak_with_options_to,
            (adapter, id, text, utterance_options, gain, &target),
            reply,
        ),
        SpeechCall::Stop { id, reply } => call_ensures(T::stop, (adapter, id), reply),
        SpeechCall::Finished { id } => call_ensures(T::finished, (adapter, id), ()),
    }
}

/// A speech adapter with the record of every call made on it.
pub struct RecordedSpeech<T> {
    adapter: T,
    /// The adapter before each call, and the call.
    record: Ghost<Seq<(T, SpeechCall)>>,
}

impl<T: TtsAdapter> RecordedSpeech<T> {
    /// Every call made so far, with its reply, oldest first.
    pub closed spec fn calls(&self) -> Seq<SpeechCall> {
        self.record@.map_values(|entry: (T, SpeechCall)| entry.1)
    }

    /// The adapter before each call, and as it is now.
    pub closed spec fn states(&self) -> Seq<T> {
        self.record@.map_values(|entry: (T, SpeechCall)| entry.0).push(self.adapter)
    }

    fn new(adapter: T) -> (recorded: Self)
        ensures
            recorded.calls() == Seq::<SpeechCall>::empty(),
            recorded.states() == seq![adapter],
    {
        let recorded = RecordedSpeech { adapter, record: Ghost(Seq::empty()) };
        assert(recorded.calls() =~= Seq::empty());
        assert(recorded.states() =~= seq![adapter]);
        recorded
    }

    fn speak_with_options_to(
        &mut self,
        playback_id: PlaybackId,
        text: String,
        utterance_options: UtteranceOptions,
        gain: Gain,
        target: &OutputTarget,
    ) -> (reply: Result<(), PlaybackError>)
        ensures
            final(self).calls() == old(self).calls().push(
                SpeechCall::Speak {
                    id: playback_id,
                    text,
                    utterance_options,
                    gain,
                    target: *target,
                    reply,
                },
            ),
            final(self).states().drop_last() == old(self).states(),
            exists|adapter: &mut T|
                *adapter == old(self).states().last() && *final(adapter)
                    == final(self).states().last() && #[trigger] spoken_by(
                    adapter,
                    SpeechCall::Speak {
                        id: playback_id,
                        text,
                        utterance_options,
                        gain,
                        target: *target,
                        reply,
                    },
                ),
    {
        let ghost before = *self;
        let ghost spoken = text;
        let ghost options = utterance_options;
        let reply = self.adapter.speak_with_options_to(
            playback_id,
            text,
            utterance_options,
            gain,
            target,
        );
        let ghost call = SpeechCall::Speak {
            id: playback_id,
            text: spoken,
            utterance_options: options,
            gain,
            target: *target,
            reply,
        };
        assert(forall|adapter: &mut T| #[trigger]
            call_ensures(
                T::speak_with_options_to,
                (adapter, playback_id, spoken, options, gain, target),
                reply,
            ) ==> spoken_by(adapter, call));
        self.record = Ghost(self.record@.push((before.adapter, call)));
        assert(self.calls() =~= before.calls().push(call));
        assert(self.states().drop_last() =~= before.states());
        reply
    }

    fn stop(&mut self, playback_id: PlaybackId) -> (reply: Result<(), PlaybackError>)
        ensures
            final(self).calls() == old(self).calls().push(
                SpeechCall::Stop { id: playback_id, reply },
            ),
            final(self).states().drop_last() == old(self).states(),
            exists|adapter: &mut T|
                *adapter == old(self).states().last() && *final(adapter)
                    == final(self).states().last() && #[trigger] spoken_by(
                    adapter,
                    SpeechCall::Stop { id: playback_id, reply },
                ),
    {
        let ghost before = *self;
        let reply = self.adapter.stop(playback_id);
        let ghost call = SpeechCall::Stop { id: playback_id, reply };
        assert(forall|adapter: &mut T| #[trigger]
            call_ensures(T::stop, (adapter, playback_id), reply) ==> spoken_by(adapter, call));
        self.record = Ghost(self.record@.push((before.adapter, call)));
        assert(self.calls() =~= before.calls().push(call));
        assert(self.states().drop_last() =~= before.states());
        reply
    }

    fn finished(&mut self, playback_id: PlaybackId)
        ensures
            final(self).calls() == old(self).calls().push(SpeechCall::Finished { id: playback_id }),
            final(self).states().drop_last() == old(self).states(),
            exists|adapter: &mut T|
                *adapter == old(self).states().last() && *final(adapter)
                    == final(self).states().last() && #[trigger] spoken_by(
                    adapter,
                    SpeechCall::Finished { id: playback_id },
                ),
    {
        let ghost before = *self;
        self.adapter.finished(playback_id);
        let ghost call = SpeechCall::Finished { id: playback_id };
        assert(forall|adapter: &mut T| #[trigger]
            call_ensures(T::finished, (adapter, playback_id), ()) ==> spoken_by(adapter, call));
        self.record = Ghost(self.record@.push((before.adapter, call)));
        assert(self.calls() =~= before.calls().push(call));
        assert(self.states().drop_last() =~= before.states());
    }
}

/// What an audio adapter without device routing answers for a target: the
/// system default is played, a fixed device is refused.
pub fn default_audio_route(target: &OutputTarget) -> (result: Result<(), PlaybackError>)
    ensures
        match target {
            OutputTarget::SystemDefault => result is Ok,
            OutputTarget::DeviceId(device_id) => result matches Err(
                PlaybackError::OutputUnavailable(text),
            ) && text@ == "audio adapter does not support output device `"@ + device_id@ + "`"@,
        },
{
    match target {
        OutputTarget::SystemDefault => Ok(()),
        OutputTarget::DeviceId(device_id) => Err(
            PlaybackError::OutputUnavailable(
                join3(
                    "audio adapter does not support output device `",
                    device_id.as_str(),
                    "`",
                ),
            ),
        ),
    }
}

/// What a speech adapter without device routing answers for a target.
pub fn default_speech_route(target: &OutputTarget) -> (result: Result<(), PlaybackError>)
    ensures
        match target {
            OutputTarget::SystemDefault => result is Ok,
            OutputTarget::DeviceId(_) => result matches Err(PlaybackError::OutputUnavailable(text))
                && text@ == "system TTS does not support explicit output routing"@,
        },
{
    match target {
        OutputTarget::SystemDefault => Ok(()),
        OutputTarget::DeviceId(_) => Err(
            PlaybackError::OutputUnavailable(
                "system TTS does not support explicit output routing".to_string(),
            ),
        ),
    }
}

/// What a speech adapter without utterance options answers to any.
pub fn refuse_options(utterance_options: &UtteranceOptions) -> (result: Result<(), PlaybackError>)
    ensures
        if super::job::option_names(*utterance_options) == Set::<Seq<char>>::empty() {
            result is Ok
        } else {
            result matches Err(error) && error.is_backend(
                "utterance options are unavailable for this TTS provider"@,
            )
        },
{
    if options_are_empty(utterance_options) {
        Ok(())
    } else {
        Err(
            PlaybackError::Backend(
                "utterance options are unavailable for this TTS provider".to_string(),
            ),
        )
    }
}

#[derive(Clone, Copy, Debug, PartialEq, Eq, Structural)]
pub enum ActiveKind {
    Audio,
    Speech,
}

/// Which adapter renders an item.
#[derive(Clone, Copy, Debug, PartialEq, Eq, Structural)]
pub struct ActiveItem {
    pub playback_id: PlaybackId,
    pub kind: ActiveKind,
}

/// The adapter that renders an item, if one does.
pub open spec fn kind_of(items: Seq<ActiveItem>, id: PlaybackId) -> Option<ActiveKind>
    decreases items.len(),
{
    if items.len() == 0 {
        None
    } else if items.last().playback_id == id {
        Some(items.last().kind)
    } else {
        kind_of(items.drop_last(), id)
    }
}

/// The other items.
pub open spec fn items_without(items: Seq<ActiveItem>, id: PlaybackId) -> Seq<ActiveItem> {
    items.filter(|item: ActiveItem| item.playback_id != id)
}

/// What a dispatching backend holds and has asked of its adapters. A missing
/// adapter has no calls.
#[verifier::ext_equal]
pub struct DispatchModel<F> {
    pub audio: Option<Seq<AudioCall<F>>>,
    pub speech: Option<Seq<SpeechCall>>,
    pub items: Seq<ActiveItem>,
}

impl<F> DispatchModel<F> {
    pub open spec fn with_item(self, id: PlaybackId, kind: ActiveKind) -> Self {
        DispatchModel {
            items: items_without(self.items, id).push(ActiveItem { playback_id: id, kind }),
            ..self
        }
    }

    pub open spec fn without_item(self, id: PlaybackId) -> Self {
        DispatchModel { items: items_without(self.items, id), ..self }
    }

    pub open spec fn audio_called(self, call: AudioCall<F>) -> Self {
        DispatchModel {
            audio: match self.audio {
                Some(calls) => Some(calls.push(call)),
                None => None,
            },
            ..self
        }
    }

    pub open spec fn speech_called(self, call: SpeechCall) -> Self {
        DispatchModel {
            speech: match self.speech {
                Some(calls) => Some(calls.push(call)),
                None => None,
            },
            ..self
        }
    }

    /// A start goes to the adapter of the item's kind; the item is kept when
    /// that adapter took it.
    pub open spec fn started(
        self,
        job: PlaybackJob<F>,
        reply: Result<(), PlaybackError>,
        after: Self,
    ) -> bool {
        let id = job.id;
        match job.source {
            PlaybackSource::Audio(source) => match self.audio {
                None => after == self && (reply matches Err(error) && error.is_backend(
                    "audio playback is disabled"@,
                )),
                Some(_) => {
                    let called = self.audio_called(
                        AudioCall::Play {
                            id,
                            source,
                            gain: job.gain,
                            target: job.output_target,
                            reply,
                        },
                    );
                    after == if reply is Ok {
                        called.with_item(id, ActiveKind::Audio)
                    } else {
                        called
                    }
                },
            },
            PlaybackSource::Speech { text, utterance_options } => match self.speech {
                None => after == self && (reply matches Err(error) && error.is_backend(
                    "system TTS is disabled"@,
                )),
                Some(_) => {
                    let called = self.speech_called(
                        SpeechCall::Speak {
                            id,
                            text,
                            utterance_options,
                            gain: job.gain,
                            target: job.output_target,
                            reply,
                        },
                    );
                    after == if reply is Ok {
                        called.with_item(id, ActiveKind::Speech)
                    } else {
                        called
                    }
                },
            },
        }
    }

    /// A stop goes to the adapter that renders the item, which is forgotten
    /// once the stop is confirmed. An unknown item needs no stop.
    pub open spec fn stopped(
        self,
        id: PlaybackId,
        reply: Result<(), PlaybackError>,
        after: Self,
    ) -> bool {
        match kind_of(self.items, id) {
            None => reply is Ok && after == self.without_item(id),
            Some(ActiveKind::Audio) => if self.audio is None {
                after == self && (reply matches Err(error) && error.is_backend(
                    "audio playback is disabled"@,
                ))
            } else {
                let called = self.audio_called(AudioCall::Stop { id, reply });
                after == if reply is Ok {
                    called.without_item(id)
                } else {
                    called
                }
            },
            Some(ActiveKind::Speech) => if self.speech is None {
                after == self && (reply matches Err(error) && error.is_backend(
                    "system TTS is disabled"@,
                ))
            } else {
                let called = self.speech_called(SpeechCall::Stop { id, reply });
                after == if reply is Ok {
                    called.without_item(id)
                } else {
                    called
                }
            },
        }
    }

    /// A finished item is forgotten and its adapter told.
    pub open spec fn finished(self, id: PlaybackId) -> Self {
        let rest = self.without_item(id);
        match kind_of(self.items, id) {
            None => rest,
            Some(ActiveKind::Audio) => rest.audio_called(AudioCall::Finished { id }),
            Some(ActiveKind::Speech) => rest.speech_called(SpeechCall::Finished { id }),
        }
    }

    /// The items were stopped one after the other, with these replies.
    pub open spec fn each_stopped(
        self,
        ids: Seq<PlaybackId>,
        replies: Seq<Result<(), PlaybackError>>,
        after: Self,
    ) -> bool
        decreases ids.len(),
    {
        &&& replies.len() == ids.len()
        &&& if ids.len() == 0 {
            after == self
        } else {
            exists|between: Self|
                {
                    &&& self.each_stopped(ids.drop_last(), replies.drop_last(), between)
                    &&& #[trigger] between.stopped(ids.last(), replies.last(), after)
                }
        }
    }
}

/// The first error among replies.
pub open spec fn first_failure(replies: Seq<Result<(), PlaybackError>>) -> Option<PlaybackError>
    decreases replies.len(),
{
    if replies.len() == 0 {
        None
    } else {
        match first_failure(replies.drop_last()) {
            Some(error) => Some(error),
            None => match replies.last() {
                Ok(()) => None,
                Err(error) => Some(error),
            },
        }
    }
}

/// The identifiers of items, in order.
pub open spec fn item_ids(items: Seq<ActiveItem>) -> Seq<PlaybackId> {
    items.map_values(|item: ActiveItem| item.playback_id)
}

/// Dispatches audio files and speech while retaining per-playback ownership.
pub struct SystemBackend<F, A, T> {
    audio: Option<RecordedAudio<F, A>>,
    tts: Option<RecordedSpeech<T>>,
    active_kinds: Vec<ActiveItem>,
}

impl<F, A: AudioAdapter<F>, T: TtsAdapter> SystemBackend<F, A, T> {
    pub closed spec fn dispatch(&self) -> DispatchModel<F> {
        DispatchModel {
            audio: match self.audio {
                Some(audio) => Some(audio.calls()),
                None => None,
            },
            speech: match self.tts {
                Some(tts) => Some(tts.calls()),
                None => None,
            },
            items: self.active_kinds@,
        }
    }

    /// The audio adapter before each of its calls, and as it is now.
    pub closed spec fn audio_states(&self) -> Seq<A> {
        match self.audio {
            Some(audio) => audio.states(),
            None => Seq::empty(),
        }
    }

    /// The speech adapter before each of its calls, and as it is now.
    pub closed spec fn speech_states(&self) -> Seq<T> {
        match self.tts {
            Some(tts) => tts.states(),
            None => Seq::empty(),
        }
    }

    pub open spec fn speech_adapter(&self) -> Option<T> {
        match self.dispatch().speech {
            Some(_) => Some(self.speech_states().last()),
            None => None,
        }
    }

    pub open spec fn audio_calls(&self) -> Seq<AudioCall<F>> {
        match self.dispatch().audio {
            Some(calls) => calls,
            None => Seq::empty(),
        }
    }

    pub open spec fn speech_calls(&self) -> Seq<SpeechCall> {
        match self.dispatch().speech {
            Some(calls) => calls,
            None => Seq::empty(),
        }
    }

    /// Each adapter that is there is known before each of its calls and now.
    pub open spec fn complete(&self) -> bool {
        &&& self.dispatch().audio is Some ==> self.audio_states().len() == self.audio_calls().len()
            + 1
        &&& self.dispatch().speech is Some ==> self.speech_states().len()
            == self.speech_calls().len() + 1
    }

    /// The call on the audio adapter at `i` was made between `before` and now.
    pub open spec fn audio_called_since(&self, before: &Self, i: int) -> bool {
        before.audio_calls().len() <= i < self.audio_calls().len()
    }

    /// The call on the speech adapter at `i` was made between `before` and now.
    pub open spec fn speech_called_since(&self, before: &Self, i: int) -> bool {
        before.speech_calls().len() <= i < self.speech_calls().len()
    }

    /// Nothing that was called is forgotten, and the adapters changed by calls alone.
    pub open spec fn extends(&self, before: &Self) -> bool {
        &&& before.complete()
        &&& self.complete()
        &&& self.dispatch().audio is Some == before.dispatch().audio is Some
        &&& self.dispatch().speech is Some == before.dispatch().speech is Some
        &&& before.audio_calls().is_prefix_of(self.audio_calls())
        &&& before.audio_states().is_prefix_of(self.audio_states())
        &&& before.speech_calls().is_prefix_of(self.speech_calls())
        &&& before.speech_states().is_prefix_of(self.speech_states())
    }

    /// Nothing was called where the adapters are as they were.
    proof fn lemma_nothing_called(before: &Self, after: &Self)
        requires
            after.audio == before.audio,
            after.tts == before.tts,
        ensures
            after.extends(before),
            forall|i: int| #[trigger]
                after.audio_called_since(before, i) ==> exists|adapter: &mut A|
                    *adapter == after.audio_states()[i] && *final(adapter)
                        == after.audio_states()[i + 1] && #[trigger] heard_by(
                        adapter,
                        after.audio_calls()[i],
                    ),
            forall|i: int| #[trigger]
                after.speech_called_since(before, i) ==> exists|adapter: &mut T|
                    *adapter == after.speech_states()[i] && *final(adapter)
                        == after.speech_states()[i + 1] && #[trigger] spoken_by(
                        adapter,
                        after.speech_calls()[i],
                    ),
    {
    }

    /// One call was made on the audio adapter.
    proof fn lemma_audio_called(before: &Self, call: AudioCall<F>, after: &Self)
        requires
            before.audio is Some,
            after.audio is Some,
            after.tts == before.tts,
            after.audio_calls() == before.audio_calls().push(call),
            after.audio_states().drop_last() == before.audio_states(),
            exists|adapter: &mut A|
                *adapter == before.audio_states().last() && *final(adapter)
                    == after.audio_states().last() && #[trigger] heard_by(adapter, call),
        ensures
            after.extends(before),
            forall|i: int| #[trigger]
                after.audio_called_since(before, i) ==> exists|adapter: &mut A|
                    *adapter == after.audio_states()[i] && *final(adapter)
                        == after.audio_states()[i + 1] && #[trigger] heard_by(
                        adapter,
                        after.audio_calls()[i],
                    ),
            forall|i: int| #[trigger]
                after.speech_called_since(before, i) ==> exists|adapter: &mut T|
                    *adapter == after.speech_states()[i] && *final(adapter)
                        == after.speech_states()[i + 1] && #[trigger] spoken_by(
                        adapter,
                        after.speech_calls()[i],
                    ),
    {
        let count = before.audio_calls().len() as int;
        assert(before.audio_calls() =~= after.audio_calls().take(count));
        assert(before.audio_states() =~= after.audio_states().take(count + 1));
        assert forall|i: int| #[trigger] after.audio_called_since(before, i) implies exists|
            adapter: &mut A,
        |
            *adapter == after.audio_states()[i] && *final(adapter) == after.audio_states()[i + 1]
                && #[trigger] heard_by(adapter, after.audio_calls()[i]) by {
            assert(i == count);
            assert(after.audio_states()[i] == before.audio_states().last());
            assert(after.audio_states()[i + 1] == after.audio_states().last());
            assert(after.audio_calls()[i] == call);
        }
    }

    /// One call was made on the speech adapter.
    proof fn lemma_speech_called(before: &Self, call: SpeechCall, after: &Self)
        requires
            before.tts is Some,
            after.tts is Some,
            after.audio == before.audio,
            after.speech_calls() == before.speech_calls().push(call),
            after.speech_states().drop_last() == before.speech_states(),
            exists|adapter: &mut T|
                *adapter == before.speech_states().last() && *final(adapter)
                    == after.speech_states().last() && #[trigger] spoken_by(adapter, call),
        ensures
            after.extends(before),
            forall|i: int| #[trigger]
                after.audio_called_since(before, i) ==> exists|adapter: &mut A|
                    *adapter == after.audio_states()[i] && *final(adapter)
                        == after.audio_states()[i + 1] && #[trigger] heard_by(
                        adapter,
                        after.audio_calls()[i],
                    ),
            forall|i: int| #[trigger]
                after.speech_called_since(before, i) ==> exists|adapter: &mut T|
                    *adapter == after.speech_states()[i] && *final(adapter)
                        == after.speech_states()[i + 1] && #[trigger] spoken_by(
                        adapter,
                        after.speech_calls()[i],
                    ),
    {
        let count = before.speech_calls().len() as int;
        assert(before.speech_calls() =~= after.speech_calls().take(count));
        assert(before.speech_states() =~= after.speech_states().take(count + 1));
        assert forall|i: int| #[trigger] after.speech_called_since(before, i) implies exists|
            adapter: &mut T,
        |
            *adapter == after.speech_states()[i] && *final(adapter) == after.speech_states()[i + 1]
                && #[trigger] spoken_by(adapter, after.speech_calls()[i]) by {
            assert(i == count);
            assert(after.speech_states()[i] == before.speech_states().last());
            assert(after.speech_states()[i + 1] == after.speech_states().last());
            assert(after.speech_calls()[i] == call);
        }
    }

    /// Calls in two stretches are calls in one.
    proof fn lemma_calls_joined(before: &Self, between: &Self, after: &Self)
        requires
            between.extends(before),
            after.extends(between),
            forall|i: int| #[trigger]
                between.audio_called_since(before, i) ==> exists|adapter: &mut A|
                    *adapter == between.audio_states()[i] && *final(adapter)
                        == between.audio_states()[i + 1] && #[trigger] heard_by(
                        adapter,
                        between.audio_calls()[i],
                    ),
            forall|i: int| #[trigger]
                between.speech_called_since(before, i) ==> exists|adapter: &mut T|
                    *adapter == between.speech_states()[i] && *final(adapter)
                        == between.speech_states()[i + 1] && #[trigger] spoken_by(
                        adapter,
                        between.speech_calls()[i],
                    ),
            forall|i: int| #[trigger]
                after.audio_called_since(between, i) ==> exists|adapter: &mut A|
                    *adapter == after.audio_states()[i] && *final(adapter)
                        == after.audio_states()[i + 1] && #[trigger] heard_by(
                        adapter,
                        after.audio_calls()[i],
                    ),
            forall|i: int| #[trigger]
                after.speech_called_since(between, i) ==> exists|adapter: &mut T|
                    *adapter == after.speech_states()[i] && *final(adapter)
                        == after.speech_states()[i + 1] && #[trigger] spoken_by(
                        adapter,
                        after.speech_calls()[i],
                    ),
        ensures
            after.extends(before),
            forall|i: int| #[trigger]
                after.audio_called_since(before, i) ==> exists|adapter: &mut A|
                    *adapter == after.audio_states()[i] && *final(adapter)
                        == after.audio_states()[i + 1] && #[trigger] heard_by(
                        adapter,
                        after.audio_calls()[i],
                    ),
            forall|i: int| #[trigger]
                after.speech_called_since(before, i) ==> exists|adapter: &mut T|
                    *adapter == after.speech_states()[i] && *final(adapter)
                        == after.speech_states()[i + 1] && #[trigger] spoken_by(
                        adapter,
                        after.speech_calls()[i],
                    ),
    {
        let heard = before.audio_calls().len() as int;
        let spoken = before.speech_calls().len() as int;
        assert(before.audio_calls() =~= after.audio_calls().take(heard));
        assert(before.audio_states() =~= after.audio_states().take(
            before.audio_states().len() as int,
        ));
        assert(before.speech_calls() =~= after.speech_calls().take(spoken));
        assert(before.speech_states() =~= after.speech_states().take(
            before.speech_states().len() as int,
        ));
        assert forall|i: int| #[trigger] after.audio_called_since(before, i) implies exists|
            adapter: &mut A,
        |
            *adapter == after.audio_states()[i] && *final(adapter) == after.audio_states()[i + 1]
                && #[trigger] heard_by(adapter, after.audio_calls()[i]) by {
            if i < between.audio_calls().len() {
                assert(between.audio_called_since(before, i));
                assert(after.audio_calls()[i] == between.audio_calls()[i]);
                assert(after.audio_states()[i] == between.audio_states()[i]);
                assert(after.audio_states()[i + 1] == between.audio_states()[i + 1]);
            } else {
                assert(after.audio_called_since(between, i));
            }
        }
        assert forall|i: int| #[trigger] after.speech_called_since(before, i) implies exists|
            adapter: &mut T,
        |
            *adapter == after.speech_states()[i] && *final(adapter) == after.speech_states()[i + 1]
                && #[trigger] spoken_by(adapter, after.speech_calls()[i]) by {
            if i < between.speech_calls().len() {
                assert(between.speech_called_since(before, i));
                assert(after.speech_calls()[i] == between.speech_calls()[i]);
                assert(after.speech_states()[i] == between.speech_states()[i]);
                assert(after.speech_states()[i + 1] == between.speech_states()[i + 1]);
            } else {
                assert(after.speech_called_since(between, i));
            }
        }
    }

    pub fn new(audio: Option<A>, tts: Option<T>) -> (backend: Self)
        ensures
            backend.complete(),
            backend.audio_states() == match audio {
                Some(audio) => seq![audio],
                None => Seq::empty(),
            },
            backend.speech_states() == match tts {
                Some(tts) => seq![tts],
                None => Seq::empty(),
            },
            backend.speech_adapter() == tts,
            backend.dispatch() == (DispatchModel::<F> {
                audio: match audio {
                    Some(_) => Some(Seq::empty()),
                    None => None,
                },
                speech: match tts {
                    Some(_) => Some(Seq::empty()),
                    None => None,
                },
                items: Seq::empty(),
            }),
    {
        let audio = match audio {
            Some(audio) => Some(RecordedAudio::new(audio)),
            None => None,
        };
        let tts = match tts {
            Some(tts) => Some(RecordedSpeech::new(tts)),
            None => None,
        };
        let backend = SystemBackend { audio, tts, active_kinds: Vec::new() };
        assert(backend.dispatch().items =~= Seq::empty());
        backend
    }

    /// What the speech adapter says of itself, where there is one.
    pub fn tts_capabilities(&self) -> (capabilities: Option<TtsCapabilities>)
        ensures
            match self.speech_adapter() {
                Some(tts) => capabilities matches Some(found) && call_ensures(
                    T::capabilities,
                    (&tts,),
                    found,
                ),
                None => capabilities is None,
            },
    {
        match &self.tts {
            Some(tts) => Some(tts.adapter.capabilities()),
            None => None,
        }
    }

    fn kind(&self, playback_id: PlaybackId) -> (kind: Option<ActiveKind>)
        ensures
            kind == kind_of(self.dispatch().items, playback_id),
    {
        let mut left: usize = self.active_kinds.len();
        assert(self.active_kinds@.take(left as int) =~= self.active_kinds@);
        while left > 0
            invariant
                left <= self.active_kinds@.len(),
                kind_of(self.active_kinds@, playback_id) == kind_of(
                    self.active_kinds@.take(left as int),
                    playback_id,
                ),
            decreases left,
        {
            assert(self.active_kinds@.take(left as int).drop_last() =~= self.active_kinds@.take(
                left - 1,
            ));
            left -= 1;
            if self.active_kinds[left].playback_id == playback_id {
                return Some(self.active_kinds[left].kind);
            }
        }
        None
    }

    fn forget(&mut self, playback_id: PlaybackId)
        ensures
            final(self).dispatch() == old(self).dispatch().without_item(playback_id),
            final(self).audio == old(self).audio,
            final(self).tts == old(self).tts,
    {
        let mut kept: Vec<ActiveItem> = Vec::new();
        let mut i: usize = 0;
        while i < self.active_kinds.len()
            invariant
                i <= self.active_kinds@.len(),
                *self == *old(self),
                kept@ == items_without(self.active_kinds@.take(i as int), playback_id),
            decreases self.active_kinds@.len() - i,
        {
            proof {
                reveal(Seq::filter);
                assert(self.active_kinds@.take(i + 1).drop_last() =~= self.active_kinds@.take(
                    i as int,
                ));
            }
            let item: ActiveItem = self.active_kinds[i];
            if item.playback_id != playback_id {
                kept.push(item);
            }
            i += 1;
        }
        assert(self.active_kinds@.take(i as int) =~= self.active_kinds@);
        self.active_kinds = kept;
    }

    fn remember(&mut self, playback_id: PlaybackId, kind: ActiveKind)
        ensures
            final(self).dispatch() == old(self).dispatch().with_item(playback_id, kind),
            final(self).audio == old(self).audio,
            final(self).tts == old(self).tts,
    {
        self.forget(playback_id);
        self.active_kinds.push(ActiveItem { playback_id, kind });
    }

    fn stop_item(&mut self, playback_id: PlaybackId) -> (reply: Result<(), PlaybackError>)
        ensures
            old(self).dispatch().stopped(playback_id, reply, final(self).dispatch()),
            final(self).extends(old(self)),
            forall|i: int| #[trigger]
                final(self).audio_called_since(old(self), i) ==> exists|adapter: &mut A|
                    *adapter == final(self).audio_states()[i] && *final(adapter)
                        == final(self).audio_states()[i + 1] && #[trigger] heard_by(
                        adapter,
                        final(self).audio_calls()[i],
                    ),
            forall|i: int| #[trigger]
                final(self).speech_called_since(old(self), i) ==> exists|adapter: &mut T|
                    *adapter == final(self).speech_states()[i] && *final(adapter)
                        == final(self).speech_states()[i + 1] && #[trigger] spoken_by(
                        adapter,
                        final(self).speech_calls()[i],
                    ),
    {
        let ghost before = *self;
        let kind = self.kind(playback_id);
        let reply = match kind {
            Some(ActiveKind::Audio) => match self.audio.as_mut() {
                Some(audio) => {
                    let reply = audio.stop(playback_id);
                    proof {
                        let call = AudioCall::<F>::Stop { id: playback_id, reply };
                        Self::lemma_audio_called(&before, call, self);
                    }
                    reply
                },
                None => Err(PlaybackError::Backend("audio playback is disabled".to_string())),
            },
            Some(ActiveKind::Speech) => match self.tts.as_mut() {
                Some(tts) => {
                    let reply = tts.stop(playback_id);
                    proof {
                        let call = SpeechCall::Stop { id: playback_id, reply };
                        Self::lemma_speech_called(&before, call, self);
                    }
                    reply
                },
                None => Err(PlaybackError::Backend("system TTS is disabled".to_string())),
            },
            None => Ok(()),
        };
        let ghost called = *self;
        if reply.is_ok() {
            self.forget(playback_id);
        }
        proof {
            Self::lemma_nothing_called(&called, self);
            if called == before {
                Self::lemma_nothing_called(&before, &called);
            }
            Self::lemma_calls_joined(&before, &called, self);
        }
        reply
    }
}

impl<F, A: AudioAdapter<F>, T: TtsAdapter> PlaybackBackend<F> for SystemBackend<F, A, T> {
    fn start(&mut self, job: PlaybackJob<F>) -> (reply: Result<(), PlaybackError>)
        ensures
            old(self).dispatch().started(job, reply, final(self).dispatch()),
            final(self).extends(old(self)),
            forall|i: int| #[trigger]
                final(self).audio_called_since(old(self), i) ==> exists|adapter: &mut A|
                    *adapter == final(self).audio_states()[i] && *final(adapter)
                        == final(self).audio_states()[i + 1] && #[trigger] heard_by(
                        adapter,
                        final(self).audio_calls()[i],
                    ),
            forall|i: int| #[trigger]
                final(self).speech_called_since(old(self), i) ==> exists|adapter: &mut T|
                    *adapter == final(self).speech_states()[i] && *final(adapter)
                        == final(self).speech_states()[i + 1] && #[trigger] spoken_by(
                        adapter,
                        final(self).speech_calls()[i],
                    ),
    {
        let playback_id: PlaybackId = job.id;
        let ghost before = self.dispatch();
        let ghost idle = *self;
        let gain = job.gain;
        let target = job.output_target;
        let reply = match job.source {
            PlaybackSource::Audio(source) => match self.audio.as_mut() {
                Some(audio) => {
                    let ghost heard = source;
                    let reply = audio.play_to(playback_id, source, gain, &target);
                    let ghost call = AudioCall::Play {
                        id: playback_id,
                        source: heard,
                        gain,
                        target,
                        reply,
                    };
                    assert(self.dispatch() =~= before.audio_called(call));
                    let ghost called = *self;
                    if reply.is_ok() {
                        self.remember(playback_id, ActiveKind::Audio);
                    }
                    proof {
                        Self::lemma_audio_called(&idle, call, &called);
                        Self::lemma_nothing_called(&called, self);
                        Self::lemma_calls_joined(&idle, &called, self);
                    }
                    reply
                },
                None => Err(PlaybackError::Backend("audio playback is disabled".to_string())),
            },
            PlaybackSource::Speech { text, utterance_options } => match self.tts.as_mut() {
                Some(tts) => {
                    let ghost spoken = text;
                    let ghost options = utterance_options;
                    let reply = tts.speak_with_options_to(
                        playback_id,
                        text,
                        utterance_options,
                        gain,
                        &target,
                    );
                    let ghost call = SpeechCall::Speak {
                        id: playback_id,
                        text: spoken,
                        utterance_options: options,
                        gain,
                        target,
                        reply,
                    };
                    assert(self.dispatch() =~= before.speech_called(call));
                    let ghost called = *self;
                    if reply.is_ok() {
                        self.remember(playback_id, ActiveKind::Speech);
                    }
                    proof {
                        Self::lemma_speech_called(&idle, call, &called);
                        Self::lemma_nothing_called(&called, self);
                        Self::lemma_calls_joined(&idle, &called, self);
                    }
                    reply
                },
                None => Err(PlaybackError::Backend("system TTS is disabled".to_string())),
            },
        };
        proof {
            if *self == idle {
                Self::lemma_nothing_called(&idle, self);
            }
        }
        reply
    }

    fn stop(&mut self, playback_id: PlaybackId) -> (reply: Result<(), PlaybackError>)
        ensures
            old(self).dispatch().stopped(playback_id, reply, final(self).dispatch()),
            final(self).extends(old(self)),
            forall|i: int| #[trigger]
                final(self).audio_called_since(old(self), i) ==> exists|adapter: &mut A|
                    *adapter == final(self).audio_states()[i] && *final(adapter)
                        == final(self).audio_states()[i + 1] && #[trigger] heard_by(
                        adapter,
                        final(self).audio_calls()[i],
                    ),
            forall|i: int| #[trigger]
                final(self).speech_called_since(old(self), i) ==> exists|adapter: &mut T|
                    *adapter == final(self).speech_states()[i] && *final(adapter)
                        == final(self).speech_states()[i + 1] && #[trigger] spoken_by(
                        adapter,
                        final(self).speech_calls()[i],
                    ),
    {
        let reply = self.stop_item(playback_id);
        reply
    }

    fn finished(&mut self, playback_id: PlaybackId)
        ensures
            final(self).dispatch() == old(self).dispatch().finished(playback_id),
            final(self).extends(old(self)),
            forall|i: int| #[trigger]
                final(self).audio_called_since(old(self), i) ==> exists|adapter: &mut A|
                    *adapter == final(self).audio_states()[i] && *final(adapter)
                        == final(self).audio_states()[i + 1] && #[trigger] heard_by(
                        adapter,
                        final(self).audio_calls()[i],
                    ),
            forall|i: int| #[trigger]
                final(self).speech_called_since(old(self), i) ==> exists|adapter: &mut T|
                    *adapter == final(self).speech_states()[i] && *final(adapter)
                        == final(self).speech_states()[i + 1] && #[trigger] spoken_by(
                        adapter,
                        final(self).speech_calls()[i],
                    ),
    {
        let ghost before = *self;
        let kind = self.kind(playback_id);
        self.forget(playback_id);
        let ghost forgotten = *self;
        proof {
            Self::lemma_nothing_called(&before, self);
        }
        match kind {
            Some(ActiveKind::Audio) => {
                if let Some(audio) = self.audio.as_mut() {
                    audio.finished(playback_id);
                    proof {
                        let call = AudioCall::<F>::Finished { id: playback_id };
                        Self::lemma_audio_called(&forgotten, call, self);
                        Self::lemma_calls_joined(&before, &forgotten, self);
                    }
                }
            },
            Some(ActiveKind::Speech) => {
                if let Some(tts) = self.tts.as_mut() {
                    tts.finished(playback_id);
                    proof {
                        let call = SpeechCall::Finished { id: playback_id };
                        Self::lemma_speech_called(&forgotten, call, self);
                        Self::lemma_calls_joined(&before, &forgotten, self);
                    }
                }
            },
            None => {},
        }
    }

    fn shutdown(&mut self) -> (reply: Result<(), PlaybackError>)
        ensures
            exists|replies: Seq<Result<(), PlaybackError>>| #[trigger]
                old(self).dispatch().each_stopped(
                    item_ids(old(self).dispatch().items),
                    replies,
                    final(self).dispatch(),
                ) && reply == match first_failure(replies) {
                    Some(error) => Err::<(), PlaybackError>(error),
                    None => Ok(()),
                },
            final(self).extends(old(self)),
            forall|i: int| #[trigger]
                final(self).audio_called_since(old(self), i) ==> exists|adapter: &mut A|
                    *adapter == final(self).audio_states()[i] && *final(adapter)
                        == final(self).audio_states()[i + 1] && #[trigger] heard_by(
                        adapter,
                        final(self).audio_calls()[i],
                    ),
            forall|i: int| #[trigger]
                final(self).speech_called_since(old(self), i) ==> exists|adapter: &mut T|
                    *adapter == final(self).speech_states()[i] && *final(adapter)
                        == final(self).speech_states()[i + 1] && #[trigger] spoken_by(
                        adapter,
                        final(self).speech_calls()[i],
                    ),
    {
        let ghost before = self.dispatch();
        let ghost idle = *self;
        let mut ids: Vec<PlaybackId> = Vec::new();
        let mut i: usize = 0;
        while i < self.active_kinds.len()
            invariant
                i <= self.active_kinds@.len(),
                *self == *old(self),
                ids@ == item_ids(self.active_kinds@.take(i as int)),
            decreases self.active_kinds@.len() - i,
        {
            ids.push(self.active_kinds[i].playback_id);
            i += 1;
            assert(ids@ =~= item_ids(self.active_kinds@.take(i as int)));
        }
        assert(self.active_kinds@.take(i as int) =~= self.active_kinds@);
        let mut first: Option<PlaybackError> = None;
        let ghost mut replies: Seq<Result<(), PlaybackError>> = Seq::empty();
        let mut k: usize = 0;
        assert(ids@.take(0) =~= Seq::empty());
        proof {
            Self::lemma_nothing_called(&idle, self);
        }
        while k < ids.len()
            invariant
                k <= ids@.len(),
                ids@ == item_ids(before.items),
                before.each_stopped(ids@.take(k as int), replies, self.dispatch()),
                first == first_failure(replies),
                self.extends(&idle),
                forall|i: int| #[trigger]
                    self.audio_called_since(&idle, i) ==> exists|adapter: &mut A|
                        *adapter == self.audio_states()[i] && *final(adapter)
                            == self.audio_states()[i + 1] && #[trigger] heard_by(
                            adapter,
                            self.audio_calls()[i],
                        ),
                forall|i: int| #[trigger]
                    self.speech_called_since(&idle, i) ==> exists|adapter: &mut T|
                        *adapter == self.speech_states()[i] && *final(adapter)
                            == self.speech_states()[i + 1] && #[trigger] spoken_by(
                            adapter,
                            self.speech_calls()[i],
                        ),
            decreases ids@.len() - k,
        {
            let ghost between = self.dispatch();
            let ghost earlier = replies;
            let ghost halfway = *self;
            let reply = self.stop_item(ids[k]);
            proof {
                Self::lemma_calls_joined(&idle, &halfway, self);
                replies = replies.push(reply);
                assert(ids@.take(k + 1).drop_last() =~= ids@.take(k as int));
                assert(replies.drop_last() =~= earlier);
                assert(before.each_stopped(
                    ids@.take(k + 1).drop_last(),
                    replies.drop_last(),
                    between,
                ));
                assert(ids@.take(k + 1).last() == ids@[k as int]);
                assert(between.stopped(ids@.take(k + 1).last(), replies.last(), self.dispatch()));
                assert(before.each_stopped(ids@.take(k + 1), replies, self.dispatch()));
            }
            if let Err(error) = reply {
                if first.is_none() {
                    first = Some(error);
                }
            }
            k += 1;
        }
        assert(ids@.take(k as int) =~= ids@);
        let reply = match first {
            Some(error) => Err(error),
            None => Ok(()),
        };
        assert(old(self).dispatch().each_stopped(
            item_ids(old(self).dispatch().items),
            replies,
            self.dispatch(),
        ));
        reply
    }
}

} // verus!
