use super::toml_value::TomlTable;
use crate::gain::Gain;
use crate::playback::actor::PLAYBACK_STATUS_RETENTION_ITEMS;
use vstd::prelude::*;

verus! {

pub const SCHEMA_VERSION: u32 = 1;

pub const MAXIMUM_AUDIO_CUES: usize = 256;

pub const MAXIMUM_QUEUE_ITEMS: usize = 1_024;

pub const MAXIMUM_TEXT_CHARACTERS: usize = 10_000;

pub const DEFAULT_MAXIMUM_MIX_STREAMS: usize = 2;

/// An Agent Speak profile as represented in TOML.
#[derive(Debug)]
pub struct ProfileConfig {
    pub schema_version: u32,
    pub profile_name: String,
    pub permissions: PermissionsConfig,
    pub playback: PlaybackConfig,
    pub outputs: OutputsConfig,
    pub tts: TtsConfig,
    pub logging: LoggingConfig,
    pub audio_cues: Vec<AudioCueConfig>,
}

#[derive(Debug)]
pub struct OutputsConfig {
    pub default_target: String,
    pub targets: Vec<OutputTargetConfig>,
}

#[derive(Debug)]
pub struct OutputTargetConfig {
    pub id: String,
    pub description: String,
    pub kind: OutputTargetKind,
    pub device_id: Option<String>,
    pub allow: Vec<OutputCategory>,
}

#[derive(Clone, Copy, Debug, PartialEq, Eq, Structural)]
pub enum OutputTargetKind {
    SystemDefault,
    Device,
}

#[derive(Clone, Copy, Debug, PartialEq, Eq, Structural)]
pub enum OutputCategory {
    Audio,
    Speech,
}

#[derive(Clone, Copy, Debug, PartialEq, Eq, Structural)]
pub struct PermissionsConfig {
    pub arbitrary_text: bool,
    pub arbitrary_local_audio: bool,
}

#[derive(Debug)]
pub struct PlaybackConfig {
    pub minimum_gain: Gain,
    pub maximum_gain: Gain,
    pub default_gain: Gain,
    pub default_concurrency: ConcurrencyMode,
    pub allowed_concurrency: Vec<ConcurrencyMode>,
    pub maximum_queue_items: usize,
    pub maximum_mix_streams: usize,
    /// Zero disables the decoded-duration limit.
    pub maximum_audio_seconds: u64,
}

#[derive(Clone, Copy, Debug, PartialEq, Eq, Structural)]
pub enum ConcurrencyMode {
    Enqueue,
    Interrupt,
    Mix,
}

#[derive(Debug)]
pub struct TtsConfig {
    pub enabled: bool,
    pub backend: TtsBackend,
    pub maximum_characters: usize,
}

#[derive(Debug)]
pub enum TtsBackend {
    System(SystemTtsConfig),
    Utterpipe(UtterPipeTtsConfig),
}

#[derive(Debug)]
pub struct SystemTtsConfig {
    pub voice_id: String,
}

/// One way in which a provider may hand audio over.
#[derive(Debug)]
pub struct AudioDelivery {
    pub mode: String,
    pub format: String,
}

#[derive(Debug)]
pub struct UtterPipeTtsConfig {
    pub provider: String,
    pub model_id: Option<String>,
    pub voice_id: Option<String>,
    pub audio_deliveries: Vec<AudioDelivery>,
    pub provider_environment: Vec<String>,
    pub provider_options: TomlTable,
    pub utterance_options: TomlTable,
    pub agent_utterance_options: Vec<String>,
}

impl TtsConfig {
    /// The voice that the backend is asked for; empty where it is left open.
    pub fn voice_id(&self) -> (voice: String)
        ensures
            voice@ == match self.backend {
                TtsBackend::System(config) => config.voice_id@,
                TtsBackend::Utterpipe(config) => match config.voice_id {
                    Some(voice) => voice@,
                    None => Seq::<char>::empty(),
                },
            },
    {
        match &self.backend {
            TtsBackend::System(config) => config.voice_id.clone(),
            TtsBackend::Utterpipe(config) => match &config.voice_id {
                Some(voice) => voice.clone(),
                None => String::new(),
            },
        }
    }

    /// The voice of the native speech service, where that is the backend.
    pub fn system_voice_id(&self) -> (voice: Option<&String>)
        ensures
            match self.backend {
                TtsBackend::System(config) => voice == Some(&config.voice_id),
                TtsBackend::Utterpipe(_) => voice is None,
            },
    {
        match &self.backend {
            TtsBackend::System(config) => Some(&config.voice_id),
            TtsBackend::Utterpipe(_) => None,
        }
    }

    pub fn utterpipe(&self) -> (provider: Option<&UtterPipeTtsConfig>)
        ensures
            match self.backend {
                TtsBackend::System(_) => provider is None,
                TtsBackend::Utterpipe(config) => provider == Some(&config),
            },
    {
        match &self.backend {
            TtsBackend::System(_) => None,
            TtsBackend::Utterpipe(config) => Some(config),
        }
    }
}

#[derive(Debug)]
pub struct LoggingConfig {
    pub level: LogLevel,
    pub history_enabled: bool,
    pub history_path: Option<String>,
    pub history_include_spoken_text: bool,
}

#[derive(Clone, Copy, Debug, PartialEq, Eq, Structural)]
pub enum LogLevel {
    Error,
    Warning,
    Info,
    Debug,
    Trace,
}

#[derive(Debug)]
pub struct AudioCueConfig {
    pub id: String,
    pub kind: AudioCueKind,
    pub source: Option<String>,
    pub text: Option<String>,
    pub description: String,
    pub default_gain: Gain,
}

#[derive(Clone, Copy, Debug, PartialEq, Eq, Structural)]
pub enum AudioCueKind {
    AudioFile,
    Speech,
}

/// Sanitized, model-visible capability projection.
#[derive(Debug)]
pub struct EffectiveCapabilities {
    pub schema_version: u32,
    pub profile_name: String,
    pub tools: Vec<String>,
    pub permissions: EffectivePermissions,
    pub audio_cues_available: bool,
    pub audio: AudioCapabilities,
    pub outputs: OutputCapabilities,
    pub playback: PlaybackCapabilities,
    pub tts: TtsCapabilities,
    pub history_enabled: bool,
}

#[derive(Debug)]
pub struct OutputCapabilities {
    pub default_target: String,
    pub targets: Vec<OutputTargetSummary>,
}

#[derive(Debug)]
pub struct OutputTargetSummary {
    pub id: String,
    pub description: String,
    pub allow: Vec<OutputCategory>,
}

#[derive(Clone, Copy, Debug, PartialEq, Eq, Structural)]
pub struct EffectivePermissions {
    pub arbitrary_text: bool,
    pub arbitrary_local_audio: bool,
}

#[derive(Debug)]
pub struct AudioCapabilities {
    pub formats: Vec<String>,
}

#[derive(Debug)]
pub struct PlaybackCapabilities {
    pub minimum_gain: Gain,
    pub maximum_gain: Gain,
    pub default_gain: Gain,
    pub default_concurrency: ConcurrencyMode,
    pub allowed_concurrency: Vec<ConcurrencyMode>,
    pub maximum_queue_items: usize,
    pub maximum_mix_streams: usize,
    pub maximum_audio_seconds: u64,
    pub status_retention_items: usize,
}

#[derive(Clone, Copy, Debug, PartialEq, Eq, Structural)]
pub struct TtsCapabilities {
    pub enabled: bool,
    pub maximum_characters: usize,
}

/// Sanitized entry returned by the audio-cue-list tool.
#[derive(Debug)]
pub struct AudioCueSummary {
    pub id: String,
    pub kind: AudioCueKind,
    pub description: Option<String>,
    pub default_gain: Gain,
}

/// The characters of each text.
pub open spec fn texts(list: Seq<String>) -> Seq<Seq<char>> {
    list.map_values(|text: String| text@)
}

/// The tools that a policy makes visible, in their order.
pub open spec fn visible_tools(
    has_cues: bool,
    arbitrary_text: bool,
    arbitrary_local_audio: bool,
) -> Seq<Seq<char>> {
    seq!["cancel_playback"@, "get_audio_capabilities"@, "get_playback_status"@] + (if has_cues {
        seq!["list_audio_cues"@, "play_audio_cue"@]
    } else {
        Seq::empty()
    }) + (if arbitrary_text {
        seq!["speak_text"@]
    } else {
        Seq::empty()
    }) + (if arbitrary_local_audio {
        seq!["play_audio_source"@]
    } else {
        Seq::empty()
    })
}

/// The audio formats that can be played.
pub open spec fn audio_formats() -> Seq<Seq<char>> {
    seq!["wav"@, "mp3"@, "flac"@, "ogg_vorbis"@]
}

/// What is shown of an output target: no kind and no device.
pub open spec fn shows_target(shown: OutputTargetSummary, target: OutputTargetConfig) -> bool {
    &&& shown.id@ == target.id@
    &&& shown.description@ == target.description@
    &&& shown.allow@ == target.allow@
}

/// What is shown of an audio cue: no source and no text, and no empty
/// description.
pub open spec fn shows_cue(shown: AudioCueSummary, cue: AudioCueConfig) -> bool {
    &&& shown.id@ == cue.id@
    &&& shown.kind == cue.kind
    &&& shown.default_gain == cue.default_gain
    &&& match shown.description {
        Some(text) => text@ == cue.description@ && cue.description@.len() > 0,
        None => cue.description@.len() == 0,
    }
}

impl EffectiveCapabilities {
    /// The capabilities say what the profile's policy comes to.
    pub open spec fn reflects(self, profile: ProfileConfig) -> bool {
        let arbitrary_text = profile.permissions.arbitrary_text && profile.tts.enabled;
        let arbitrary_local_audio = profile.permissions.arbitrary_local_audio;
        let has_cues = profile.audio_cues@.len() > 0;
        &&& self.schema_version == profile.schema_version
        &&& self.profile_name@ == profile.profile_name@
        &&& texts(self.tools@) == visible_tools(has_cues, arbitrary_text, arbitrary_local_audio)
        &&& self.permissions == EffectivePermissions { arbitrary_text, arbitrary_local_audio }
        &&& self.audio_cues_available == has_cues
        &&& texts(self.audio.formats@) == audio_formats()
        &&& self.outputs.default_target@ == profile.outputs.default_target@
        &&& self.outputs.targets@.len() == profile.outputs.targets@.len()
        &&& forall|i: int|
            0 <= i < self.outputs.targets@.len() ==> shows_target(
                #[trigger] self.outputs.targets@[i],
                profile.outputs.targets@[i],
            )
        &&& self.playback.minimum_gain == profile.playback.minimum_gain
        &&& self.playback.maximum_gain == profile.playback.maximum_gain
        &&& self.playback.default_gain == profile.playback.default_gain
        &&& self.playback.default_concurrency == profile.playback.default_concurrency
        &&& self.playback.allowed_concurrency@ == profile.playback.allowed_concurrency@
        &&& self.playback.maximum_queue_items == profile.playback.maximum_queue_items
        &&& self.playback.maximum_mix_streams == profile.playback.maximum_mix_streams
        &&& self.playback.maximum_audio_seconds == profile.playback.maximum_audio_seconds
        &&& self.playback.status_retention_items == PLAYBACK_STATUS_RETENTION_ITEMS
        &&& self.tts.enabled == profile.tts.enabled
        &&& self.tts.maximum_characters == profile.tts.maximum_characters
        &&& self.history_enabled == profile.logging.history_enabled
    }
}

fn copy_categories(allow: &Vec<OutputCategory>) -> (copy: Vec<OutputCategory>)
    ensures
        copy@ == allow@,
{
    let copy = allow.clone();
    assert(copy@ =~= allow@);
    copy
}

fn push_text(list: &mut Vec<String>, text: &str)
    ensures
        texts(final(list)@) == texts(old(list)@).push(text@),
{
    list.push(text.to_string());
    assert(texts(list@) =~= texts(old(list)@).push(text@));
}

impl ProfileConfig {
    pub fn derive_capabilities(&self) -> (capabilities: EffectiveCapabilities)
        ensures
            capabilities.reflects(*self),
    {
        let has_audio_cues = self.audio_cues.len() > 0;
        let arbitrary_text = self.permissions.arbitrary_text && self.tts.enabled;
        let arbitrary_local_audio = self.permissions.arbitrary_local_audio;

        let mut tools: Vec<String> = Vec::new();
        push_text(&mut tools, "cancel_playback");
        push_text(&mut tools, "get_audio_capabilities");
        push_text(&mut tools, "get_playback_status");
        if has_audio_cues {
            push_text(&mut tools, "list_audio_cues");
            push_text(&mut tools, "play_audio_cue");
        }
        if arbitrary_text {
            push_text(&mut tools, "speak_text");
        }
        if arbitrary_local_audio {
            push_text(&mut tools, "play_audio_source");
        }
        assert(texts(tools@) =~= visible_tools(
            has_audio_cues,
            arbitrary_text,
            arbitrary_local_audio,
        ));

        let mut formats: Vec<String> = Vec::new();
        push_text(&mut formats, "wav");
        push_text(&mut formats, "mp3");
        push_text(&mut formats, "flac");
        push_text(&mut formats, "ogg_vorbis");
        assert(texts(formats@) =~= audio_formats());

        let mut targets: Vec<OutputTargetSummary> = Vec::new();
        let mut i: usize = 0;
        while i < self.outputs.targets.len()
            invariant
                i <= self.outputs.targets@.len(),
                targets@.len() == i,
                forall|j: int|
                    0 <= j < i ==> shows_target(
                        #[trigger] targets@[j],
                        self.outputs.targets@[j],
                    ),
            decreases self.outputs.targets@.len() - i,
        {
            let target = &self.outputs.targets[i];
            targets.push(
                OutputTargetSummary {
                    id: target.id.clone(),
                    description: target.description.clone(),
                    allow: copy_categories(&target.allow),
                },
            );
            i += 1;
        }

        let allowed_concurrency = self.playback.allowed_concurrency.clone();
        assert(allowed_concurrency@ =~= self.playback.allowed_concurrency@);
        EffectiveCapabilities {
            schema_version: self.schema_version,
            profile_name: self.profile_name.clone(),
            tools,
            permissions: EffectivePermissions { arbitrary_text, arbitrary_local_audio },
            audio_cues_available: has_audio_cues,
            audio: AudioCapabilities { formats },
            outputs: OutputCapabilities {
                default_target: self.outputs.default_target.clone(),
                targets,
            },
            playback: PlaybackCapabilities {
                minimum_gain: self.playback.minimum_gain,
                maximum_gain: self.playback.maximum_gain,
                default_gain: self.playback.default_gain,
                default_concurrency: self.playback.default_concurrency,
                allowed_concurrency,
                maximum_queue_items: self.playback.maximum_queue_items,
                maximum_mix_streams: self.playback.maximum_mix_streams,
                maximum_audio_seconds: self.playback.maximum_audio_seconds,
                status_retention_items: PLAYBACK_STATUS_RETENTION_ITEMS,
            },
            tts: TtsCapabilities {
                enabled: self.tts.enabled,
                maximum_characters: self.tts.maximum_characters,
            },
            history_enabled: self.logging.history_enabled,
        }
    }

    pub fn audio_cue_summaries(&self) -> (summaries: Vec<AudioCueSummary>)
        ensures
            summaries@.len() == self.audio_cues@.len(),
            forall|i: int|
                0 <= i < summaries@.len() ==> shows_cue(
                    #[trigger] summaries@[i],
                    self.audio_cues@[i],
                ),
    {
        let mut summaries: Vec<AudioCueSummary> = Vec::new();
        let mut i: usize = 0;
        while i < self.audio_cues.len()
            invariant
                i <= self.audio_cues@.len(),
                summaries@.len() == i,
                forall|j: int|
                    0 <= j < i ==> shows_cue(#[trigger] summaries@[j], self.audio_cues@[j]),
            decreases self.audio_cues@.len() - i,
        {
            let cue = &self.audio_cues[i];
            let description = if cue.description.as_str().unicode_len() > 0 {
                Some(cue.description.clone())
            } else {
                None
            };
            summaries.push(
                AudioCueSummary {
                    id: cue.id.clone(),
                    kind: cue.kind,
                    description,
                    default_gain: cue.default_gain,
                },
            );
            i += 1;
        }
        summaries
    }
}

/// Two profiles that differ only in what stays private: device identities,
/// cue sources and texts, paths, voices and provider settings.
pub open spec fn publicly_equal(left: ProfileConfig, right: ProfileConfig) -> bool {
    &&& left.schema_version == right.schema_version
    &&& left.profile_name@ == right.profile_name@
    &&& left.permissions == right.permissions
    &&& left.playback.minimum_gain == right.playback.minimum_gain
    &&& left.playback.maximum_gain == right.playback.maximum_gain
    &&& left.playback.default_gain == right.playback.default_gain
    &&& left.playback.default_concurrency == right.playback.default_concurrency
    &&& left.playback.allowed_concurrency@ == right.playback.allowed_concurrency@
    &&& left.playback.maximum_queue_items == right.playback.maximum_queue_items
    &&& left.playback.maximum_mix_streams == right.playback.maximum_mix_streams
    &&& left.playback.maximum_audio_seconds == right.playback.maximum_audio_seconds
    &&& left.outputs.default_target@ == right.outputs.default_target@
    &&& left.outputs.targets@.len() == right.outputs.targets@.len()
    &&& forall|i: int|
        0 <= i < left.outputs.targets@.len() ==> {
            let a = #[trigger] left.outputs.targets@[i];
            let b = right.outputs.targets@[i];
            a.id@ == b.id@ && a.description@ == b.description@ && a.allow@ == b.allow@
        }
    &&& left.tts.enabled == right.tts.enabled
    &&& left.tts.maximum_characters == right.tts.maximum_characters
    &&& left.logging.history_enabled == right.logging.history_enabled
    &&& (left.audio_cues@.len() > 0) == (right.audio_cues@.len() > 0)
}

/// Capabilities reveal nothing private: profiles that agree in public have the
/// same capabilities.
pub proof fn law_capabilities_are_sanitized(
    left: ProfileConfig,
    right: ProfileConfig,
    capabilities: EffectiveCapabilities,
)
    requires
        publicly_equal(left, right),
        capabilities.reflects(left),
    ensures
        capabilities.reflects(right),
{
    assert forall|i: int| 0 <= i < capabilities.outputs.targets@.len() implies shows_target(
        #[trigger] capabilities.outputs.targets@[i],
        right.outputs.targets@[i],
    ) by {
        let a = left.outputs.targets@[i];
        assert(shows_target(capabilities.outputs.targets@[i], a));
    }
}

} // verus!
