//! What a server needs before it can serve.
use crate::config::model::{AudioCueConfig, AudioCueKind, ProfileConfig, TtsBackend};
use crate::paths::{is_local_absolute_input, PathStyle};
use crate::playback::audio::{DecoderReport, PreparedAudio};
use crate::playback::error::PlaybackError;
use crate::text::{join, join3};
use vstd::prelude::*;

verus! {

/// Why a server cannot start.
#[derive(Debug)]
pub enum ServerStartupError {
    AudioCuePreflight { cue_id: String, source: PlaybackError },
    History(String),
    Playback(PlaybackError),
}

impl ServerStartupError {
    pub open spec fn message_text(self) -> Seq<char> {
        match self {
            ServerStartupError::AudioCuePreflight { cue_id, source } => "audio cue '"@ + cue_id@
                + "' failed decoder preflight: "@ + source.message_text(),
            ServerStartupError::History(detail) => "playback history could not be initialized: "@
                + detail@,
            ServerStartupError::Playback(error) => error.message_text(),
        }
    }

    pub fn message(&self) -> (message: String)
        ensures
            message@ == self.message_text(),
    {
        match self {
            ServerStartupError::AudioCuePreflight { cue_id, source } => {
                let start = join3("audio cue '", cue_id.as_str(), "' failed decoder preflight: ");
                join(start.as_str(), source.message().as_str())
            },
            ServerStartupError::History(detail) => join(
                "playback history could not be initialized: ",
                detail.as_str(),
            ),
            ServerStartupError::Playback(error) => error.message(),
        }
    }
}

/// The speech service that a profile calls for.
#[derive(Debug)]
pub enum SpeechPlan {
    Off,
    System { voice: Option<String> },
    Provider,
}

/// The backends that a profile calls for; the others stay closed.
#[derive(Debug)]
pub struct StartupPlan {
    pub audio: bool,
    pub speech: SpeechPlan,
    /// Whether an output device is needed at all.
    pub output: bool,
}

/// Some cue is of that kind.
pub open spec fn has_cue_of_kind(cues: Seq<AudioCueConfig>, kind: AudioCueKind) -> bool {
    exists|i: int| 0 <= i < cues.len() && (#[trigger] cues[i]).kind == kind
}

/// Some audio file may be played.
pub open spec fn audio_enabled(profile: ProfileConfig) -> bool {
    profile.permissions.arbitrary_local_audio || has_cue_of_kind(
        profile.audio_cues@,
        AudioCueKind::AudioFile,
    )
}

/// Something may be spoken.
pub open spec fn speech_enabled(profile: ProfileConfig) -> bool {
    (profile.permissions.arbitrary_text && profile.tts.enabled) || has_cue_of_kind(
        profile.audio_cues@,
        AudioCueKind::Speech,
    )
}

fn finds_cue_of_kind(cues: &Vec<AudioCueConfig>, kind: AudioCueKind) -> (found: bool)
    ensures
        found == has_cue_of_kind(cues@, kind),
{
    let mut i: usize = 0;
    while i < cues.len()
        invariant
            i <= cues@.len(),
            forall|j: int| 0 <= j < i ==> (#[trigger] cues@[j]).kind != kind,
        decreases cues@.len() - i,
    {
        if cues[i].kind == kind {
            assert(cues@[i as int].kind == kind);
            return true;
        }
        i += 1;
    }
    false
}

/// Find out which backends a profile calls for.
pub fn startup_plan(profile: &ProfileConfig) -> (plan: StartupPlan)
    ensures
        plan.audio == audio_enabled(*profile),
        plan.output == (audio_enabled(*profile) || speech_enabled(*profile)),
        match plan.speech {
            SpeechPlan::Off => !speech_enabled(*profile),
            SpeechPlan::System { voice } => {
                &&& speech_enabled(*profile)
                &&& profile.tts.backend matches TtsBackend::System(system)
                &&& match voice {
                    Some(voice) => voice@ == system.voice_id@ && system.voice_id@.len() > 0,
                    None => system.voice_id@.len() == 0,
                }
            },
            SpeechPlan::Provider => speech_enabled(*profile) && profile.tts.backend is Utterpipe,
        },
{
    let audio = profile.permissions.arbitrary_local_audio || finds_cue_of_kind(
        &profile.audio_cues,
        AudioCueKind::AudioFile,
    );
    let tts = (profile.permissions.arbitrary_text && profile.tts.enabled) || finds_cue_of_kind(
        &profile.audio_cues,
        AudioCueKind::Speech,
    );
    let speech = if !tts {
        SpeechPlan::Off
    } else {
        match &profile.tts.backend {
            TtsBackend::System(system) => {
                let voice = if system.voice_id.as_str().unicode_len() > 0 {
                    Some(system.voice_id.clone())
                } else {
                    None
                };
                SpeechPlan::System { voice }
            },
            TtsBackend::Utterpipe(_) => SpeechPlan::Provider,
        }
    };
    StartupPlan { audio, speech, output: audio || tts }
}

/// Where the history goes, where it is kept at all.
pub fn history_destination(profile: &ProfileConfig) -> (result: Result<
    Option<String>,
    ServerStartupError,
>)
    ensures
        match result {
            Ok(Some(path)) => profile.logging.history_enabled && profile.logging.history_path
                == Some(path),
            Ok(None) => !profile.logging.history_enabled,
            Err(error) => {
                &&& profile.logging.history_enabled
                &&& profile.logging.history_path is None
                &&& error matches ServerStartupError::History(detail)
                &&& detail@ == "history path is missing"@
            },
        },
{
    if !profile.logging.history_enabled {
        return Ok(None);
    }
    match &profile.logging.history_path {
        Some(path) => Ok(Some(path.clone())),
        None => Err(ServerStartupError::History("history path is missing".to_string())),
    }
}

/// The longest that audio may play, in nanoseconds. Zero seconds stand for no
/// limit.
pub open spec fn duration_limit_nanos(profile: ProfileConfig) -> Option<u128> {
    if profile.playback.maximum_audio_seconds == 0 {
        None
    } else {
        Some((profile.playback.maximum_audio_seconds * 1_000_000_000) as u128)
    }
}

pub fn duration_limit(profile: &ProfileConfig) -> (limit: Option<u128>)
    ensures
        limit == duration_limit_nanos(*profile),
{
    if profile.playback.maximum_audio_seconds == 0 {
        None
    } else {
        Some(profile.playback.maximum_audio_seconds as u128 * 1_000_000_000)
    }
}

/// The file of a cue that plays one.
pub open spec fn media_source(cue: AudioCueConfig) -> Option<String> {
    match cue.kind {
        AudioCueKind::AudioFile => cue.source,
        AudioCueKind::Speech => None,
    }
}

/// The file that has to pass preflight before a cue can be played.
pub fn media_to_preflight(cue: &AudioCueConfig) -> (path: Option<&String>)
    ensures
        match path {
            Some(path) => media_source(*cue) == Some(*path),
            None => media_source(*cue) is None,
        },
{
    match cue.kind {
        AudioCueKind::AudioFile => match &cue.source {
            Some(path) => Some(path),
            None => None,
        },
        AudioCueKind::Speech => None,
    }
}

/// The first cue whose file failed preflight.
pub open spec fn failed_cue(
    cues: Seq<AudioCueConfig>,
    outcomes: Seq<Option<PlaybackError>>,
    from: int,
) -> Option<int>
    decreases cues.len() - from,
{
    if from < 0 || from >= cues.len() {
        None
    } else if media_source(cues[from]) is Some && outcomes[from] is Some {
        Some(from)
    } else {
        failed_cue(cues, outcomes, from + 1)
    }
}

/// Check what preflight of the configured media came to. `outcomes` holds the
/// error of each cue's file, in the order of the cues; there is none for a cue
/// without a file.
pub fn preflight_config_media(profile: &ProfileConfig, outcomes: &Vec<Option<PlaybackError>>) -> (
result: Result<(), ServerStartupError>)
    requires
        outcomes@.len() == profile.audio_cues@.len(),
    ensures
        match failed_cue(profile.audio_cues@, outcomes@, 0) {
            None => result is Ok,
            Some(i) => result == Err::<(), ServerStartupError>(
                ServerStartupError::AudioCuePreflight {
                    cue_id: profile.audio_cues@[i].id,
                    source: outcomes@[i]->Some_0,
                },
            ),
        },
{
    let mut i: usize = 0;
    while i < profile.audio_cues.len()
        invariant
            i <= profile.audio_cues@.len(),
            outcomes@.len() == profile.audio_cues@.len(),
            failed_cue(profile.audio_cues@, outcomes@, 0) == failed_cue(
                profile.audio_cues@,
                outcomes@,
                i as int,
            ),
        decreases profile.audio_cues@.len() - i,
    {
        let cue = &profile.audio_cues[i];
        if let Some(_) = media_to_preflight(cue) {
            if let Some(error) = &outcomes[i] {
                return Err(
                    ServerStartupError::AudioCuePreflight {
                        cue_id: cue.id.clone(),
                        source: error.clone(),
                    },
                );
            }
        }
        i += 1;
    }
    Ok(())
}

/// What was learned of an opened audio file. An error stands for a question that
/// the system could not answer.
#[derive(Debug)]
pub struct OpenedAudio<F> {
    pub file: F,
    pub is_regular: Result<bool, String>,
    pub byte_length: u64,
    /// The path of the file behind all links.
    pub final_path: Result<String, String>,
    /// Whether the file system is a local one.
    pub is_local: Result<bool, String>,
    /// Whether reads were set to wait for data.
    pub blocking: Result<(), String>,
    pub header: Vec<u8>,
    pub decoded: DecoderReport,
}

/// An error that the file could not be opened, with this detail.
pub open spec fn open_file_error(error: PlaybackError, detail: Seq<char>) -> bool {
    error matches PlaybackError::OpenFile(text) && text@ == detail
}

/// What an opened file comes to.
pub open spec fn opened_outcome<F>(
    style: PathStyle,
    opened: OpenedAudio<F>,
    maximum_duration: Option<u128>,
    result: Result<PreparedAudio<F>, PlaybackError>,
) -> bool {
    match opened.is_regular {
        Err(detail) => result matches Err(error) && open_file_error(error, detail@),
        Ok(false) => result == Err::<PreparedAudio<F>, PlaybackError>(
            PlaybackError::NotRegularFile,
        ),
        Ok(true) => match opened.final_path {
            Err(detail) => result matches Err(error) && open_file_error(error, detail@),
            Ok(path) => if !crate::paths::local_absolute(style, path@) {
                result matches Err(error) && open_file_error(
                    error,
                    "network and device paths are not supported"@,
                )
            } else {
                match opened.is_local {
                    Err(detail) => result matches Err(error) && open_file_error(error, detail@),
                    Ok(false) => result matches Err(error) && open_file_error(
                        error,
                        "network filesystems are not supported"@,
                    ),
                    Ok(true) => match opened.blocking {
                        Err(detail) => result matches Err(error) && open_file_error(
                            error,
                            detail@,
                        ),
                        Ok(()) => match crate::playback::audio::preflighted(
                            opened.header@,
                            opened.byte_length,
                            opened.decoded,
                            maximum_duration,
                        ) {
                            Err(error) => result == Err::<PreparedAudio<F>, PlaybackError>(error),
                            Ok(info) => {
                                &&& result matches Ok(audio)
                                &&& audio.source_view()
                                    == crate::playback::audio::PreparedAudioSource::File(
                                    opened.file,
                                )
                                &&& audio.info_view() == info
                                &&& audio.limit_view() == maximum_duration
                            },
                        },
                    },
                }
            },
        },
    }
}

/// Reject what is not a local regular file behind all links, then preflight and
/// keep the very file that was opened.
pub fn prepare_opened_audio<F>(
    style: PathStyle,
    opened: OpenedAudio<F>,
    maximum_duration: Option<u128>,
) -> (result: Result<PreparedAudio<F>, PlaybackError>)
    ensures
        opened_outcome(style, opened, maximum_duration, result),
{
    match opened.is_regular {
        Err(detail) => {
            return Err(PlaybackError::OpenFile(detail));
        },
        Ok(regular) => {
            if !regular {
                return Err(PlaybackError::NotRegularFile);
            }
        },
    }
    match opened.final_path {
        Err(detail) => {
            return Err(PlaybackError::OpenFile(detail));
        },
        Ok(path) => {
            if !is_local_absolute_input(style, path.as_str()) {
                return Err(
                    PlaybackError::OpenFile(
                        "network and device paths are not supported".to_string(),
                    ),
                );
            }
        },
    }
    match opened.is_local {
        Err(detail) => {
            return Err(PlaybackError::OpenFile(detail));
        },
        Ok(local) => {
            if !local {
                return Err(
                    PlaybackError::OpenFile("network filesystems are not supported".to_string()),
                );
            }
        },
    }
    if let Err(detail) = opened.blocking {
        return Err(PlaybackError::OpenFile(detail));
    }
    PreparedAudio::from_file(
        opened.file,
        true,
        opened.byte_length,
        opened.header.as_slice(),
        opened.decoded,
        maximum_duration,
    )
}

} // verus!
