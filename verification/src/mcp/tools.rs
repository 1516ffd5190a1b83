//! From a tool call to a job for the actor.
use super::failure::ToolFailure;
use super::outputs::{concurrency_name, AudioCueListOutput};
use super::server::AgentSpeakServer;
use crate::config::model::ConcurrencyMode as PolicyConcurrency;
use crate::config::model::{AudioCueConfig, AudioCueKind, OutputCategory};
use crate::gain::Gain;
use crate::history::HistoryMetadata;
use crate::paths::{is_local_absolute_input, PathStyle};
use crate::playback::audio::{OutputTarget, PreparedAudio};
use crate::playback::error::PlaybackError;
use crate::playback::job::{ConcurrencyMode, PlaybackId, PlaybackJob, UtteranceOptions};
use crate::text::{decimal, is_blank, join3, same_text};
use vstd::prelude::*;

verus! {

#[derive(Debug)]
pub struct PlayAudioCueInput {
    pub cue_id: String,
    pub gain: Option<Gain>,
    pub concurrency: Option<PolicyConcurrency>,
    pub output_target: Option<String>,
}

#[derive(Debug)]
pub struct SpeakTextInput {
    pub text: String,
    pub utterance_options: UtteranceOptions,
    pub gain: Option<Gain>,
    pub concurrency: Option<PolicyConcurrency>,
    pub output_target: Option<String>,
}

#[derive(Debug)]
pub struct PlaySourceInput {
    pub path: String,
    pub gain: Option<Gain>,
    pub concurrency: Option<PolicyConcurrency>,
    pub output_target: Option<String>,
}

/// A job with the way to start it and what the history is told of it.
#[derive(Debug)]
pub struct ToolCall<F> {
    pub job: PlaybackJob<F>,
    pub concurrency: ConcurrencyMode,
    pub history: HistoryMetadata,
}

/// A call that waits for its audio file to be opened and preflighted.
#[derive(Debug)]
pub struct PendingAudio {
    pub path: String,
    pub gain: Gain,
    pub concurrency: ConcurrencyMode,
    pub output_target: OutputTarget,
    pub history: HistoryMetadata,
}

/// What a cue leads to.
#[derive(Debug)]
pub enum CueCall<F> {
    Speech(ToolCall<F>),
    AudioFile(PendingAudio),
}

/// What the history is told of a call.
pub open spec fn tells(
    history: HistoryMetadata,
    tool: Seq<char>,
    source_kind: Seq<char>,
    cue_id: Option<Seq<char>>,
    gain: Gain,
    concurrency: ConcurrencyMode,
    target: Seq<char>,
    spoken_text: Option<Seq<char>>,
) -> bool {
    &&& history.tool@ == tool
    &&& history.source_kind@ == source_kind
    &&& crate::playback::actor::optional_text(history.cue_id) == cue_id
    &&& history.gain == gain
    &&& history.concurrency@ == super::outputs::mode_text(concurrency)
    &&& history.output_target@ == target
    &&& crate::playback::actor::optional_text(history.spoken_text) == spoken_text
}

/// The output is the one that the request comes to.
pub open spec fn output_chosen(
    server: AgentSpeakServer,
    requested: Option<String>,
    output: OutputTarget,
) -> bool {
    super::server::found_target(
        server.profile_view().outputs.targets@,
        super::server::chosen_target(server.profile_view(), requested),
    ) matches Some(target) && super::server::routed_to(target, output)
}

/// The first cue of that name.
pub open spec fn found_cue(cues: Seq<AudioCueConfig>, id: Seq<char>) -> Option<AudioCueConfig>
    decreases cues.len(),
{
    if cues.len() == 0 {
        None
    } else if cues[0].id@ == id {
        Some(cues[0])
    } else {
        found_cue(cues.skip(1), id)
    }
}

fn find_cue<'a>(cues: &'a Vec<AudioCueConfig>, id: &str) -> (found: Option<&'a AudioCueConfig>)
    ensures
        match found {
            Some(cue) => found_cue(cues@, id@) == Some(*cue),
            None => found_cue(cues@, id@) is None,
        },
{
    let mut i: usize = 0;
    assert(cues@.skip(0) =~= cues@);
    while i < cues.len()
        invariant
            i <= cues@.len(),
            found_cue(cues@, id@) == found_cue(cues@.skip(i as int), id@),
        decreases cues@.len() - i,
    {
        assert(cues@.skip(i as int)[0] == cues@[i as int]);
        assert(cues@.skip(i as int).skip(1) =~= cues@.skip(i + 1));
        if same_text(cues[i].id.as_str(), id) {
            return Some(&cues[i]);
        }
        i += 1;
    }
    None
}

/// The sentence about a text that is too long.
pub open spec fn text_limit_text(maximum: usize) -> Seq<char> {
    "text must contain no more than "@ + crate::text::decimal_text(maximum as nat) + " characters"@
}

/// Why a request to speak is refused, if it is. `options` is the verdict on its
/// utterance options.
pub open spec fn speak_fault(
    server: AgentSpeakServer,
    input: SpeakTextInput,
    options: Result<(), String>,
) -> Option<super::failure::FailureModel> {
    let profile = server.profile_view();
    if !profile.permissions.arbitrary_text || !profile.tts.enabled {
        Some(
            super::failure::failure(
                "permission_denied"@,
                "arbitrary speech is not enabled by startup policy"@,
                false,
            ),
        )
    } else if crate::text::blank(input.text@) {
        Some(super::failure::failure("text_empty"@, "text must not be empty"@, false))
    } else if input.text@.len() > profile.tts.maximum_characters {
        Some(
            super::failure::failure(
                "text_too_long"@,
                text_limit_text(profile.tts.maximum_characters),
                false,
            ),
        )
    } else if super::server::options_fault(
        profile,
        server.range_view(),
        input.gain,
        input.concurrency,
        profile.playback.default_gain,
    ) is Some {
        super::server::options_fault(
            profile,
            server.range_view(),
            input.gain,
            input.concurrency,
            profile.playback.default_gain,
        )
    } else if super::server::target_fault(
        profile,
        input.output_target,
        OutputCategory::Speech,
    ) is Some {
        super::server::target_fault(profile, input.output_target, OutputCategory::Speech)
    } else {
        match options {
            Ok(()) => None,
            Err(message) => Some(
                super::failure::failure("invalid_utterance_options"@, message@, false),
            ),
        }
    }
}

/// What an accepted request to speak comes to.
pub open spec fn speaks<F>(
    server: AgentSpeakServer,
    id: PlaybackId,
    input: SpeakTextInput,
    call: ToolCall<F>,
) -> bool {
    let profile = server.profile_view();
    let gain = super::server::chosen_gain(input.gain, profile.playback.default_gain);
    let mode = super::server::actor_mode(
        super::server::chosen_concurrency(profile, input.concurrency),
    );
    &&& call.job == (PlaybackJob::<F> {
        id,
        source: crate::playback::job::PlaybackSource::Speech {
            text: input.text,
            utterance_options: input.utterance_options,
        },
        gain,
        output_target: call.job.output_target,
    })
    &&& output_chosen(server, input.output_target, call.job.output_target)
    &&& call.concurrency == mode
    &&& tells(
        call.history,
        "speak_text"@,
        "arbitrary_text"@,
        None,
        gain,
        mode,
        super::server::chosen_target(profile, input.output_target),
        if profile.logging.history_include_spoken_text {
            Some(input.text@)
        } else {
            None
        },
    )
}

/// Why a request to play a file is refused before the file is opened, if it is.
pub open spec fn source_fault(
    server: AgentSpeakServer,
    style: PathStyle,
    input: PlaySourceInput,
) -> Option<super::failure::FailureModel> {
    let profile = server.profile_view();
    if !profile.permissions.arbitrary_local_audio {
        Some(
            super::failure::failure(
                "permission_denied"@,
                "arbitrary local audio is not enabled by startup policy"@,
                false,
            ),
        )
    } else if super::server::options_fault(
        profile,
        server.range_view(),
        input.gain,
        input.concurrency,
        profile.playback.default_gain,
    ) is Some {
        super::server::options_fault(
            profile,
            server.range_view(),
            input.gain,
            input.concurrency,
            profile.playback.default_gain,
        )
    } else if super::server::target_fault(
        profile,
        input.output_target,
        OutputCategory::Audio,
    ) is Some {
        super::server::target_fault(profile, input.output_target, OutputCategory::Audio)
    } else if !crate::paths::local_absolute(style, input.path@) {
        Some(
            super::failure::failure(
                "invalid_path"@,
                "path must be an absolute local file path, not a network or device path"@,
                false,
            ),
        )
    } else {
        None
    }
}

/// What a request to play a file comes to.
pub open spec fn plays_source(
    server: AgentSpeakServer,
    input: PlaySourceInput,
    pending: PendingAudio,
) -> bool {
    let profile = server.profile_view();
    let gain = super::server::chosen_gain(input.gain, profile.playback.default_gain);
    let mode = super::server::actor_mode(
        super::server::chosen_concurrency(profile, input.concurrency),
    );
    &&& pending.path@ == input.path@
    &&& pending.gain == gain
    &&& pending.concurrency == mode
    &&& output_chosen(server, input.output_target, pending.output_target)
    &&& tells(
        pending.history,
        "play_audio_source"@,
        "arbitrary_local_audio"@,
        None,
        gain,
        mode,
        super::server::chosen_target(profile, input.output_target),
        None,
    )
}

/// The kind of output that a cue needs.
pub open spec fn cue_category(cue: AudioCueConfig) -> OutputCategory {
    match cue.kind {
        AudioCueKind::AudioFile => OutputCategory::Audio,
        AudioCueKind::Speech => OutputCategory::Speech,
    }
}

/// Why a request to play a cue is refused before any file is opened, if it is.
pub open spec fn cue_fault(server: AgentSpeakServer, input: PlayAudioCueInput) -> Option<
    super::failure::FailureModel,
> {
    let profile = server.profile_view();
    match found_cue(profile.audio_cues@, input.cue_id@) {
        None => Some(
            super::failure::failure(
                "unknown_audio_cue"@,
                "audio cue ID is not present in the startup catalog"@,
                false,
            ),
        ),
        Some(cue) => if super::server::options_fault(
            profile,
            server.range_view(),
            input.gain,
            input.concurrency,
            cue.default_gain,
        ) is Some {
            super::server::options_fault(
                profile,
                server.range_view(),
                input.gain,
                input.concurrency,
                cue.default_gain,
            )
        } else if super::server::target_fault(
            profile,
            input.output_target,
            cue_category(cue),
        ) is Some {
            super::server::target_fault(profile, input.output_target, cue_category(cue))
        } else if cue.kind is Speech && cue.text is None {
            Some(
                super::failure::failure(
                    "playback_unavailable"@,
                    "configured speech cue is unavailable"@,
                    true,
                ),
            )
        } else if cue.kind is AudioFile && cue.source is None {
            Some(
                super::failure::failure(
                    "playback_unavailable"@,
                    "configured audio-file cue is unavailable"@,
                    true,
                ),
            )
        } else {
            None
        },
    }
}

/// What a request to play a cue comes to. The text of a cue never reaches the
/// history.
pub open spec fn plays_cue<F>(
    server: AgentSpeakServer,
    id: PlaybackId,
    input: PlayAudioCueInput,
    cue: AudioCueConfig,
    call: CueCall<F>,
) -> bool {
    let profile = server.profile_view();
    let gain = super::server::chosen_gain(input.gain, cue.default_gain);
    let mode = super::server::actor_mode(
        super::server::chosen_concurrency(profile, input.concurrency),
    );
    let target = super::server::chosen_target(profile, input.output_target);
    match cue.kind {
        AudioCueKind::Speech => {
            &&& call matches CueCall::Speech(call)
            &&& cue.text matches Some(text)
            &&& call.job.is_plain_speech(text@)
            &&& call.job.id == id
            &&& call.job.gain == gain
            &&& output_chosen(server, input.output_target, call.job.output_target)
            &&& call.concurrency == mode
            &&& tells(
                call.history,
                "play_audio_cue"@,
                "cue_speech"@,
                Some(cue.id@),
                gain,
                mode,
                target,
                None,
            )
        },
        AudioCueKind::AudioFile => {
            &&& call matches CueCall::AudioFile(pending)
            &&& cue.source matches Some(path)
            &&& pending.path@ == path@
            &&& pending.gain == gain
            &&& pending.concurrency == mode
            &&& output_chosen(server, input.output_target, pending.output_target)
            &&& tells(
                pending.history,
                "play_audio_cue"@,
                "cue_audio_file"@,
                Some(cue.id@),
                gain,
                mode,
                target,
                None,
            )
        },
    }
}

/// What a request to speak is answered.
pub open spec fn speech_decided<F>(
    server: AgentSpeakServer,
    id: PlaybackId,
    input: SpeakTextInput,
    options: Result<(), String>,
    result: Result<ToolCall<F>, ToolFailure>,
) -> bool {
    match result {
        Ok(call) => speak_fault(server, input, options) is None && speaks(server, id, input, call),
        Err(refusal) => speak_fault(server, input, options) == Some(refusal@),
    }
}

/// What a request to play a file is answered before the file is opened.
pub open spec fn source_decided(
    server: AgentSpeakServer,
    style: PathStyle,
    input: PlaySourceInput,
    result: Result<PendingAudio, ToolFailure>,
) -> bool {
    match result {
        Ok(pending) => source_fault(server, style, input) is None && plays_source(
            server,
            input,
            pending,
        ),
        Err(refusal) => source_fault(server, style, input) == Some(refusal@),
    }
}

/// What a request to play a cue is answered before any file is opened.
pub open spec fn cue_decided<F>(
    server: AgentSpeakServer,
    id: PlaybackId,
    input: PlayAudioCueInput,
    result: Result<CueCall<F>, ToolFailure>,
) -> bool {
    match result {
        Ok(call) => {
            &&& cue_fault(server, input) is None
            &&& found_cue(server.profile_view().audio_cues@, input.cue_id@) matches Some(cue)
                && plays_cue(server, id, input, cue, call)
        },
        Err(refusal) => cue_fault(server, input) == Some(refusal@),
    }
}

impl PendingAudio {
    /// The call with its audio in place, or why the audio cannot be played.
    pub fn prepared<F>(self, id: PlaybackId, audio: Result<PreparedAudio<F>, PlaybackError>) -> (
    result: Result<ToolCall<F>, ToolFailure>)
        ensures
            match (audio, result) {
                (Ok(audio), Ok(call)) => {
                    &&& call.job == (PlaybackJob::<F> {
                        id,
                        source: crate::playback::job::PlaybackSource::Audio(audio),
                        gain: self.gain,
                        output_target: self.output_target,
                    })
                    &&& call.concurrency == self.concurrency
                    &&& call.history == self.history
                },
                (Err(error), Err(refusal)) => refusal@ == super::failure::playback_failure(error),
                _ => false,
            },
    {
        match audio {
            Ok(audio) => Ok(
                ToolCall {
                    job: PlaybackJob::audio_to(id, audio, self.gain, self.output_target),
                    concurrency: self.concurrency,
                    history: self.history,
                },
            ),
            Err(error) => Err(ToolFailure::from_playback(&error)),
        }
    }
}

/// The answer when a requested file cannot be opened.
pub fn open_failure(not_found: bool) -> (refusal: ToolFailure)
    ensures
        refusal@ == if not_found {
            super::failure::failure("file_not_found"@, "audio file was not found"@, false)
        } else {
            super::failure::failure("invalid_path"@, "audio path could not be opened"@, false)
        },
{
    if not_found {
        ToolFailure::new("file_not_found", "audio file was not found", false)
    } else {
        ToolFailure::new("invalid_path", "audio path could not be opened", false)
    }
}

impl AgentSpeakServer {
    /// List the cues, without their sources and texts.
    pub fn list_audio_cues(&self) -> (result: Result<AudioCueListOutput, ToolFailure>)
        ensures
            match result {
                Ok(output) => {
                    &&& self.profile_view().audio_cues@.len() > 0
                    &&& output.audio_cues@.len() == self.profile_view().audio_cues@.len()
                    &&& forall|i: int|
                        0 <= i < output.audio_cues@.len() ==> crate::config::model::shows_cue(
                            #[trigger] output.audio_cues@[i],
                            self.profile_view().audio_cues@[i],
                        )
                },
                Err(refusal) => self.profile_view().audio_cues@.len() == 0 && refusal@
                    == super::failure::failure(
                    "permission_denied"@,
                    "audio cue playback is not enabled by startup policy"@,
                    false,
                ),
            },
    {
        if self.profile().audio_cues.len() == 0 {
            return Err(
                ToolFailure::new(
                    "permission_denied",
                    "audio cue playback is not enabled by startup policy",
                    false,
                ),
            );
        }
        Ok(AudioCueListOutput { audio_cues: self.profile().audio_cue_summaries() })
    }

    /// Decide about a request to speak. `options` is the verdict on its utterance
    /// options.
    pub fn speak_text<F>(
        &self,
        id: PlaybackId,
        input: SpeakTextInput,
        options: Result<(), String>,
    ) -> (result: Result<ToolCall<F>, ToolFailure>)
        ensures
            speech_decided(*self, id, input, options, result),
    {
        let profile = self.profile();
        if !profile.permissions.arbitrary_text || !profile.tts.enabled {
            return Err(
                ToolFailure::new(
                    "permission_denied",
                    "arbitrary speech is not enabled by startup policy",
                    false,
                ),
            );
        }
        if is_blank(input.text.as_str()) {
            return Err(ToolFailure::new("text_empty", "text must not be empty", false));
        }
        if input.text.as_str().unicode_len() > profile.tts.maximum_characters {
            let limit = decimal(profile.tts.maximum_characters as u64);
            let message = join3("text must contain no more than ", limit.as_str(), " characters");
            return Err(ToolFailure::new("text_too_long", message.as_str(), false));
        }
        let (gain, concurrency) = match self.resolve_playback_options(
            input.gain,
            input.concurrency,
            profile.playback.default_gain,
        ) {
            Ok(options) => options,
            Err(refusal) => {
                return Err(refusal);
            },
        };
        let (target_id, output_target) = match self.resolve_output_target(
            &input.output_target,
            OutputCategory::Speech,
        ) {
            Ok(output) => output,
            Err(refusal) => {
                return Err(refusal);
            },
        };
        if let Err(message) = options {
            return Err(ToolFailure::new("invalid_utterance_options", message.as_str(), false));
        }
        let spoken_text = if profile.logging.history_include_spoken_text {
            Some(input.text.clone())
        } else {
            None
        };
        let history = HistoryMetadata {
            tool: "speak_text".to_string(),
            source_kind: "arbitrary_text".to_string(),
            cue_id: None,
            gain,
            concurrency: concurrency_name(concurrency).to_string(),
            output_target: target_id,
            spoken_text,
        };
        let job = PlaybackJob::speech_with_options_to(
            id,
            input.text,
            input.utterance_options,
            gain,
            output_target,
        );
        Ok(ToolCall { job, concurrency, history })
    }

    /// Decide about a request to play a file, before the file is opened.
    pub fn play_audio_source(&self, style: PathStyle, input: PlaySourceInput) -> (result: Result<
        PendingAudio,
        ToolFailure,
    >)
        ensures
            source_decided(*self, style, input, result),
    {
        let profile = self.profile();
        if !profile.permissions.arbitrary_local_audio {
            return Err(
                ToolFailure::new(
                    "permission_denied",
                    "arbitrary local audio is not enabled by startup policy",
                    false,
                ),
            );
        }
        let (gain, concurrency) = match self.resolve_playback_options(
            input.gain,
            input.concurrency,
            profile.playback.default_gain,
        ) {
            Ok(options) => options,
            Err(refusal) => {
                return Err(refusal);
            },
        };
        let (target_id, output_target) = match self.resolve_output_target(
            &input.output_target,
            OutputCategory::Audio,
        ) {
            Ok(output) => output,
            Err(refusal) => {
                return Err(refusal);
            },
        };
        if !is_local_absolute_input(style, input.path.as_str()) {
            return Err(
                ToolFailure::new(
                    "invalid_path",
                    "path must be an absolute local file path, not a network or device path",
                    false,
                ),
            );
        }
        let history = HistoryMetadata {
            tool: "play_audio_source".to_string(),
            source_kind: "arbitrary_local_audio".to_string(),
            cue_id: None,
            gain,
            concurrency: concurrency_name(concurrency).to_string(),
            output_target: target_id,
            spoken_text: None,
        };
        Ok(PendingAudio { path: input.path, gain, concurrency, output_target, history })
    }

    /// Decide about a request to play a cue. The file of an audio-file cue is
    /// opened and preflighted anew each time.
    pub fn play_audio_cue<F>(&self, id: PlaybackId, input: PlayAudioCueInput) -> (result: Result<
        CueCall<F>,
        ToolFailure,
    >)
        ensures
            cue_decided(*self, id, input, result),
    {
        let profile = self.profile();
        let cue = match find_cue(&profile.audio_cues, input.cue_id.as_str()) {
            Some(cue) => cue,
            None => {
                return Err(
                    ToolFailure::new(
                        "unknown_audio_cue",
                        "audio cue ID is not present in the startup catalog",
                        false,
                    ),
                );
            },
        };
        let (gain, concurrency) = match self.resolve_playback_options(
            input.gain,
            input.concurrency,
            cue.default_gain,
        ) {
            Ok(options) => options,
            Err(refusal) => {
                return Err(refusal);
            },
        };
        let category = match cue.kind {
            AudioCueKind::AudioFile => OutputCategory::Audio,
            AudioCueKind::Speech => OutputCategory::Speech,
        };
        let (target_id, output_target) = match self.resolve_output_target(
            &input.output_target,
            category,
        ) {
            Ok(output) => output,
            Err(refusal) => {
                return Err(refusal);
            },
        };
        let source_kind = match cue.kind {
            AudioCueKind::AudioFile => "cue_audio_file",
            AudioCueKind::Speech => "cue_speech",
        };
        let history = HistoryMetadata {
            tool: "play_audio_cue".to_string(),
            source_kind: source_kind.to_string(),
            cue_id: Some(cue.id.clone()),
            gain,
            concurrency: concurrency_name(concurrency).to_string(),
            output_target: target_id,
            spoken_text: None,
        };
        match cue.kind {
            AudioCueKind::Speech => match &cue.text {
                Some(text) => Ok(
                    CueCall::Speech(
                        ToolCall {
                            job: PlaybackJob::speech_to(id, text.clone(), gain, output_target),
                            concurrency,
                            history,
                        },
                    ),
                ),
                None => Err(
                    ToolFailure::new(
                        "playback_unavailable",
                        "configured speech cue is unavailable",
                        true,
                    ),
                ),
            },
            AudioCueKind::AudioFile => match &cue.source {
                Some(path) => Ok(
                    CueCall::AudioFile(
                        PendingAudio {
                            path: path.clone(),
                            gain,
                            concurrency,
                            output_target,
                            history,
                        },
                    ),
                ),
                None => Err(
                    ToolFailure::new(
                        "playback_unavailable",
                        "configured audio-file cue is unavailable",
                        true,
                    ),
                ),
            },
        }
    }
}

} // verus!
