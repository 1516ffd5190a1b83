//! What a request for sound comes to, said of the request and the profile alone.
use super::failure::ToolFailure;
use super::server;
use super::server::AgentSpeakServer;
use super::tools;
use super::tools::{
    CueCall, PendingAudio, PlayAudioCueInput, PlaySourceInput, SpeakTextInput, ToolCall,
};
use crate::config::model::ConcurrencyMode as PolicyConcurrency;
use crate::config::model::{
    AudioCueConfig, AudioCueKind, OutputCategory, OutputTargetConfig, ProfileConfig,
};
use crate::gain::Gain;
use crate::history::HistoryMetadata;
use crate::paths::PathStyle;
use crate::playback::audio::OutputTarget;
use crate::playback::job::{ConcurrencyMode, PlaybackId, PlaybackSource};
use vstd::prelude::*;

verus! {

/// The sound goes to the target that the request names, or else to the default one:
/// the first of that name in the allowlist, which takes this kind of sound.
pub open spec fn goes_to(
    profile: ProfileConfig,
    requested: Option<String>,
    category: OutputCategory,
    name: Seq<char>,
    output: OutputTarget,
) -> bool {
    let targets = profile.outputs.targets@;
    &&& requested matches Some(id) ==> name == id@
    &&& requested is None ==> name == profile.outputs.default_target@
    &&& exists|i: int|
        {
            &&& 0 <= i < targets.len()
            &&& (#[trigger] targets[i]).id@ == name
            &&& forall|j: int| 0 <= j < i ==> (#[trigger] targets[j]).id@ != name
            &&& targets[i].allow@.contains(category)
            &&& targets[i].kind is SystemDefault ==> output is SystemDefault
            &&& targets[i].kind is Device ==> (output matches OutputTarget::DeviceId(device)
                && targets[i].device_id is Some && device@ == targets[i].device_id.unwrap()@)
        }
}

/// There is such a target.
pub open spec fn can_go(
    profile: ProfileConfig,
    requested: Option<String>,
    category: OutputCategory,
) -> bool {
    let targets = profile.outputs.targets@;
    exists|i: int|
        {
            &&& 0 <= i < targets.len()
            &&& (#[trigger] targets[i]).id@ == (if requested is Some {
                requested.unwrap()@
            } else {
                profile.outputs.default_target@
            })
            &&& forall|j: int| 0 <= j < i ==> (#[trigger] targets[j]).id@ != targets[i].id@
            &&& targets[i].allow@.contains(category)
            &&& targets[i].kind is Device ==> targets[i].device_id is Some
        }
}

/// The item starts as the request says, or else as the profile does, and the
/// profile allows it.
pub open spec fn starts_as(
    profile: ProfileConfig,
    requested: Option<PolicyConcurrency>,
    mode: ConcurrencyMode,
) -> bool {
    let wanted = if requested is Some {
        requested.unwrap()
    } else {
        profile.playback.default_concurrency
    };
    &&& profile.playback.allowed_concurrency@.contains(wanted)
    &&& wanted is Enqueue <==> mode is Enqueue
    &&& wanted is Interrupt <==> mode is Interrupt
    &&& wanted is Mix <==> mode is Mix
}

/// The item is as loud as the request says, or else as loud as the given default,
/// and the profile allows it.
pub open spec fn sounds_at(
    profile: ProfileConfig,
    requested: Option<Gain>,
    default_gain: Gain,
    gain: Gain,
) -> bool {
    &&& requested is Some ==> gain == requested.unwrap()
    &&& requested is None ==> gain == default_gain
    &&& gain.within(profile.playback.minimum_gain, profile.playback.maximum_gain)
}

/// The history is told what the item does.
pub open spec fn tells_truly(
    history: HistoryMetadata,
    gain: Gain,
    mode: ConcurrencyMode,
    target: Seq<char>,
) -> bool {
    &&& history.gain == gain
    &&& mode is Enqueue ==> history.concurrency@ == "enqueue"@
    &&& mode is Interrupt ==> history.concurrency@ == "interrupt"@
    &&& mode is Mix ==> history.concurrency@ == "mix"@
    &&& history.output_target@ == target
}

/// The first of a name is found where there is one.
pub proof fn lemma_target(targets: Seq<OutputTargetConfig>, id: Seq<char>)
    ensures
        match server::found_target(targets, id) {
            Some(target) => exists|i: int|
                {
                    &&& 0 <= i < targets.len()
                    &&& #[trigger] targets[i] == target
                    &&& targets[i].id@ == id
                    &&& forall|j: int| 0 <= j < i ==> (#[trigger] targets[j]).id@ != id
                },
            None => forall|j: int| 0 <= j < targets.len() ==> (#[trigger] targets[j]).id@ != id,
        },
    decreases targets.len(),
{
    if targets.len() > 0 && targets[0].id@ != id {
        let rest = targets.skip(1);
        lemma_target(rest, id);
        match server::found_target(rest, id) {
            Some(target) => {
                let i = choose|i: int|
                    {
                        &&& 0 <= i < rest.len()
                        &&& #[trigger] rest[i] == target
                        &&& rest[i].id@ == id
                        &&& forall|j: int| 0 <= j < i ==> (#[trigger] rest[j]).id@ != id
                    };
                assert(targets[i + 1] == target);
                assert forall|j: int| 0 <= j < i + 1 implies (#[trigger] targets[j]).id@ != id by {
                    if j > 0 {
                        assert(rest[j - 1] == targets[j]);
                    }
                }
            },
            None => {
                assert forall|j: int| 0 <= j < targets.len() implies (#[trigger] targets[j]).id@
                    != id by {
                    if j > 0 {
                        assert(rest[j - 1] == targets[j]);
                    }
                }
            },
        }
    } else if targets.len() > 0 {
        assert(targets[0] == targets[0]);
    }
}

/// The first cue of a name is found where there is one.
pub proof fn lemma_cue(cues: Seq<AudioCueConfig>, id: Seq<char>)
    ensures
        match tools::found_cue(cues, id) {
            Some(cue) => exists|i: int|
                {
                    &&& 0 <= i < cues.len()
                    &&& #[trigger] cues[i] == cue
                    &&& cues[i].id@ == id
                    &&& forall|j: int| 0 <= j < i ==> (#[trigger] cues[j]).id@ != id
                },
            None => forall|j: int| 0 <= j < cues.len() ==> (#[trigger] cues[j]).id@ != id,
        },
    decreases cues.len(),
{
    if cues.len() > 0 && cues[0].id@ != id {
        let rest = cues.skip(1);
        lemma_cue(rest, id);
        match tools::found_cue(rest, id) {
            Some(cue) => {
                let i = choose|i: int|
                    {
                        &&& 0 <= i < rest.len()
                        &&& #[trigger] rest[i] == cue
                        &&& rest[i].id@ == id
                        &&& forall|j: int| 0 <= j < i ==> (#[trigger] rest[j]).id@ != id
                    };
                assert(cues[i + 1] == cue);
                assert forall|j: int| 0 <= j < i + 1 implies (#[trigger] cues[j]).id@ != id by {
                    if j > 0 {
                        assert(rest[j - 1] == cues[j]);
                    }
                }
            },
            None => {
                assert forall|j: int| 0 <= j < cues.len() implies (#[trigger] cues[j]).id@ != id by {
                    if j > 0 {
                        assert(rest[j - 1] == cues[j]);
                    }
                }
            },
        }
    } else if cues.len() > 0 {
        assert(cues[0] == cues[0]);
    }
}

/// A target is refused exactly where a request cannot go there.
pub proof fn lemma_routes(
    profile: ProfileConfig,
    requested: Option<String>,
    category: OutputCategory,
    output: OutputTarget,
)
    ensures
        server::target_fault(profile, requested, category) is None <==> can_go(
            profile,
            requested,
            category,
        ),
        server::target_fault(profile, requested, category) is None && (server::found_target(
            profile.outputs.targets@,
            server::chosen_target(profile, requested),
        ) matches Some(target) && server::routed_to(target, output)) ==> goes_to(
            profile,
            requested,
            category,
            server::chosen_target(profile, requested),
            output,
        ),
{
    let targets = profile.outputs.targets@;
    let name = server::chosen_target(profile, requested);
    lemma_target(targets, name);
    if let Some(target) = server::found_target(targets, name) {
        let i = choose|i: int|
            {
                &&& 0 <= i < targets.len()
                &&& #[trigger] targets[i] == target
                &&& targets[i].id@ == name
                &&& forall|j: int| 0 <= j < i ==> (#[trigger] targets[j]).id@ != name
            };
        assert(targets[i].id@ == name);
        if can_go(profile, requested, category) {
            let k = choose|k: int|
                {
                    &&& 0 <= k < targets.len()
                    &&& (#[trigger] targets[k]).id@ == name
                    &&& forall|j: int| 0 <= j < k ==> (#[trigger] targets[j]).id@ != targets[k].id@
                    &&& targets[k].allow@.contains(category)
                    &&& targets[k].kind is Device ==> targets[k].device_id is Some
                };
            assert(i == k) by {
                if i < k {
                    assert(targets[i].id@ != targets[k].id@);
                }
                if k < i {
                    assert(targets[k].id@ != name);
                }
            }
        }
    }
}

/// A target is there under the name that a request comes to.
pub open spec fn names_target(profile: ProfileConfig, requested: Option<String>) -> bool {
    exists|i: int|
        0 <= i < profile.outputs.targets@.len() && (#[trigger] profile.outputs.targets@[i]).id@
            == (if requested is Some {
            requested.unwrap()@
        } else {
            profile.outputs.default_target@
        })
}

/// An output is the one that a request names, or else the default of the profile:
/// the first target of that name. It is refused exactly where there is none, where
/// it does not take this kind of sound, or where its device is not known.
pub proof fn law_output_is_the_one_asked_for(
    profile: ProfileConfig,
    requested: Option<String>,
    category: OutputCategory,
    result: Result<(String, OutputTarget), ToolFailure>,
)
    requires
        server::target_decided(profile, requested, category, result),
    ensures
        result is Ok <==> can_go(profile, requested, category),
        result matches Ok(chosen) ==> goes_to(
            profile,
            requested,
            category,
            chosen.0@,
            chosen.1,
        ),
        result matches Err(refusal) ==> !refusal.retryable,
        result matches Err(refusal) ==> (refusal.code@ == "unknown_output_target"@ <==>
            !names_target(profile, requested)),
        result matches Err(refusal) ==> names_target(profile, requested) ==> refusal.code@
            == "output_not_allowed"@ || refusal.code@ == "invalid_output_target"@,
{
    let output = match result {
        Ok(chosen) => chosen.1,
        Err(_) => OutputTarget::SystemDefault,
    };
    let targets = profile.outputs.targets@;
    let name = server::chosen_target(profile, requested);
    lemma_routes(profile, requested, category, output);
    lemma_target(targets, name);
    reveal_strlit("unknown_output_target");
    reveal_strlit("output_not_allowed");
    reveal_strlit("invalid_output_target");
    if let Err(refusal) = result {
        if let Some(target) = server::found_target(targets, name) {
            assert(names_target(profile, requested));
            assert("unknown_output_target"@[0] == 'u');
            assert("output_not_allowed"@[0] == 'o');
            assert("invalid_output_target"@[0] == 'i');
        }
    }
}

/// The gain and the way to start are those that a request asks for, or else the
/// given default gain and the way of the profile. They are refused exactly where
/// the gain lies outside of the range, with a sentence that gives it, or where the
/// way to start is not allowed.
pub proof fn law_options_are_those_asked_for(
    profile: ProfileConfig,
    range: server::GainRange,
    gain: Option<Gain>,
    concurrency: Option<PolicyConcurrency>,
    default_gain: Gain,
    result: Result<(Gain, ConcurrencyMode), ToolFailure>,
)
    requires
        server::options_decided(profile, range, gain, concurrency, default_gain, result),
    ensures
        result matches Ok(options) ==> sounds_at(profile, gain, default_gain, options.0)
            && starts_as(profile, concurrency, options.1),
        result matches Err(refusal) ==> !refusal.retryable,
        (exists|chosen: Gain| sounds_at(profile, gain, default_gain, chosen)) && (exists|
            mode: ConcurrencyMode,
        |
            starts_as(profile, concurrency, mode)) ==> result is Ok,
        !(exists|chosen: Gain| sounds_at(profile, gain, default_gain, chosen)) ==> (
        result matches Err(refusal) && refusal.code@ == "invalid_gain"@ && refusal.message@
            == "gain must be between "@ + range.minimum@ + " and "@ + range.maximum@),
        (exists|chosen: Gain| sounds_at(profile, gain, default_gain, chosen)) && !(exists|
            mode: ConcurrencyMode,
        |
            starts_as(profile, concurrency, mode)) ==> (result matches Err(refusal)
            && refusal.code@ == "concurrency_not_allowed"@),
{
    lemma_options(profile, range, gain, concurrency, default_gain);
    let chosen = server::chosen_gain(gain, default_gain);
    if chosen.within(profile.playback.minimum_gain, profile.playback.maximum_gain) {
        assert(sounds_at(profile, gain, default_gain, chosen));
    }
    let wanted = server::chosen_concurrency(profile, concurrency);
    if profile.playback.allowed_concurrency@.contains(wanted) {
        assert(starts_as(profile, concurrency, server::actor_mode(wanted)));
    }
}

/// A request to speak is accepted exactly where the profile permits speech, the
/// text is not blank and not too long, its gain, its way to start and its output
/// are allowed, and its utterance options are in order. What is spoken is then the
/// text with these options, as loud, in the way and on the output that the request
/// asks for; what it leaves out comes from the defaults of the profile.
pub proof fn law_speech_is_what_was_asked_for<F>(
    server: AgentSpeakServer,
    id: PlaybackId,
    input: SpeakTextInput,
    options: Result<(), String>,
    result: Result<ToolCall<F>, ToolFailure>,
)
    requires
        tools::speech_decided(server, id, input, options, result),
    ensures
        result is Ok <==> {
            let profile = server.profile_view();
            &&& profile.permissions.arbitrary_text
            &&& profile.tts.enabled
            &&& exists|i: int|
                0 <= i < input.text@.len() && !crate::text::whitespace(#[trigger] input.text@[i])
            &&& input.text@.len() <= profile.tts.maximum_characters
            &&& exists|gain: Gain|
                sounds_at(profile, input.gain, profile.playback.default_gain, gain)
            &&& exists|mode: ConcurrencyMode| starts_as(profile, input.concurrency, mode)
            &&& can_go(profile, input.output_target, OutputCategory::Speech)
            &&& options is Ok
        },
        result matches Ok(call) ==> {
            let profile = server.profile_view();
            &&& call.job.id == id
            &&& call.job.source matches PlaybackSource::Speech { text, utterance_options }
            &&& text == input.text
            &&& utterance_options == input.utterance_options
            &&& sounds_at(profile, input.gain, profile.playback.default_gain, call.job.gain)
            &&& starts_as(profile, input.concurrency, call.concurrency)
            &&& goes_to(
                profile,
                input.output_target,
                OutputCategory::Speech,
                call.history.output_target@,
                call.job.output_target,
            )
            &&& tells_truly(
                call.history,
                call.job.gain,
                call.concurrency,
                call.history.output_target@,
            )
            &&& call.history.tool@ == "speak_text"@
            &&& call.history.source_kind@ == "arbitrary_text"@
            &&& call.history.cue_id is None
            &&& call.history.spoken_text is Some
                <==> profile.logging.history_include_spoken_text
            &&& call.history.spoken_text matches Some(told) ==> told@ == input.text@
        },
{
    let profile = server.profile_view();
    let output = match result {
        Ok(call) => call.job.output_target,
        Err(_) => OutputTarget::SystemDefault,
    };
    lemma_routes(profile, input.output_target, OutputCategory::Speech, output);
    lemma_options(
        profile,
        server.range_view(),
        input.gain,
        input.concurrency,
        profile.playback.default_gain,
    );
}

/// The options are refused exactly where no gain and no way to start are allowed.
proof fn lemma_options(
    profile: ProfileConfig,
    range: server::GainRange,
    gain: Option<Gain>,
    concurrency: Option<PolicyConcurrency>,
    default_gain: Gain,
)
    ensures
        server::options_fault(profile, range, gain, concurrency, default_gain) is None <==> {
            &&& exists|chosen: Gain| sounds_at(profile, gain, default_gain, chosen)
            &&& exists|mode: ConcurrencyMode| starts_as(profile, concurrency, mode)
        },
        server::options_fault(profile, range, gain, concurrency, default_gain) is None ==> {
            &&& sounds_at(profile, gain, default_gain, server::chosen_gain(gain, default_gain))
            &&& starts_as(
                profile,
                concurrency,
                server::actor_mode(server::chosen_concurrency(profile, concurrency)),
            )
        },
{
    if server::options_fault(profile, range, gain, concurrency, default_gain) is None {
        assert(sounds_at(profile, gain, default_gain, server::chosen_gain(gain, default_gain)));
        assert(starts_as(
            profile,
            concurrency,
            server::actor_mode(server::chosen_concurrency(profile, concurrency)),
        ));
    }
}

/// A refused request to speak says why, with the first reason of these: speech is
/// not permitted, the text is blank, the text is longer than the limit, which is
/// given, or else what is wrong with the gain, the way to start, the output or the
/// options.
pub proof fn law_refused_speech_says_why<F>(
    server: AgentSpeakServer,
    id: PlaybackId,
    input: SpeakTextInput,
    options: Result<(), String>,
    refusal: ToolFailure,
)
    requires
        tools::speech_decided::<F>(server, id, input, options, Err(refusal)),
    ensures
        !refusal.retryable,
        !(server.profile_view().permissions.arbitrary_text && server.profile_view().tts.enabled)
            ==> refusal.code@ == "permission_denied"@,
        server.profile_view().permissions.arbitrary_text && server.profile_view().tts.enabled ==> {
            let profile = server.profile_view();
            let blank = forall|i: int|
                0 <= i < input.text@.len() ==> crate::text::whitespace(#[trigger] input.text@[i]);
            let long = input.text@.len() > profile.tts.maximum_characters;
            let options_allowed = server::options_fault(
                profile,
                server.range_view(),
                input.gain,
                input.concurrency,
                profile.playback.default_gain,
            ) is None;
            let output_allowed = can_go(profile, input.output_target, OutputCategory::Speech);
            &&& blank ==> refusal.code@ == "text_empty"@
            &&& !blank && long ==> refusal.code@ == "text_too_long"@ && refusal.message@
                == "text must contain no more than "@ + crate::text::decimal_text(
                profile.tts.maximum_characters as nat,
            ) + " characters"@
            &&& !blank && !long && options_allowed && output_allowed ==> refusal.code@
                == "invalid_utterance_options"@ && options is Err && refusal.message@
                == options.unwrap_err()@
        },
{
    lemma_routes(
        server.profile_view(),
        input.output_target,
        OutputCategory::Speech,
        OutputTarget::SystemDefault,
    );
}

/// A request to play a file is accepted exactly where the profile permits it, its
/// gain, its way to start and its output are allowed, and its path is an absolute
/// local one. The file is then the one that was asked for, as loud, in the way and
/// on the output that the request asks for; what it leaves out comes from the
/// defaults of the profile.
pub proof fn law_played_file_is_the_one_asked_for(
    server: AgentSpeakServer,
    style: PathStyle,
    input: PlaySourceInput,
    result: Result<PendingAudio, ToolFailure>,
)
    requires
        tools::source_decided(server, style, input, result),
    ensures
        result is Ok <==> {
            let profile = server.profile_view();
            &&& profile.permissions.arbitrary_local_audio
            &&& exists|gain: Gain|
                sounds_at(profile, input.gain, profile.playback.default_gain, gain)
            &&& exists|mode: ConcurrencyMode| starts_as(profile, input.concurrency, mode)
            &&& can_go(profile, input.output_target, OutputCategory::Audio)
            &&& crate::paths::local_absolute(style, input.path@)
        },
        result matches Ok(pending) ==> {
            let profile = server.profile_view();
            &&& pending.path@ == input.path@
            &&& sounds_at(profile, input.gain, profile.playback.default_gain, pending.gain)
            &&& starts_as(profile, input.concurrency, pending.concurrency)
            &&& goes_to(
                profile,
                input.output_target,
                OutputCategory::Audio,
                pending.history.output_target@,
                pending.output_target,
            )
            &&& tells_truly(
                pending.history,
                pending.gain,
                pending.concurrency,
                pending.history.output_target@,
            )
            &&& pending.history.tool@ == "play_audio_source"@
            &&& pending.history.source_kind@ == "arbitrary_local_audio"@
            &&& pending.history.cue_id is None
            &&& pending.history.spoken_text is None
        },
{
    let profile = server.profile_view();
    let output = match result {
        Ok(pending) => pending.output_target,
        Err(_) => OutputTarget::SystemDefault,
    };
    lemma_routes(profile, input.output_target, OutputCategory::Audio, output);
    lemma_options(
        profile,
        server.range_view(),
        input.gain,
        input.concurrency,
        profile.playback.default_gain,
    );
}

/// An accepted request for a cue plays the cue of that name: its own text or its
/// own file, as loud as the request or else the cue itself says, and otherwise as
/// the request or the profile says.
pub proof fn law_played_cue_is_the_one_asked_for<F>(
    server: AgentSpeakServer,
    id: PlaybackId,
    input: PlayAudioCueInput,
    result: Result<CueCall<F>, ToolFailure>,
)
    requires
        tools::cue_decided(server, id, input, result),
    ensures
        result is Ok ==> exists|i: int|
            {
                let profile = server.profile_view();
                let cue = #[trigger] server.profile_view().audio_cues@[i];
                &&& 0 <= i < profile.audio_cues@.len()
                &&& cue.id@ == input.cue_id@
                &&& forall|j: int|
                    0 <= j < i ==> (#[trigger] server.profile_view().audio_cues@[j]).id@
                        != input.cue_id@
                &&& match (cue.kind, result) {
                    (AudioCueKind::Speech, Ok(CueCall::Speech(call))) => {
                        &&& call.job.id == id
                        &&& call.job.source matches PlaybackSource::Speech {
                            text,
                            utterance_options,
                        }
                        &&& cue.text is Some
                        &&& text@ == cue.text.unwrap()@
                        &&& crate::playback::job::option_names(utterance_options) == Set::<
                            Seq<char>,
                        >::empty()
                        &&& sounds_at(profile, input.gain, cue.default_gain, call.job.gain)
                        &&& starts_as(profile, input.concurrency, call.concurrency)
                        &&& goes_to(
                            profile,
                            input.output_target,
                            OutputCategory::Speech,
                            call.history.output_target@,
                            call.job.output_target,
                        )
                        &&& tells_truly(
                            call.history,
                            call.job.gain,
                            call.concurrency,
                            call.history.output_target@,
                        )
                        &&& call.history.tool@ == "play_audio_cue"@
                        &&& call.history.source_kind@ == "cue_speech"@
                        &&& call.history.cue_id is Some
                        &&& call.history.cue_id.unwrap()@ == input.cue_id@
                        &&& call.history.spoken_text is None
                    },
                    (AudioCueKind::AudioFile, Ok(CueCall::AudioFile(pending))) => {
                        &&& cue.source is Some
                        &&& pending.path@ == cue.source.unwrap()@
                        &&& sounds_at(profile, input.gain, cue.default_gain, pending.gain)
                        &&& starts_as(profile, input.concurrency, pending.concurrency)
                        &&& goes_to(
                            profile,
                            input.output_target,
                            OutputCategory::Audio,
                            pending.history.output_target@,
                            pending.output_target,
                        )
                        &&& tells_truly(
                            pending.history,
                            pending.gain,
                            pending.concurrency,
                            pending.history.output_target@,
                        )
                        &&& pending.history.tool@ == "play_audio_cue"@
                        &&& pending.history.source_kind@ == "cue_audio_file"@
                        &&& pending.history.cue_id is Some
                        &&& pending.history.cue_id.unwrap()@ == input.cue_id@
                        &&& pending.history.spoken_text is None
                    },
                    _ => false,
                }
            },
{
    let profile = server.profile_view();
    lemma_cue(profile.audio_cues@, input.cue_id@);
    if let Ok(call) = result {
        let cue = tools::found_cue(profile.audio_cues@, input.cue_id@).unwrap();
        let cues = profile.audio_cues@;
        let i = choose|i: int|
            {
                &&& 0 <= i < cues.len()
                &&& #[trigger] cues[i] == cue
                &&& cues[i].id@ == input.cue_id@
                &&& forall|j: int| 0 <= j < i ==> (#[trigger] cues[j]).id@ != input.cue_id@
            };
        let output = match call {
            CueCall::Speech(call) => call.job.output_target,
            CueCall::AudioFile(pending) => pending.output_target,
        };
        lemma_routes(profile, input.output_target, tools::cue_category(cue), output);
        lemma_options(profile, server.range_view(), input.gain, input.concurrency, cue.default_gain);
        assert(profile.audio_cues@[i] == cue);
    }
}

/// The cue at `i` is the first of the requested name, has what it plays, and may
/// be played as requested.
pub open spec fn playable(profile: ProfileConfig, input: PlayAudioCueInput, i: int) -> bool {
    let cue = profile.audio_cues@[i];
    &&& 0 <= i < profile.audio_cues@.len()
    &&& cue.id@ == input.cue_id@
    &&& forall|j: int| 0 <= j < i ==> (#[trigger] profile.audio_cues@[j]).id@ != input.cue_id@
    &&& cue.kind is Speech ==> cue.text is Some
    &&& cue.kind is AudioFile ==> cue.source is Some
    &&& exists|gain: Gain| sounds_at(profile, input.gain, cue.default_gain, gain)
    &&& exists|mode: ConcurrencyMode| starts_as(profile, input.concurrency, mode)
    &&& can_go(
        profile,
        input.output_target,
        if cue.kind is Speech {
            OutputCategory::Speech
        } else {
            OutputCategory::Audio
        },
    )
}

/// A request for a cue is accepted exactly where there is a cue of that name that
/// has what it plays, and the gain, the way to start and the output are allowed.
pub proof fn law_known_cues_are_played<F>(
    server: AgentSpeakServer,
    id: PlaybackId,
    input: PlayAudioCueInput,
    result: Result<CueCall<F>, ToolFailure>,
)
    requires
        tools::cue_decided(server, id, input, result),
    ensures
        result is Ok <==> exists|i: int| #[trigger] playable(server.profile_view(), input, i),
{
    let profile = server.profile_view();
    let cues = profile.audio_cues@;
    lemma_cue(cues, input.cue_id@);
    match tools::found_cue(cues, input.cue_id@) {
        Some(cue) => {
            let i = choose|i: int|
                {
                    &&& 0 <= i < cues.len()
                    &&& #[trigger] cues[i] == cue
                    &&& cues[i].id@ == input.cue_id@
                    &&& forall|j: int| 0 <= j < i ==> (#[trigger] cues[j]).id@ != input.cue_id@
                };
            lemma_first_cue(server, input, i);
            assert forall|k: int| #[trigger] playable(profile, input, k) implies k == i by {
                if i < k {
                    assert(cues[i].id@ != input.cue_id@);
                }
                if k < i {
                    assert(cues[k].id@ != input.cue_id@);
                }
            }
            assert(result is Ok <==> playable(profile, input, i));
        },
        None => {
            assert forall|k: int| !(#[trigger] playable(profile, input, k)) by {
                if playable(profile, input, k) {
                    assert(cues[k].id@ != input.cue_id@);
                }
            }
        },
    }
}

/// The first cue of a name is played exactly where it may be.
proof fn lemma_first_cue(server: AgentSpeakServer, input: PlayAudioCueInput, i: int)
    requires
        0 <= i < server.profile_view().audio_cues@.len(),
        server.profile_view().audio_cues@[i].id@ == input.cue_id@,
        forall|j: int|
            0 <= j < i ==> (#[trigger] server.profile_view().audio_cues@[j]).id@ != input.cue_id@,
        tools::found_cue(server.profile_view().audio_cues@, input.cue_id@) == Some(
            server.profile_view().audio_cues@[i],
        ),
    ensures
        tools::cue_fault(server, input) is None <==> playable(server.profile_view(), input, i),
{
    let profile = server.profile_view();
    let cue = profile.audio_cues@[i];
    lemma_routes(
        profile,
        input.output_target,
        tools::cue_category(cue),
        OutputTarget::SystemDefault,
    );
    lemma_options(profile, server.range_view(), input.gain, input.concurrency, cue.default_gain);
}

} // verus!
