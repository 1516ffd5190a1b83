//! Why a request for sound is refused, said of the request and the profile alone.
use super::failure::{FailureModel, ToolFailure};
use super::request_laws;
use super::server;
use super::server::{AgentSpeakServer, GainRange};
use super::service_laws::says;
use super::tools;
use super::tools::{PlayAudioCueInput, PlaySourceInput, SpeakTextInput};
use crate::config::model::ConcurrencyMode as PolicyConcurrency;
use crate::config::model::{AudioCueKind, OutputCategory, OutputTargetKind, ProfileConfig};
use crate::gain::Gain;
use crate::paths::PathStyle;
use crate::playback::job::PlaybackId;
use vstd::prelude::*;

verus! {

/// The gain that a request comes to lies in the range of the profile.
pub open spec fn gain_fits(profile: ProfileConfig, requested: Option<Gain>, default: Gain) -> bool {
    (if requested is Some {
        requested.unwrap()
    } else {
        default
    }).within(profile.playback.minimum_gain, profile.playback.maximum_gain)
}

/// The way to start that a request comes to is among those allowed.
pub open spec fn mode_fits(profile: ProfileConfig, requested: Option<PolicyConcurrency>) -> bool {
    profile.playback.allowed_concurrency@.contains(
        if requested is Some {
            requested.unwrap()
        } else {
            profile.playback.default_concurrency
        },
    )
}

/// The target at `i` is the first of the name that a request comes to.
pub open spec fn leads_to(profile: ProfileConfig, requested: Option<String>, i: int) -> bool {
    let targets = profile.outputs.targets@;
    &&& 0 <= i < targets.len()
    &&& targets[i].id@ == (if requested is Some {
        requested.unwrap()@
    } else {
        profile.outputs.default_target@
    })
    &&& forall|j: int| 0 <= j < i ==> (#[trigger] targets[j]).id@ != targets[i].id@
}

/// The output is refused for what is wrong with it: it is not there, it does not
/// take this kind of sound, or it is a device without an identity.
pub open spec fn output_refused(
    profile: ProfileConfig,
    requested: Option<String>,
    category: OutputCategory,
    refusal: FailureModel,
) -> bool {
    let targets = profile.outputs.targets@;
    &&& (forall|i: int| !(#[trigger] leads_to(profile, requested, i))) ==> says(
        refusal,
        "unknown_output_target"@,
        "output target is not present in the startup allowlist"@,
        false,
    )
    &&& forall|i: int|
        #[trigger] leads_to(profile, requested, i) && !targets[i].allow@.contains(category)
            ==> says(
            refusal,
            "output_not_allowed"@,
            "output target does not allow this kind of playback"@,
            false,
        )
    &&& forall|i: int|
        #[trigger] leads_to(profile, requested, i) && targets[i].allow@.contains(category) ==> {
            &&& targets[i].kind == OutputTargetKind::Device
            &&& targets[i].device_id is None
            &&& says(
                refusal,
                "invalid_output_target"@,
                "configured device output has no endpoint identity"@,
                false,
            )
        }
}

/// The gain or the way to start is refused, the gain first and with its range.
pub open spec fn options_refused(
    profile: ProfileConfig,
    range: GainRange,
    gain: Option<Gain>,
    concurrency: Option<PolicyConcurrency>,
    default: Gain,
    refusal: FailureModel,
) -> bool {
    if !gain_fits(profile, gain, default) {
        says(
            refusal,
            "invalid_gain"@,
            "gain must be between "@ + range.minimum@ + " and "@ + range.maximum@,
            false,
        )
    } else {
        says(
            refusal,
            "concurrency_not_allowed"@,
            "the requested concurrency mode is not allowed by startup policy"@,
            false,
        )
    }
}

proof fn lemma_led(profile: ProfileConfig, requested: Option<String>)
    ensures
        match server::found_target(
            profile.outputs.targets@,
            server::chosen_target(profile, requested),
        ) {
            Some(target) => exists|i: int|
                #[trigger] leads_to(profile, requested, i) && profile.outputs.targets@[i] == target,
            None => forall|i: int| !(#[trigger] leads_to(profile, requested, i)),
        },
        forall|i: int, j: int|
            #[trigger] leads_to(profile, requested, i) && #[trigger] leads_to(
                profile,
                requested,
                j,
            ) ==> i == j,
{
    let targets = profile.outputs.targets@;
    let name = server::chosen_target(profile, requested);
    request_laws::lemma_target(targets, name);
    if let Some(target) = server::found_target(targets, name) {
        let i = choose|i: int|
            {
                &&& 0 <= i < targets.len()
                &&& #[trigger] targets[i] == target
                &&& targets[i].id@ == name
                &&& forall|j: int| 0 <= j < i ==> (#[trigger] targets[j]).id@ != name
            };
        assert(leads_to(profile, requested, i) && targets[i] == target);
    }
    assert forall|i: int, j: int|
        #[trigger] leads_to(profile, requested, i) && #[trigger] leads_to(
            profile,
            requested,
            j,
        ) implies i == j by {
        if i < j {
            assert(targets[i].id@ != targets[j].id@);
        }
        if j < i {
            assert(targets[j].id@ != targets[i].id@);
        }
    }
}

/// A refused output says what is wrong with it.
pub proof fn law_refused_output_says_why(
    profile: ProfileConfig,
    requested: Option<String>,
    category: OutputCategory,
)
    ensures
        server::target_fault(profile, requested, category) matches Some(refusal)
            ==> output_refused(profile, requested, category, refusal),
        server::target_fault(profile, requested, category) is None <==> request_laws::can_go(
            profile,
            requested,
            category,
        ),
{
    lemma_led(profile, requested);
    request_laws::lemma_routes(
        profile,
        requested,
        category,
        crate::playback::audio::OutputTarget::SystemDefault,
    );
}

/// Refused options say what is wrong with them.
pub proof fn law_refused_options_say_why(
    profile: ProfileConfig,
    range: GainRange,
    gain: Option<Gain>,
    concurrency: Option<PolicyConcurrency>,
    default: Gain,
)
    ensures
        server::options_fault(profile, range, gain, concurrency, default) is None <==> gain_fits(
            profile,
            gain,
            default,
        ) && mode_fits(profile, concurrency),
        server::options_fault(profile, range, gain, concurrency, default) matches Some(refusal)
            ==> options_refused(profile, range, gain, concurrency, default, refusal),
{
}

/// A refused request to speak gives the first reason: speech is not permitted, the
/// text is blank or too long, the gain, the way to start, the output, the options.
pub proof fn law_speech_is_refused_for_the_first_reason<F>(
    server: AgentSpeakServer,
    id: PlaybackId,
    input: SpeakTextInput,
    options: Result<(), String>,
    refusal: ToolFailure,
)
    requires
        tools::speech_decided::<F>(server, id, input, options, Err(refusal)),
    ensures
        ({
            let profile = server.profile_view();
            let blank = forall|i: int|
                0 <= i < input.text@.len() ==> crate::text::whitespace(#[trigger] input.text@[i]);
            let fits = gain_fits(profile, input.gain, profile.playback.default_gain) && mode_fits(
                profile,
                input.concurrency,
            );
            if !profile.permissions.arbitrary_text || !profile.tts.enabled {
                says(
                    refusal@,
                    "permission_denied"@,
                    "arbitrary speech is not enabled by startup policy"@,
                    false,
                )
            } else if blank {
                says(refusal@, "text_empty"@, "text must not be empty"@, false)
            } else if input.text@.len() > profile.tts.maximum_characters {
                says(
                    refusal@,
                    "text_too_long"@,
                    "text must contain no more than "@ + crate::text::decimal_text(
                        profile.tts.maximum_characters as nat,
                    ) + " characters"@,
                    false,
                )
            } else if !fits {
                options_refused(
                    profile,
                    server.range_view(),
                    input.gain,
                    input.concurrency,
                    profile.playback.default_gain,
                    refusal@,
                )
            } else if !request_laws::can_go(profile, input.output_target, OutputCategory::Speech) {
                output_refused(profile, input.output_target, OutputCategory::Speech, refusal@)
            } else {
                &&& options is Err
                &&& says(
                    refusal@,
                    "invalid_utterance_options"@,
                    options.unwrap_err()@,
                    false,
                )
            }
        }),
{
    law_refused_output_says_why(
        server.profile_view(),
        input.output_target,
        OutputCategory::Speech,
    );
}

/// A refused request to play a file gives the first reason: files are not permitted,
/// the gain, the way to start, the output, the path.
pub proof fn law_file_is_refused_for_the_first_reason(
    server: AgentSpeakServer,
    style: PathStyle,
    input: PlaySourceInput,
    refusal: ToolFailure,
)
    requires
        tools::source_decided(server, style, input, Err(refusal)),
    ensures
        ({
            let profile = server.profile_view();
            let fits = gain_fits(profile, input.gain, profile.playback.default_gain) && mode_fits(
                profile,
                input.concurrency,
            );
            if !profile.permissions.arbitrary_local_audio {
                says(
                    refusal@,
                    "permission_denied"@,
                    "arbitrary local audio is not enabled by startup policy"@,
                    false,
                )
            } else if !fits {
                options_refused(
                    profile,
                    server.range_view(),
                    input.gain,
                    input.concurrency,
                    profile.playback.default_gain,
                    refusal@,
                )
            } else if !request_laws::can_go(profile, input.output_target, OutputCategory::Audio) {
                output_refused(profile, input.output_target, OutputCategory::Audio, refusal@)
            } else {
                &&& !crate::paths::local_absolute(style, input.path@)
                &&& says(
                    refusal@,
                    "invalid_path"@,
                    "path must be an absolute local file path, not a network or device path"@,
                    false,
                )
            }
        }),
{
    law_refused_output_says_why(server.profile_view(), input.output_target, OutputCategory::Audio);
}

/// A refused request for a cue gives the first reason: there is no such cue, the
/// gain, the way to start, the output, and last that the cue has nothing to play.
pub proof fn law_cue_is_refused_for_the_first_reason<F>(
    server: AgentSpeakServer,
    id: PlaybackId,
    input: PlayAudioCueInput,
    refusal: ToolFailure,
    at: int,
)
    requires
        tools::cue_decided::<F>(server, id, input, Err(refusal)),
    ensures
        (forall|i: int|
            0 <= i < server.profile_view().audio_cues@.len() ==> (
            #[trigger] server.profile_view().audio_cues@[i]).id@ != input.cue_id@) ==> says(
            refusal@,
            "unknown_audio_cue"@,
            "audio cue ID is not present in the startup catalog"@,
            false,
        ),
        0 <= at < server.profile_view().audio_cues@.len()
            && server.profile_view().audio_cues@[at].id@ == input.cue_id@ && (forall|j: int|
            0 <= j < at ==> (#[trigger] server.profile_view().audio_cues@[j]).id@ != input.cue_id@)
            ==> {
            let profile = server.profile_view();
            let cue = profile.audio_cues@[at];
            let category = if cue.kind == AudioCueKind::Speech {
                OutputCategory::Speech
            } else {
                OutputCategory::Audio
            };
            if !(gain_fits(profile, input.gain, cue.default_gain) && mode_fits(
                profile,
                input.concurrency,
            )) {
                options_refused(
                    profile,
                    server.range_view(),
                    input.gain,
                    input.concurrency,
                    cue.default_gain,
                    refusal@,
                )
            } else if !request_laws::can_go(profile, input.output_target, category) {
                output_refused(profile, input.output_target, category, refusal@)
            } else if cue.kind == AudioCueKind::Speech {
                &&& cue.text is None
                &&& says(
                    refusal@,
                    "playback_unavailable"@,
                    "configured speech cue is unavailable"@,
                    true,
                )
            } else {
                &&& cue.source is None
                &&& says(
                    refusal@,
                    "playback_unavailable"@,
                    "configured audio-file cue is unavailable"@,
                    true,
                )
            }
        },
{
    let profile = server.profile_view();
    let cues = profile.audio_cues@;
    request_laws::lemma_cue(cues, input.cue_id@);
    if let Some(cue) = tools::found_cue(cues, input.cue_id@) {
        let i = choose|i: int|
            {
                &&& 0 <= i < cues.len()
                &&& #[trigger] cues[i] == cue
                &&& cues[i].id@ == input.cue_id@
                &&& forall|j: int| 0 <= j < i ==> (#[trigger] cues[j]).id@ != input.cue_id@
            };
        if 0 <= at < cues.len() && cues[at].id@ == input.cue_id@ && (forall|j: int|
            0 <= j < at ==> (#[trigger] cues[j]).id@ != input.cue_id@) {
            assert(i == at) by {
                if i < at {
                    assert(cues[i].id@ != input.cue_id@);
                }
                if at < i {
                    assert(cues[at].id@ != input.cue_id@);
                }
            }
        }
        law_refused_output_says_why(profile, input.output_target, tools::cue_category(cue));
    }
}

} // verus!
