//! What holds of the tools as a whole.
use super::server::AgentSpeakServer;
use super::tools::{CueCall, PendingAudio, PlayAudioCueInput, PlaySourceInput, SpeakTextInput, ToolCall};
use crate::config::model::{AudioCueConfig, EffectiveCapabilities, OutputCategory, ProfileConfig};
use crate::paths::PathStyle;
use crate::playback::error::PlaybackError;
use crate::playback::job::PlaybackId;
use vstd::prelude::*;

verus! {

/// A tool is visible.
pub open spec fn listed(capabilities: EffectiveCapabilities, name: Seq<char>) -> bool {
    crate::config::model::texts(capabilities.tools@).contains(name)
}

proof fn lemma_names_differ()
    ensures
        "speak_text"@.len() == 10,
        "cancel_playback"@.len() == 15,
        "get_audio_capabilities"@.len() == 22,
        "get_playback_status"@.len() == 19,
        "list_audio_cues"@.len() == 15,
        "play_audio_cue"@.len() == 14,
        "play_audio_source"@.len() == 17,
        "list_audio_cues"@ != "cancel_playback"@,
{
    reveal_strlit("speak_text");
    reveal_strlit("cancel_playback");
    reveal_strlit("get_audio_capabilities");
    reveal_strlit("get_playback_status");
    reveal_strlit("list_audio_cues");
    reveal_strlit("play_audio_cue");
    reveal_strlit("play_audio_source");
    assert("list_audio_cues"@[0] == 'l');
    assert("cancel_playback"@[0] == 'c');
}

proof fn lemma_visible(has_cues: bool, arbitrary_text: bool, arbitrary_local_audio: bool)
    ensures
        ({
            let tools = crate::config::model::visible_tools(
                has_cues,
                arbitrary_text,
                arbitrary_local_audio,
            );
            &&& tools.contains("cancel_playback"@)
            &&& tools.contains("get_audio_capabilities"@)
            &&& tools.contains("get_playback_status"@)
            &&& tools.contains("list_audio_cues"@) == has_cues
            &&& tools.contains("play_audio_cue"@) == has_cues
            &&& tools.contains("speak_text"@) == arbitrary_text
            &&& tools.contains("play_audio_source"@) == arbitrary_local_audio
        }),
{
    lemma_names_differ();
    let tools = crate::config::model::visible_tools(
        has_cues,
        arbitrary_text,
        arbitrary_local_audio,
    );
    assert(tools[0] == "cancel_playback"@);
    assert(tools[1] == "get_audio_capabilities"@);
    assert(tools[2] == "get_playback_status"@);
    let cues: int = if has_cues {
        2
    } else {
        0
    };
    let speech: int = if arbitrary_text {
        1
    } else {
        0
    };
    if has_cues {
        assert(tools[3] == "list_audio_cues"@);
        assert(tools[4] == "play_audio_cue"@);
    }
    if arbitrary_text {
        assert(tools[3 + cues] == "speak_text"@);
    }
    if arbitrary_local_audio {
        assert(tools[3 + cues + speech] == "play_audio_source"@);
    }
}

/// Inspection and cancellation are always visible. A tool that makes sound is
/// visible exactly where the profile permits it.
pub proof fn law_visible_tools_are_the_permitted_ones(
    profile: ProfileConfig,
    capabilities: EffectiveCapabilities,
)
    requires
        capabilities.reflects(profile),
    ensures
        listed(capabilities, "cancel_playback"@),
        listed(capabilities, "get_audio_capabilities"@),
        listed(capabilities, "get_playback_status"@),
        listed(capabilities, "list_audio_cues"@) == (profile.audio_cues@.len() > 0),
        listed(capabilities, "play_audio_cue"@) == (profile.audio_cues@.len() > 0),
        listed(capabilities, "speak_text"@) == (profile.permissions.arbitrary_text
            && profile.tts.enabled),
        listed(capabilities, "play_audio_source"@) == profile.permissions.arbitrary_local_audio,
{
    lemma_visible(
        profile.audio_cues@.len() > 0,
        profile.permissions.arbitrary_text && profile.tts.enabled,
        profile.permissions.arbitrary_local_audio,
    );
}

/// A call of a tool that is not visible is refused all the same, whatever it
/// asks for.
pub proof fn law_hidden_tools_are_refused(
    server: AgentSpeakServer,
    style: PathStyle,
    speech: SpeakTextInput,
    options: Result<(), String>,
    source: PlaySourceInput,
    cue: PlayAudioCueInput,
)
    requires
        server.capabilities_view().reflects(server.profile_view()),
    ensures
        !listed(server.capabilities_view(), "speak_text"@) ==> super::tools::speak_fault(
            server,
            speech,
            options,
        ) is Some,
        !listed(server.capabilities_view(), "play_audio_source"@) ==> super::tools::source_fault(
            server,
            style,
            source,
        ) is Some,
        !listed(server.capabilities_view(), "play_audio_cue"@) ==> super::tools::cue_fault(
            server,
            cue,
        ) is Some,
{
    law_visible_tools_are_the_permitted_ones(server.profile_view(), server.capabilities_view());
}

/// The target is one of the startup allowlist and takes that kind of sound.
pub open spec fn allowlisted(
    profile: ProfileConfig,
    category: OutputCategory,
    output: crate::playback::audio::OutputTarget,
) -> bool {
    exists|i: int|
        0 <= i < profile.outputs.targets@.len() && (
        #[trigger] profile.outputs.targets@[i]).allow@.contains(category)
            && super::server::routed_to(profile.outputs.targets@[i], output)
}

/// A job keeps the startup policy: its gain lies in the range, its way to start
/// is allowed, and its output is one of the allowlist.
pub open spec fn within_policy(
    profile: ProfileConfig,
    gain: crate::gain::Gain,
    concurrency: crate::playback::job::ConcurrencyMode,
    category: OutputCategory,
    output: crate::playback::audio::OutputTarget,
) -> bool {
    &&& gain.within(profile.playback.minimum_gain, profile.playback.maximum_gain)
    &&& exists|i: int|
        0 <= i < profile.playback.allowed_concurrency@.len() && super::server::actor_mode(
            #[trigger] profile.playback.allowed_concurrency@[i],
        ) == concurrency
    &&& allowlisted(profile, category, output)
}

proof fn lemma_found_target(
    targets: Seq<crate::config::model::OutputTargetConfig>,
    id: Seq<char>,
) -> (at: int)
    requires
        super::server::found_target(targets, id) is Some,
    ensures
        0 <= at < targets.len(),
        super::server::found_target(targets, id) == Some(targets[at]),
        targets[at].id@ == id,
    decreases targets.len(),
{
    if targets[0].id@ == id {
        0
    } else {
        let rest = lemma_found_target(targets.skip(1), id);
        assert(targets.skip(1)[rest] == targets[rest + 1]);
        rest + 1
    }
}

proof fn lemma_within_policy(
    server: AgentSpeakServer,
    gain: Option<crate::gain::Gain>,
    concurrency: Option<crate::config::model::ConcurrencyMode>,
    default_gain: crate::gain::Gain,
    requested: Option<String>,
    category: OutputCategory,
    output: crate::playback::audio::OutputTarget,
)
    requires
        super::server::options_fault(
            server.profile_view(),
            server.range_view(),
            gain,
            concurrency,
            default_gain,
        ) is None,
        super::server::target_fault(server.profile_view(), requested, category) is None,
        super::tools::output_chosen(server, requested, output),
    ensures
        within_policy(
            server.profile_view(),
            super::server::chosen_gain(gain, default_gain),
            super::server::actor_mode(
                super::server::chosen_concurrency(server.profile_view(), concurrency),
            ),
            category,
            output,
        ),
{
    let profile = server.profile_view();
    let mode = super::server::chosen_concurrency(profile, concurrency);
    let at = choose|i: int|
        0 <= i < profile.playback.allowed_concurrency@.len()
            && profile.playback.allowed_concurrency@[i] == mode;
    assert(super::server::actor_mode(profile.playback.allowed_concurrency@[at])
        == super::server::actor_mode(mode));
    let found = lemma_found_target(
        profile.outputs.targets@,
        super::server::chosen_target(profile, requested),
    );
    assert(profile.outputs.targets@[found].allow@.contains(category));
}

/// Speech that is accepted keeps the startup policy, and its text is within the
/// limit and not blank.
pub proof fn law_accepted_speech_keeps_the_policy<F>(
    server: AgentSpeakServer,
    id: PlaybackId,
    input: SpeakTextInput,
    options: Result<(), String>,
    call: ToolCall<F>,
)
    requires
        super::tools::speak_fault(server, input, options) is None,
        super::tools::speaks(server, id, input, call),
    ensures
        within_policy(
            server.profile_view(),
            call.job.gain,
            call.concurrency,
            OutputCategory::Speech,
            call.job.output_target,
        ),
        server.profile_view().permissions.arbitrary_text,
        server.profile_view().tts.enabled,
        input.text@.len() <= server.profile_view().tts.maximum_characters,
        !crate::text::blank(input.text@),
{
    lemma_within_policy(
        server,
        input.gain,
        input.concurrency,
        server.profile_view().playback.default_gain,
        input.output_target,
        OutputCategory::Speech,
        call.job.output_target,
    );
}

/// A file that is accepted keeps the startup policy, and its path is an absolute
/// local one.
pub proof fn law_accepted_source_keeps_the_policy(
    server: AgentSpeakServer,
    style: PathStyle,
    input: PlaySourceInput,
    pending: PendingAudio,
)
    requires
        super::tools::source_fault(server, style, input) is None,
        super::tools::plays_source(server, input, pending),
    ensures
        within_policy(
            server.profile_view(),
            pending.gain,
            pending.concurrency,
            OutputCategory::Audio,
            pending.output_target,
        ),
        server.profile_view().permissions.arbitrary_local_audio,
        crate::paths::local_absolute(style, pending.path@),
{
    lemma_within_policy(
        server,
        input.gain,
        input.concurrency,
        server.profile_view().playback.default_gain,
        input.output_target,
        OutputCategory::Audio,
        pending.output_target,
    );
}

/// A cue that is accepted keeps the startup policy.
pub proof fn law_accepted_cue_keeps_the_policy<F>(
    server: AgentSpeakServer,
    id: PlaybackId,
    input: PlayAudioCueInput,
    cue: AudioCueConfig,
    call: CueCall<F>,
)
    requires
        super::tools::cue_fault(server, input) is None,
        super::tools::found_cue(server.profile_view().audio_cues@, input.cue_id@) == Some(cue),
        super::tools::plays_cue(server, id, input, cue, call),
    ensures
        match call {
            CueCall::Speech(call) => within_policy(
                server.profile_view(),
                call.job.gain,
                call.concurrency,
                OutputCategory::Speech,
                call.job.output_target,
            ),
            CueCall::AudioFile(pending) => within_policy(
                server.profile_view(),
                pending.gain,
                pending.concurrency,
                OutputCategory::Audio,
                pending.output_target,
            ),
        },
{
    let output = match call {
        CueCall::Speech(call) => call.job.output_target,
        CueCall::AudioFile(pending) => pending.output_target,
    };
    lemma_within_policy(
        server,
        input.gain,
        input.concurrency,
        cue.default_gain,
        input.output_target,
        super::tools::cue_category(cue),
        output,
    );
}

/// What was said reaches the history only where the profile opts in, and then
/// only for arbitrary speech.
pub proof fn law_spoken_text_is_opt_in<F>(
    server: AgentSpeakServer,
    id: PlaybackId,
    speech: SpeakTextInput,
    spoken: ToolCall<F>,
    input: PlayAudioCueInput,
    cue: AudioCueConfig,
    call: CueCall<F>,
)
    requires
        super::tools::speaks(server, id, speech, spoken),
        super::tools::plays_cue(server, id, input, cue, call),
    ensures
        spoken.history.spoken_text is Some
            == server.profile_view().logging.history_include_spoken_text,
        match call {
            CueCall::Speech(call) => call.history.spoken_text is None,
            CueCall::AudioFile(pending) => pending.history.spoken_text is None,
        },
{
}

/// No detail of a failure reaches a client: errors that differ in their detail
/// alone are answered alike.
pub proof fn law_failures_are_sanitized(left: String, right: String)
    ensures
        super::failure::playback_failure(PlaybackError::Backend(left))
            == super::failure::playback_failure(PlaybackError::Backend(right)),
        super::failure::playback_failure(PlaybackError::OutputUnavailable(left))
            == super::failure::playback_failure(PlaybackError::OutputUnavailable(right)),
        super::failure::playback_failure(PlaybackError::OpenFile(left))
            == super::failure::playback_failure(PlaybackError::OpenFile(right)),
{
}

/// A value that names no target of the allowlist is refused before playback,
/// whatever else the request asks for.
pub proof fn law_unknown_output_is_refused(
    server: AgentSpeakServer,
    style: PathStyle,
    speech: SpeakTextInput,
    options: Result<(), String>,
    source: PlaySourceInput,
    cue: PlayAudioCueInput,
    requested: String,
)
    requires
        forall|i: int|
            0 <= i < server.profile_view().outputs.targets@.len() ==> (
            #[trigger] server.profile_view().outputs.targets@[i]).id@ != requested@,
    ensures
        speech.output_target == Some(requested) ==> super::tools::speak_fault(
            server,
            speech,
            options,
        ) is Some,
        source.output_target == Some(requested) ==> super::tools::source_fault(
            server,
            style,
            source,
        ) is Some,
        cue.output_target == Some(requested) ==> super::tools::cue_fault(server, cue) is Some,
{
    let targets = server.profile_view().outputs.targets@;
    if super::server::found_target(targets, requested@) is Some {
        let at = lemma_found_target(targets, requested@);
        assert(targets[at].id@ == requested@);
    }
}

} // verus!
