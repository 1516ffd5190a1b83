//! The startup policy that every tool call is held to.
use super::failure::ToolFailure;
use crate::config::load::ValidatedConfig;
use crate::config::model::ConcurrencyMode as PolicyConcurrency;
use crate::config::model::{
    EffectiveCapabilities, OutputCategory, OutputTargetConfig, OutputTargetKind, ProfileConfig,
};
use crate::gain::Gain;
use crate::playback::audio::OutputTarget;
use crate::playback::job::ConcurrencyMode;
use crate::text::{join, join3, same_text};
use vstd::prelude::*;

verus! {

pub const SERVER_INSTRUCTIONS: &'static str = "Agent Speak creates audible, non-idempotent side effects. Use it only when the user asks for audible output or a startup-approved audio cue description clearly applies. Before the first playback action in a session, call get_audio_capabilities. Call list_audio_cues before selecting an audio cue unless its catalog was already retrieved in this session. Omit gain, concurrency, and output_target to use the user's configured defaults. enqueue waits behind active playback; interrupt stops every active item, starts the replacement, and retains already queued items; mix starts alongside active items up to the advertised stream limit and otherwise waits in the FIFO. A successful playback call means accepted into the queue, not completed or audible. Use get_playback_status with its playback ID when terminal confirmation matters; do not repeat playback merely because completion is unconfirmed. Use cancel_playback only when the user asks to stop an accepted item or when stale playback must be stopped.";

/// Every tool, by name.
pub open spec fn tool_names() -> Seq<Seq<char>> {
    seq![
        "cancel_playback"@,
        "get_audio_capabilities"@,
        "get_playback_status"@,
        "list_audio_cues"@,
        "play_audio_cue"@,
        "play_audio_source"@,
        "speak_text"@,
    ]
}

/// The bounds of the allowed gain, written with two decimals.
#[derive(Debug)]
pub struct GainRange {
    pub minimum: String,
    pub maximum: String,
}

/// A validated profile with the decisions that it leads to.
#[derive(Debug)]
pub struct AgentSpeakServer {
    config: ValidatedConfig,
    gain_range: GainRange,
}

/// The gain and the way to start that a request comes to.
pub open spec fn chosen_gain(requested: Option<Gain>, default_gain: Gain) -> Gain {
    match requested {
        Some(gain) => gain,
        None => default_gain,
    }
}

pub open spec fn chosen_concurrency(
    profile: ProfileConfig,
    requested: Option<PolicyConcurrency>,
) -> PolicyConcurrency {
    match requested {
        Some(mode) => mode,
        None => profile.playback.default_concurrency,
    }
}

/// How the actor is to start an item.
pub open spec fn actor_mode(mode: PolicyConcurrency) -> ConcurrencyMode {
    match mode {
        PolicyConcurrency::Enqueue => ConcurrencyMode::Enqueue,
        PolicyConcurrency::Interrupt => ConcurrencyMode::Interrupt,
        PolicyConcurrency::Mix => ConcurrencyMode::Mix,
    }
}

/// The sentence about a gain outside of its range.
pub open spec fn gain_range_text(range: GainRange) -> Seq<char> {
    "gain must be between "@ + range.minimum@ + " and "@ + range.maximum@
}

/// Why the requested gain and way to start are refused, if they are.
pub open spec fn options_fault(
    profile: ProfileConfig,
    range: GainRange,
    gain: Option<Gain>,
    concurrency: Option<PolicyConcurrency>,
    default_gain: Gain,
) -> Option<super::failure::FailureModel> {
    if !chosen_gain(gain, default_gain).within(
        profile.playback.minimum_gain,
        profile.playback.maximum_gain,
    ) {
        Some(super::failure::failure("invalid_gain"@, gain_range_text(range), false))
    } else if !profile.playback.allowed_concurrency@.contains(
        chosen_concurrency(profile, concurrency),
    ) {
        Some(
            super::failure::failure(
                "concurrency_not_allowed"@,
                "the requested concurrency mode is not allowed by startup policy"@,
                false,
            ),
        )
    } else {
        None
    }
}

/// The first target of that name.
pub open spec fn found_target(targets: Seq<OutputTargetConfig>, id: Seq<char>) -> Option<
    OutputTargetConfig,
>
    decreases targets.len(),
{
    if targets.len() == 0 {
        None
    } else if targets[0].id@ == id {
        Some(targets[0])
    } else {
        found_target(targets.skip(1), id)
    }
}

/// The name of the target that a request comes to.
pub open spec fn chosen_target(profile: ProfileConfig, requested: Option<String>) -> Seq<char> {
    match requested {
        Some(id) => id@,
        None => profile.outputs.default_target@,
    }
}

/// Why the requested output is refused, if it is.
pub open spec fn target_fault(
    profile: ProfileConfig,
    requested: Option<String>,
    category: OutputCategory,
) -> Option<super::failure::FailureModel> {
    match found_target(profile.outputs.targets@, chosen_target(profile, requested)) {
        None => Some(
            super::failure::failure(
                "unknown_output_target"@,
                "output target is not present in the startup allowlist"@,
                false,
            ),
        ),
        Some(target) => if !target.allow@.contains(category) {
            Some(
                super::failure::failure(
                    "output_not_allowed"@,
                    "output target does not allow this kind of playback"@,
                    false,
                ),
            )
        } else if target.kind is Device && target.device_id is None {
            Some(
                super::failure::failure(
                    "invalid_output_target"@,
                    "configured device output has no endpoint identity"@,
                    false,
                ),
            )
        } else {
            None
        },
    }
}

/// Where the audio of a request goes.
pub open spec fn routed_to(target: OutputTargetConfig, output: OutputTarget) -> bool {
    match target.kind {
        OutputTargetKind::SystemDefault => output == OutputTarget::SystemDefault,
        OutputTargetKind::Device => output matches OutputTarget::DeviceId(id)
            && target.device_id matches Some(device) && id@ == device@,
    }
}

/// What a requested gain and way to start are answered.
pub open spec fn options_decided(
    profile: ProfileConfig,
    range: GainRange,
    gain: Option<Gain>,
    concurrency: Option<PolicyConcurrency>,
    default_gain: Gain,
    result: Result<(Gain, ConcurrencyMode), ToolFailure>,
) -> bool {
    match result {
        Ok(options) => {
            &&& options_fault(profile, range, gain, concurrency, default_gain) is None
            &&& options.0 == chosen_gain(gain, default_gain)
            &&& options.1 == actor_mode(chosen_concurrency(profile, concurrency))
        },
        Err(refusal) => options_fault(profile, range, gain, concurrency, default_gain) == Some(
            refusal@,
        ),
    }
}

/// What a requested output is answered.
pub open spec fn target_decided(
    profile: ProfileConfig,
    requested: Option<String>,
    category: OutputCategory,
    result: Result<(String, OutputTarget), ToolFailure>,
) -> bool {
    match result {
        Ok(output) => {
            &&& target_fault(profile, requested, category) is None
            &&& output.0@ == chosen_target(profile, requested)
            &&& found_target(
                profile.outputs.targets@,
                chosen_target(profile, requested),
            ) matches Some(target) && routed_to(target, output.1)
        },
        Err(refusal) => target_fault(profile, requested, category) == Some(refusal@),
    }
}

fn allows_mode(allowed: &Vec<PolicyConcurrency>, mode: PolicyConcurrency) -> (result: bool)
    ensures
        result == allowed@.contains(mode),
{
    let mut i: usize = 0;
    while i < allowed.len()
        invariant
            i <= allowed@.len(),
            forall|j: int| 0 <= j < i ==> #[trigger] allowed@[j] != mode,
        decreases allowed@.len() - i,
    {
        if allowed[i] == mode {
            assert(allowed@[i as int] == mode);
            return true;
        }
        i += 1;
    }
    false
}

fn allows_category(allowed: &Vec<OutputCategory>, category: OutputCategory) -> (result: bool)
    ensures
        result == allowed@.contains(category),
{
    let mut i: usize = 0;
    while i < allowed.len()
        invariant
            i <= allowed@.len(),
            forall|j: int| 0 <= j < i ==> #[trigger] allowed@[j] != category,
        decreases allowed@.len() - i,
    {
        if allowed[i] == category {
            assert(allowed@[i as int] == category);
            return true;
        }
        i += 1;
    }
    false
}

fn find_target<'a>(targets: &'a Vec<OutputTargetConfig>, id: &str) -> (found: Option<
    &'a OutputTargetConfig,
>)
    ensures
        match found {
            Some(target) => found_target(targets@, id@) == Some(*target),
            None => found_target(targets@, id@) is None,
        },
{
    let mut i: usize = 0;
    assert(targets@.skip(0) =~= targets@);
    while i < targets.len()
        invariant
            i <= targets@.len(),
            found_target(targets@, id@) == found_target(targets@.skip(i as int), id@),
        decreases targets@.len() - i,
    {
        assert(targets@.skip(i as int)[0] == targets@[i as int]);
        assert(targets@.skip(i as int).skip(1) =~= targets@.skip(i + 1));
        if same_text(targets[i].id.as_str(), id) {
            return Some(&targets[i]);
        }
        i += 1;
    }
    None
}

impl AgentSpeakServer {
    pub closed spec fn profile_view(&self) -> ProfileConfig {
        self.config.profile_view()
    }

    pub closed spec fn capabilities_view(&self) -> EffectiveCapabilities {
        self.config.capabilities_view()
    }

    pub closed spec fn range_view(&self) -> GainRange {
        self.gain_range
    }

    /// Freeze the policy of a validated profile. `gain_range` holds the bounds of
    /// its gain in writing.
    pub fn from_parts(config: ValidatedConfig, gain_range: GainRange) -> (server: Self)
        ensures
            server.profile_view() == config.profile_view(),
            server.capabilities_view() == config.capabilities_view(),
            server.range_view() == gain_range,
    {
        AgentSpeakServer { config, gain_range }
    }

    pub fn profile(&self) -> (profile: &ProfileConfig)
        ensures
            *profile == self.profile_view(),
    {
        self.config.profile()
    }

    /// What the capabilities tool answers.
    pub fn get_audio_capabilities(&self) -> (capabilities: &EffectiveCapabilities)
        ensures
            *capabilities == self.capabilities_view(),
    {
        self.config.capabilities()
    }

    /// Whether a tool is visible under this policy.
    pub fn is_registered(&self, name: &str) -> (result: bool)
        ensures
            result == crate::config::model::texts(self.capabilities_view().tools@).contains(name@),
    {
        let tools = &self.config.capabilities().tools;
        let mut i: usize = 0;
        while i < tools.len()
            invariant
                i <= tools@.len(),
                *tools == self.capabilities_view().tools,
                forall|j: int| 0 <= j < i ==> #[trigger] tools@[j]@ != name@,
            decreases tools@.len() - i,
        {
            if same_text(tools[i].as_str(), name) {
                assert(crate::config::model::texts(tools@)[i as int] == name@);
                return true;
            }
            i += 1;
        }
        assert(forall|j: int|
            0 <= j < tools@.len() ==> #[trigger] crate::config::model::texts(tools@)[j] != name@);
        false
    }

    /// Visible tool names, by name. This never lists a tool that the policy
    /// disables.
    pub fn registered_tool_names(&self) -> (names: Vec<String>)
        ensures
            crate::config::model::texts(names@) == tool_names().filter(
                |name: Seq<char>|
                    crate::config::model::texts(self.capabilities_view().tools@).contains(name),
            ),
    {
        let all = [
            "cancel_playback",
            "get_audio_capabilities",
            "get_playback_status",
            "list_audio_cues",
            "play_audio_cue",
            "play_audio_source",
            "speak_text",
        ];
        let ghost visible = |name: Seq<char>|
            crate::config::model::texts(self.capabilities_view().tools@).contains(name);
        let mut names: Vec<String> = Vec::new();
        let mut i: usize = 0;
        proof {
            reveal(Seq::filter);
            assert(tool_names().take(0) =~= Seq::empty());
            assert(crate::config::model::texts(names@) =~= Seq::empty());
        }
        while i < 7
            invariant
                i <= 7,
                tool_names().len() == 7,
                all@.len() == 7,
                forall|j: int| 0 <= j < 7 ==> (#[trigger] all@[j])@ == tool_names()[j],
                visible == (|name: Seq<char>|
                    crate::config::model::texts(self.capabilities_view().tools@).contains(name)),
                crate::config::model::texts(names@) == tool_names().take(i as int).filter(visible),
            decreases 7 - i,
        {
            let name = all[i];
            let ghost before = names@;
            proof {
                reveal(Seq::filter);
                assert(tool_names().take(i + 1).drop_last() =~= tool_names().take(i as int));
                assert(tool_names().take(i + 1).last() == name@);
            }
            if self.is_registered(name) {
                names.push(name.to_string());
                assert(crate::config::model::texts(names@) =~= crate::config::model::texts(
                    before,
                ).push(name@));
            }
            i += 1;
        }
        assert(tool_names().take(7) =~= tool_names());
        names
    }

    /// The gain and the way to start that a request comes to, within the policy.
    pub fn resolve_playback_options(
        &self,
        gain: Option<Gain>,
        concurrency: Option<PolicyConcurrency>,
        default_gain: Gain,
    ) -> (result: Result<(Gain, ConcurrencyMode), ToolFailure>)
        ensures
            options_decided(
                self.profile_view(),
                self.range_view(),
                gain,
                concurrency,
                default_gain,
                result,
            ),
    {
        let policy = &self.config.profile().playback;
        let gain = match gain {
            Some(gain) => gain,
            None => default_gain,
        };
        if !gain.is_within(policy.minimum_gain, policy.maximum_gain) {
            let start = join3("gain must be between ", self.gain_range.minimum.as_str(), " and ");
            let message = join(start.as_str(), self.gain_range.maximum.as_str());
            return Err(ToolFailure::new("invalid_gain", message.as_str(), false));
        }
        let concurrency = match concurrency {
            Some(mode) => mode,
            None => policy.default_concurrency,
        };
        if !allows_mode(&policy.allowed_concurrency, concurrency) {
            return Err(
                ToolFailure::new(
                    "concurrency_not_allowed",
                    "the requested concurrency mode is not allowed by startup policy",
                    false,
                ),
            );
        }
        let mode = match concurrency {
            PolicyConcurrency::Enqueue => ConcurrencyMode::Enqueue,
            PolicyConcurrency::Interrupt => ConcurrencyMode::Interrupt,
            PolicyConcurrency::Mix => ConcurrencyMode::Mix,
        };
        Ok((gain, mode))
    }

    /// The output that a request comes to, within the allowlist.
    pub fn resolve_output_target(
        &self,
        requested: &Option<String>,
        category: OutputCategory,
    ) -> (result: Result<(String, OutputTarget), ToolFailure>)
        ensures
            target_decided(self.profile_view(), *requested, category, result),
    {
        let outputs = &self.config.profile().outputs;
        let target_id = match requested {
            Some(id) => id.as_str(),
            None => outputs.default_target.as_str(),
        };
        let target = match find_target(&outputs.targets, target_id) {
            Some(target) => target,
            None => {
                return Err(
                    ToolFailure::new(
                        "unknown_output_target",
                        "output target is not present in the startup allowlist",
                        false,
                    ),
                );
            },
        };
        if !allows_category(&target.allow, category) {
            return Err(
                ToolFailure::new(
                    "output_not_allowed",
                    "output target does not allow this kind of playback",
                    false,
                ),
            );
        }
        let output = match target.kind {
            OutputTargetKind::SystemDefault => OutputTarget::SystemDefault,
            OutputTargetKind::Device => match &target.device_id {
                Some(device) => OutputTarget::DeviceId(device.clone()),
                None => {
                    return Err(
                        ToolFailure::new(
                            "invalid_output_target",
                            "configured device output has no endpoint identity",
                            false,
                        ),
                    );
                },
            },
        };
        Ok((target_id.to_string(), output))
    }
}

} // verus!
