//! The profile that `init` starts a user off with.
use super::aliases::outputs_for_devices;
use super::args::{InitArgs, InitError};
use crate::config::laws;
use crate::config::load::{quick_profile, Platform, QuickProfileOverrides};
use crate::config::model::ProfileConfig;
use crate::config::validate;
use crate::config::validate::PathFacts;
use crate::paths::PathStyle;
use crate::playback::audio::OutputDevice;
use crate::playback::error::PlaybackError;
use crate::text::join3;
use vstd::prelude::*;

verus! {

/// A profile with the commented examples that follow it and the file that it goes
/// to.
#[derive(Debug)]
pub struct StarterProfile {
    pub profile: ProfileConfig,
    pub examples: String,
    pub output: String,
}

/// The quick profile under the name `local`, with every device in its outputs.
pub open spec fn is_starter_profile(
    profile: ProfileConfig,
    devices: Seq<OutputDevice>,
    platform: Platform,
) -> bool {
    &&& profile.profile_name@ == "local"@
    &&& super::aliases::outputs_generated(devices, profile.outputs)
    &&& exists|quick: ProfileConfig, overrides: QuickProfileOverrides|
        #[trigger] crate::config::load::is_quick_profile(quick, overrides, platform)
            && is_without_overrides(overrides) && profile == (ProfileConfig {
            profile_name: profile.profile_name,
            outputs: profile.outputs,
            ..quick
        })
}

/// Nothing is overridden.
pub open spec fn is_without_overrides(overrides: QuickProfileOverrides) -> bool {
    &&& overrides.voice_id is None
    &&& overrides.minimum_gain is None
    &&& overrides.maximum_gain is None
    &&& overrides.default_gain is None
    &&& overrides.maximum_text_characters is None
    &&& overrides.log_level is None
}

/// The path in the example of an audio cue.
pub open spec fn example_path(style: PathStyle) -> Seq<char> {
    match style {
        PathStyle::Windows => "C:/path/to/your/sound.wav"@,
        PathStyle::Posix => "/path/to/your/sound.wav"@,
    }
}

/// Commented examples of audio cues.
pub open spec fn examples_text(style: PathStyle) -> Seq<char> {
    "\n# Example speech cue (remove `# ` from each line to enable):\n# [[audio_cues]]\n# id = \"needs-attention\"\n# kind = \"speech\"\n# text = \"Your agent needs your attention.\"\n# description = \"Use when work cannot continue without user input.\"\n# default_gain = 0.4\n\n# Example audio cue (provide the referenced file yourself):\n# [[audio_cues]]\n# id = \"finished-chime\"\n# kind = \"audio_file\"\n# source = \""@
        + example_path(style)
        + "\"\n# description = \"Use when a long-running task is complete.\"\n# default_gain = 0.4\n"@
}

/// Write the examples that follow a generated profile.
pub fn profile_examples(style: PathStyle) -> (examples: String)
    ensures
        examples@ == examples_text(style),
{
    let path = match style {
        PathStyle::Windows => "C:/path/to/your/sound.wav",
        PathStyle::Posix => "/path/to/your/sound.wav",
    };
    join3(
        "\n# Example speech cue (remove `# ` from each line to enable):\n# [[audio_cues]]\n# id = \"needs-attention\"\n# kind = \"speech\"\n# text = \"Your agent needs your attention.\"\n# description = \"Use when work cannot continue without user input.\"\n# default_gain = 0.4\n\n# Example audio cue (provide the referenced file yourself):\n# [[audio_cues]]\n# id = \"finished-chime\"\n# kind = \"audio_file\"\n# source = \"",
        path,
        "\"\n# description = \"Use when a long-running task is complete.\"\n# default_gain = 0.4\n",
    )
}

proof fn lemma_quick_profile_is_kept(
    quick: ProfileConfig,
    overrides: QuickProfileOverrides,
    platform: Platform,
    facts: PathFacts,
    after: ProfileConfig,
)
    requires
        crate::config::load::is_quick_profile(quick, overrides, platform),
        facts.is_pathless(),
        validate::profile_resolved(quick, facts, after),
    ensures
        crate::config::load::is_quick_profile(after, overrides, platform),
{
}

/// A complete profile for the devices of this system.
pub fn complete_profile(devices: &Vec<OutputDevice>, platform: Platform) -> (profile: ProfileConfig)
    ensures
        is_starter_profile(profile, devices@, platform),
{
    let overrides = QuickProfileOverrides::default();
    let ghost chosen = overrides;
    let quick = quick_profile(overrides, platform);
    proof {
        let (before, facts) = choose|before: ProfileConfig, facts: PathFacts| #[trigger]
            crate::config::load::finished(
                before,
                facts,
                crate::config::load::ConfigOrigin::QuickProfile,
                quick,
            ) && crate::config::load::is_quick_profile(before, chosen, platform)
                && facts.is_pathless();
        laws::law_quick_defaults_are_in_order();
        laws::law_quick_profile_is_valid(before, chosen, platform, facts);
        assert(quick is Ok);
        lemma_quick_profile_is_kept(
            before,
            chosen,
            platform,
            facts,
            quick->Ok_0.profile_view(),
        );
    }
    let mut profile = quick.unwrap().into_profile();
    let ghost built = profile;
    profile.profile_name = "local".to_string();
    profile.outputs = outputs_for_devices(devices);
    assert(crate::config::load::is_quick_profile(built, chosen, platform));
    profile
}

impl InitArgs {
    /// What to write, and where. The file must not exist yet.
    pub fn generate(
        &self,
        devices: Result<Vec<OutputDevice>, PlaybackError>,
        platform: Platform,
        style: PathStyle,
    ) -> (result: Result<StarterProfile, InitError>)
        ensures
            match devices {
                Err(error) => result == Err::<StarterProfile, InitError>(
                    InitError::Playback(error),
                ),
                Ok(devices) => {
                    &&& result matches Ok(starter)
                    &&& is_starter_profile(starter.profile, devices@, platform)
                    &&& starter.examples@ == examples_text(style)
                    &&& starter.output == self.output
                },
            },
    {
        match devices {
            Err(error) => Err(InitError::Playback(error)),
            Ok(devices) => Ok(
                StarterProfile {
                    profile: complete_profile(&devices, platform),
                    examples: profile_examples(style),
                    output: self.output.clone(),
                },
            ),
        }
    }
}

/// A generated profile is valid, where the system's own names are ones that a
/// profile may hold: a device identity that is not blank, and a name of no more
/// than a thousand characters.
pub proof fn law_starter_profile_is_valid(
    profile: ProfileConfig,
    devices: Seq<OutputDevice>,
    platform: Platform,
    facts: PathFacts,
)
    requires
        is_starter_profile(profile, devices, platform),
        facts.is_pathless(),
        forall|i: int|
            0 <= i < devices.len() ==> (#[trigger] devices[i]).name@.len() <= 1_000
                && !crate::text::blank(devices[i].device_id@),
    ensures
        validate::all_issues(profile, facts).len() == 0,
{
    let (quick, overrides) = choose|quick: ProfileConfig, overrides: QuickProfileOverrides|
        #[trigger] crate::config::load::is_quick_profile(quick, overrides, platform)
            && is_without_overrides(overrides) && profile == (ProfileConfig {
            profile_name: profile.profile_name,
            outputs: profile.outputs,
            ..quick
        });
    laws::law_quick_defaults_are_in_order();
    laws::law_quick_profile_is_valid(quick, overrides, platform, facts);
    laws::law_valid_means_sound(quick, facts);
    laws::law_valid_means_sound(profile, facts);
    reveal_strlit("local");
    reveal_strlit("system");
    reveal_strlit("Current system default audio device");
    super::aliases::law_generated_aliases_are_valid_and_unique(devices, profile.outputs);
    let targets = profile.outputs.targets@;
    let none = Seq::<validate::IssueModel>::empty();
    assert forall|i: int| 0 <= i < targets.len() implies #[trigger] laws::target_sound(
        profile,
        i,
    ) by {
        if i > 0 {
            let at = i - 1;
            assert(super::aliases::targets_device(targets[at + 1], devices[at]));
            assert(devices[at].name@.len() <= 1_000);
        }
    }
    laws::lemma_targets(none, profile, targets.len());
    assert(targets[0].id@ == profile.outputs.default_target@);
    assert(validate::target_listed(targets, profile.outputs.default_target@));
}

} // verus!
