use super::model::{
    ConcurrencyMode, EffectiveCapabilities, LogLevel, LoggingConfig, OutputCategory,
    OutputTargetConfig, OutputTargetKind, OutputsConfig, PermissionsConfig, PlaybackConfig,
    ProfileConfig, SystemTtsConfig, TtsBackend, TtsConfig, UtterPipeTtsConfig,
    DEFAULT_MAXIMUM_MIX_STREAMS, SCHEMA_VERSION,
};
use super::toml_value::{TomlModel, TomlTable, TomlValue};
use super::validate::{resolve_and_validate, HistoryFacts, PathFacts, ValidationIssue};
use crate::gain::{Gain, SEVEN_TENTHS_BITS, TWO_FIFTHS_BITS, ZERO_BITS};
use crate::paths::PathStyle;
use crate::text::{join, join3};
use vstd::prelude::*;

verus! {

#[verifier::external_type_specification]
#[verifier::external_body]
pub struct ExTomlError(toml::de::Error);

/// Where a configuration came from.
#[derive(Debug, PartialEq, Eq)]
pub enum ConfigOrigin {
    QuickProfile,
    File(String),
    Layered(Vec<String>),
}

/// Paths with commas between them.
pub open spec fn listed(paths: Seq<String>) -> Seq<char>
    decreases paths.len(),
{
    if paths.len() == 0 {
        Seq::empty()
    } else if paths.len() == 1 {
        paths[0]@
    } else {
        listed(paths.drop_last()) + ", "@ + paths.last()@
    }
}

impl ConfigOrigin {
    pub open spec fn description(self) -> Seq<char> {
        match self {
            ConfigOrigin::QuickProfile => "built-in quick profile"@,
            ConfigOrigin::File(path) => "explicit file "@ + path@,
            ConfigOrigin::Layered(paths) => "discovered layers (low to high): "@ + listed(paths@),
        }
    }

    /// The origin in words.
    pub fn describe(&self) -> (text: String)
        ensures
            text@ == self.description(),
    {
        match self {
            ConfigOrigin::QuickProfile => "built-in quick profile".to_string(),
            ConfigOrigin::File(path) => join("explicit file ", path.as_str()),
            ConfigOrigin::Layered(paths) => {
                let mut list = String::new();
                let mut i: usize = 0;
                while i < paths.len()
                    invariant
                        i <= paths@.len(),
                        list@ == listed(paths@.take(i as int)),
                    decreases paths@.len() - i,
                {
                    assert(paths@.take(i + 1).drop_last() =~= paths@.take(i as int));
                    if i > 0 {
                        list.append(", ");
                    }
                    list.append(paths[i].as_str());
                    assert(Seq::<char>::empty() + paths@[i as int]@ =~= paths@[i as int]@);
                    i += 1;
                }
                assert(paths@.take(i as int) =~= paths@);
                join("discovered layers (low to high): ", list.as_str())
            },
        }
    }
}

/// Every issue of a refused profile.
#[derive(Debug)]
pub struct ValidationErrors(pub Vec<ValidationIssue>);

/// One line for each issue.
pub open spec fn issue_lines(issues: Seq<ValidationIssue>) -> Seq<char>
    decreases issues.len(),
{
    if issues.len() == 0 {
        Seq::empty()
    } else {
        let line = "- "@ + issues.last().field@ + ": "@ + issues.last().message@;
        if issues.len() == 1 {
            line
        } else {
            issue_lines(issues.drop_last()) + "\n"@ + line
        }
    }
}

impl ValidationErrors {
    pub fn message(&self) -> (text: String)
        ensures
            text@ == issue_lines(self.0@),
    {
        let mut text = String::new();
        let mut i: usize = 0;
        while i < self.0.len()
            invariant
                i <= self.0@.len(),
                text@ == issue_lines(self.0@.take(i as int)),
            decreases self.0@.len() - i,
        {
            assert(self.0@.take(i + 1).drop_last() =~= self.0@.take(i as int));
            let issue = &self.0[i];
            let mut line = join3("- ", issue.field.as_str(), ": ");
            line.append(issue.message.as_str());
            if i > 0 {
                text.append("\n");
            }
            text.append(line.as_str());
            assert(Seq::<char>::empty() + line@ =~= line@);
            i += 1;
        }
        assert(self.0@.take(i as int) =~= self.0@);
        text
    }
}

/// Why a configuration could not be used.
#[derive(Debug)]
pub enum ConfigError {
    /// The configuration file could not be read.
    Read(String),
    /// The configuration is not a profile in TOML.
    Parse(String),
    /// There is no working directory to discover configuration from.
    CurrentDirectory(String),
    /// A discovered layer could not be read.
    LayerRead { path: String, source: String },
    /// A discovered layer is not TOML.
    LayerParse { path: String, source: toml::de::Error },
    /// The built-in defaults could not be written as TOML.
    DefaultSerialize(String),
    /// The configuration path has no parent directory.
    MissingParent,
    Validation(ValidationErrors),
}

/// What the TOML parser says of an error: what is wrong with a document, and
/// where.
pub uninterp spec fn error_text(error: toml::de::Error) -> Seq<char>;

/// The `Display` of `toml::de::Error`.
#[verifier::external_body]
fn parser_message(error: &toml::de::Error) -> (text: String)
    ensures
        text@ == error_text(*error),
{
    error.to_string()
}

impl ConfigError {
    /// The sentence that reports this error.
    pub open spec fn message_text(self) -> Seq<char> {
        match self {
            ConfigError::Read(detail) => "could not read the configuration file: "@ + detail@,
            ConfigError::Parse(detail) => "configuration is not valid TOML: "@ + detail@,
            ConfigError::CurrentDirectory(detail) =>
                "could not determine the working directory for configuration discovery: "@
                + detail@,
            ConfigError::LayerRead { path, source } =>
                "could not read discovered configuration layer "@ + path@ + ": "@ + source@,
            ConfigError::LayerParse { path, source } => "discovered configuration layer "@ + path@
                + " is not valid TOML: "@ + error_text(source),
            ConfigError::DefaultSerialize(detail) =>
                "built-in configuration defaults could not be represented as TOML: "@ + detail@,
            ConfigError::MissingParent => "configuration path has no parent directory"@,
            ConfigError::Validation(errors) => "configuration validation failed:\n"@
                + issue_lines(errors.0@),
        }
    }

    pub fn message(&self) -> (text: String)
        ensures
            text@ == self.message_text(),
    {
        match self {
            ConfigError::Read(detail) => join(
                "could not read the configuration file: ",
                detail.as_str(),
            ),
            ConfigError::Parse(detail) => join(
                "configuration is not valid TOML: ",
                detail.as_str(),
            ),
            ConfigError::CurrentDirectory(detail) => join(
                "could not determine the working directory for configuration discovery: ",
                detail.as_str(),
            ),
            ConfigError::LayerRead { path, source } => {
                let start = join3(
                    "could not read discovered configuration layer ",
                    path.as_str(),
                    ": ",
                );
                join(start.as_str(), source.as_str())
            },
            ConfigError::LayerParse { path, source } => {
                let start = join3(
                    "discovered configuration layer ",
                    path.as_str(),
                    " is not valid TOML: ",
                );
                join(start.as_str(), parser_message(source).as_str())
            },
            ConfigError::DefaultSerialize(detail) => join(
                "built-in configuration defaults could not be represented as TOML: ",
                detail.as_str(),
            ),
            ConfigError::MissingParent => "configuration path has no parent directory".to_string(),
            ConfigError::Validation(errors) => join(
                "configuration validation failed:\n",
                errors.message().as_str(),
            ),
        }
    }
}

/// A profile whose static invariants and configured filesystem paths have been
/// checked. Decoder and platform-backend checks still belong to server startup.
#[derive(Debug)]
pub struct ValidatedConfig {
    profile: ProfileConfig,
    capabilities: EffectiveCapabilities,
    origin: ConfigOrigin,
}

impl ValidatedConfig {
    pub closed spec fn profile_view(self) -> ProfileConfig {
        self.profile
    }

    pub closed spec fn capabilities_view(self) -> EffectiveCapabilities {
        self.capabilities
    }

    pub closed spec fn origin_view(self) -> ConfigOrigin {
        self.origin
    }

    pub fn profile(&self) -> (profile: &ProfileConfig)
        ensures
            *profile == self.profile_view(),
    {
        &self.profile
    }

    pub fn into_profile(self) -> (profile: ProfileConfig)
        ensures
            profile == self.profile_view(),
    {
        self.profile
    }

    pub fn capabilities(&self) -> (capabilities: &EffectiveCapabilities)
        ensures
            *capabilities == self.capabilities_view(),
    {
        &self.capabilities
    }

    pub fn origin(&self) -> (origin: &ConfigOrigin)
        ensures
            *origin == self.origin_view(),
    {
        &self.origin
    }
}

/// What validation makes of a profile: its issues, or the resolved profile with
/// the capabilities that it comes to.
pub open spec fn finished(
    profile: ProfileConfig,
    facts: PathFacts,
    origin: ConfigOrigin,
    result: Result<ValidatedConfig, ConfigError>,
) -> bool {
    match result {
        Ok(config) => {
            &&& super::validate::all_issues(profile, facts).len() == 0
            &&& super::validate::profile_resolved(profile, facts, config.profile_view())
            &&& config.capabilities_view().reflects(config.profile_view())
            &&& config.origin_view() == origin
        },
        Err(ConfigError::Validation(errors)) => {
            &&& super::validate::all_issues(profile, facts).len() > 0
            &&& super::validate::issue_models(errors.0@) == super::validate::all_issues(
                profile,
                facts,
            )
        },
        Err(_) => false,
    }
}

/// Validate a profile and derive its capabilities.
pub fn finish_validation(profile: ProfileConfig, facts: &PathFacts, origin: ConfigOrigin) -> (result:
    Result<ValidatedConfig, ConfigError>)
    requires
        profile.well_formed(),
    ensures
        finished(profile, *facts, origin, result),
{
    match resolve_and_validate(profile, facts) {
        Err(issues) => Err(ConfigError::Validation(ValidationErrors(issues))),
        Ok(valid) => {
            let capabilities = valid.derive_capabilities();
            Ok(ValidatedConfig { profile: valid, capabilities, origin })
        },
    }
}

// The quick profile.

/// The operating system that a profile is for.
#[derive(Clone, Copy, Debug, PartialEq, Eq, Structural)]
pub enum Platform {
    Windows,
    Macos,
    Linux,
    Other,
}

#[derive(Debug)]
pub struct QuickProfileOverrides {
    pub voice_id: Option<String>,
    pub minimum_gain: Option<Gain>,
    pub maximum_gain: Option<Gain>,
    pub default_gain: Option<Gain>,
    pub maximum_text_characters: Option<usize>,
    pub log_level: Option<LogLevel>,
}

impl Default for QuickProfileOverrides {
    fn default() -> (overrides: Self)
        ensures
            overrides.voice_id is None,
            overrides.minimum_gain is None,
            overrides.maximum_gain is None,
            overrides.default_gain is None,
            overrides.maximum_text_characters is None,
            overrides.log_level is None,
    {
        QuickProfileOverrides {
            voice_id: None,
            minimum_gain: None,
            maximum_gain: None,
            default_gain: None,
            maximum_text_characters: None,
            log_level: None,
        }
    }
}

impl OutputsConfig {
    /// One target, the current system default, for everything.
    pub open spec fn is_default(self) -> bool {
        &&& self.default_target@ == "system"@
        &&& self.targets@.len() == 1
        &&& self.targets@[0].id@ == "system"@
        &&& self.targets@[0].description@ == "Current system default audio device"@
        &&& self.targets@[0].kind is SystemDefault
        &&& self.targets@[0].device_id is None
        &&& self.targets@[0].allow@ == seq![OutputCategory::Audio, OutputCategory::Speech]
    }
}

impl Default for OutputsConfig {
    fn default() -> (outputs: Self)
        ensures
            outputs.is_default(),
    {
        let mut allow: Vec<OutputCategory> = Vec::new();
        allow.push(OutputCategory::Audio);
        allow.push(OutputCategory::Speech);
        assert(allow@ =~= seq![OutputCategory::Audio, OutputCategory::Speech]);
        let mut targets: Vec<OutputTargetConfig> = Vec::new();
        targets.push(
            OutputTargetConfig {
                id: "system".to_string(),
                description: "Current system default audio device".to_string(),
                kind: OutputTargetKind::SystemDefault,
                device_id: None,
                allow,
            },
        );
        OutputsConfig { default_target: "system".to_string(), targets }
    }
}

/// The speech backend of the quick profile: the eSpeak NG provider on Linux, the
/// native service elsewhere.
pub open spec fn is_quick_backend(
    backend: TtsBackend,
    voice_id: Option<String>,
    platform: Platform,
) -> bool {
    match backend {
        TtsBackend::Utterpipe(provider) => {
            &&& platform == Platform::Linux
            &&& provider.provider@ == "espeak-ng"@
            &&& provider.model_id is None
            &&& provider.voice_id is None
            &&& provider.audio_deliveries@.len() == 0
            &&& provider.provider_environment@.len() == 0
            &&& provider.agent_utterance_options@.len() == 0
            &&& provider.provider_options.model() == Map::<Seq<char>, TomlModel>::empty()
            &&& provider.utterance_options.model() == Map::<Seq<char>, TomlModel>::empty().insert(
                "voice"@,
                TomlModel::Text(
                    match voice_id {
                        Some(voice) => voice@,
                        None => "default"@,
                    },
                ),
            )
            &&& provider.well_formed()
        },
        TtsBackend::System(system) => {
            &&& platform != Platform::Linux
            &&& system.voice_id@ == match voice_id {
                Some(voice) => voice@,
                None => Seq::<char>::empty(),
            }
        },
    }
}

pub open spec fn or_bits(chosen: Option<Gain>, bits: u64) -> Gain {
    match chosen {
        Some(gain) => gain,
        None => Gain { bits },
    }
}

/// The profile that is used where nothing is configured.
pub open spec fn is_quick_profile(
    profile: ProfileConfig,
    overrides: QuickProfileOverrides,
    platform: Platform,
) -> bool {
    &&& profile.schema_version == SCHEMA_VERSION
    &&& profile.profile_name@ == "quickstart"@
    &&& profile.permissions == PermissionsConfig {
        arbitrary_text: true,
        arbitrary_local_audio: false,
    }
    &&& profile.playback.minimum_gain == or_bits(overrides.minimum_gain, ZERO_BITS)
    &&& profile.playback.maximum_gain == or_bits(overrides.maximum_gain, SEVEN_TENTHS_BITS)
    &&& profile.playback.default_gain == or_bits(overrides.default_gain, TWO_FIFTHS_BITS)
    &&& profile.playback.default_concurrency == ConcurrencyMode::Enqueue
    &&& profile.playback.allowed_concurrency@ == seq![
        ConcurrencyMode::Enqueue,
        ConcurrencyMode::Interrupt,
    ]
    &&& profile.playback.maximum_queue_items == 16
    &&& profile.playback.maximum_mix_streams == DEFAULT_MAXIMUM_MIX_STREAMS
    &&& profile.playback.maximum_audio_seconds == 0
    &&& profile.outputs.is_default()
    &&& profile.tts.enabled
    &&& is_quick_backend(profile.tts.backend, overrides.voice_id, platform)
    &&& profile.tts.maximum_characters == match overrides.maximum_text_characters {
        Some(limit) => limit,
        None => 300,
    }
    &&& profile.logging.level == match overrides.log_level {
        Some(level) => level,
        None => LogLevel::Warning,
    }
    &&& !profile.logging.history_enabled
    &&& profile.logging.history_path is None
    &&& !profile.logging.history_include_spoken_text
    &&& profile.audio_cues@.len() == 0
}

fn quick_tts_backend(voice_id: Option<String>, platform: Platform) -> (backend: TtsBackend)
    ensures
        is_quick_backend(backend, voice_id, platform),
{
    match platform {
        Platform::Linux => {
            let mut utterance_options = TomlTable::new();
            let voice = match voice_id {
                Some(voice) => voice,
                None => "default".to_string(),
            };
            utterance_options.insert("voice".to_string(), TomlValue::new_text(voice));
            TtsBackend::Utterpipe(
                UtterPipeTtsConfig {
                    provider: "espeak-ng".to_string(),
                    model_id: None,
                    voice_id: None,
                    audio_deliveries: Vec::new(),
                    provider_environment: Vec::new(),
                    provider_options: TomlTable::new(),
                    utterance_options,
                    agent_utterance_options: Vec::new(),
                },
            )
        },
        _ => TtsBackend::System(
            SystemTtsConfig {
                voice_id: match voice_id {
                    Some(voice) => voice,
                    None => String::new(),
                },
            },
        ),
    }
}

/// Facts for a profile without paths.
fn no_paths() -> (facts: PathFacts)
    ensures
        facts.is_pathless(),
{
    PathFacts {
        style: PathStyle::Posix,
        history: HistoryFacts {
            joined: String::new(),
            is_directory: false,
            parent_is_directory: false,
        },
        cues: Vec::new(),
    }
}

impl PathFacts {
    /// Nothing is known of any path.
    pub open spec fn is_pathless(self) -> bool {
        &&& self.style == PathStyle::Posix
        &&& self.history.joined@.len() == 0
        &&& !self.history.is_directory
        &&& !self.history.parent_is_directory
        &&& self.cues@.len() == 0
    }
}

/// The built-in profile with the given overrides.
pub fn quick_profile(overrides: QuickProfileOverrides, platform: Platform) -> (result: Result<
    ValidatedConfig,
    ConfigError,
>)
    ensures
        exists|profile: ProfileConfig, facts: PathFacts| #[trigger]
            finished(profile, facts, ConfigOrigin::QuickProfile, result) && is_quick_profile(
                profile,
                overrides,
                platform,
            ) && facts.is_pathless(),
{
    let mut allowed_concurrency: Vec<ConcurrencyMode> = Vec::new();
    allowed_concurrency.push(ConcurrencyMode::Enqueue);
    allowed_concurrency.push(ConcurrencyMode::Interrupt);
    assert(allowed_concurrency@ =~= seq![ConcurrencyMode::Enqueue, ConcurrencyMode::Interrupt]);
    let profile = ProfileConfig {
        schema_version: SCHEMA_VERSION,
        profile_name: "quickstart".to_string(),
        permissions: PermissionsConfig { arbitrary_text: true, arbitrary_local_audio: false },
        playback: PlaybackConfig {
            minimum_gain: match overrides.minimum_gain {
                Some(gain) => gain,
                None => Gain { bits: ZERO_BITS },
            },
            maximum_gain: match overrides.maximum_gain {
                Some(gain) => gain,
                None => Gain { bits: SEVEN_TENTHS_BITS },
            },
            default_gain: match overrides.default_gain {
                Some(gain) => gain,
                None => Gain { bits: TWO_FIFTHS_BITS },
            },
            default_concurrency: ConcurrencyMode::Enqueue,
            allowed_concurrency,
            maximum_queue_items: 16,
            maximum_mix_streams: DEFAULT_MAXIMUM_MIX_STREAMS,
            maximum_audio_seconds: 0,
        },
        outputs: OutputsConfig::default(),
        tts: TtsConfig {
            enabled: true,
            backend: quick_tts_backend(overrides.voice_id, platform),
            maximum_characters: match overrides.maximum_text_characters {
                Some(limit) => limit,
                None => 300,
            },
        },
        logging: LoggingConfig {
            level: match overrides.log_level {
                Some(level) => level,
                None => LogLevel::Warning,
            },
            history_enabled: false,
            history_path: None,
            history_include_spoken_text: false,
        },
        audio_cues: Vec::new(),
    };
    let facts = no_paths();
    assert(is_quick_profile(profile, overrides, platform));
    finish_validation(profile, &facts, ConfigOrigin::QuickProfile)
}

} // verus!
