//! What a command line can ask for.
use crate::config::load::{ConfigError, QuickProfileOverrides};
use crate::config::model::LogLevel;
use crate::gain::Gain;
use crate::playback::error::PlaybackError;
use crate::text::join;
use vstd::prelude::*;

verus! {

/// Agent-controlled, user-policy-constrained local audio playback.
#[derive(Debug)]
pub struct Cli {
    pub command: Command,
}

#[derive(Debug)]
pub enum Command {
    /// Run the MCP server over standard input and output.
    Serve(ServeArgs),
    /// Validate a profile; configured providers are executed read-only.
    Validate(ValidateArgs),
    /// List output devices without opening an audio stream.
    Devices(DevicesArgs),
    /// List native system voices, or voices from a configured provider.
    Voices(VoicesArgs),
    /// Inspect or manage the configured UtterPipe provider.
    Provider(ProviderArgs),
    /// Plan and explicitly install the configured provider assets.
    Prepare(PrepareArgs),
    /// Create a complete starter profile for the current system.
    Init(InitArgs),
}

#[derive(Debug)]
pub struct ServeArgs {
    /// Load the complete startup policy from this TOML file.
    pub config: Option<String>,
    /// Select the TTS voice in the built-in quick profile.
    pub voice_id: Option<String>,
    /// Set the lowest permitted normalized gain in the quick profile.
    pub minimum_gain: Option<Gain>,
    /// Set the highest permitted normalized gain in the quick profile.
    pub maximum_gain: Option<Gain>,
    /// Set the gain used when a call omits one in the quick profile.
    pub default_gain: Option<Gain>,
    /// Limit arbitrary TTS input in the quick profile.
    pub maximum_text_characters: Option<usize>,
    /// Set stderr diagnostic verbosity in the quick profile.
    pub log_level: Option<LogLevel>,
    /// Open the local control channel and describe it in this new file.
    pub control_file: Option<String>,
}

/// Where the startup policy comes from.
#[derive(Debug)]
pub enum StartupSource {
    /// Exactly this file.
    File(String),
    /// The built-in profile with these overrides.
    Quick(QuickProfileOverrides),
    /// The discovered layers, or the built-in profile where there are none.
    Discovered,
}

impl ServeArgs {
    /// The overrides that the options ask for.
    pub open spec fn overridden(self, overrides: QuickProfileOverrides) -> bool {
        &&& overrides.voice_id == self.voice_id
        &&& overrides.minimum_gain == self.minimum_gain
        &&& overrides.maximum_gain == self.maximum_gain
        &&& overrides.default_gain == self.default_gain
        &&& overrides.maximum_text_characters == self.maximum_text_characters
        &&& overrides.log_level == self.log_level
    }

    /// Some option of the quick profile is given.
    pub open spec fn asks_for_quick_profile(self) -> bool {
        ||| self.voice_id is Some
        ||| self.minimum_gain is Some
        ||| self.maximum_gain is Some
        ||| self.default_gain is Some
        ||| self.maximum_text_characters is Some
        ||| self.log_level is Some
    }

    pub fn quick_overrides(&self) -> (overrides: QuickProfileOverrides)
        ensures
            self.overridden(overrides),
    {
        let voice_id = match &self.voice_id {
            Some(voice) => Some(voice.clone()),
            None => None,
        };
        QuickProfileOverrides {
            voice_id,
            minimum_gain: self.minimum_gain,
            maximum_gain: self.maximum_gain,
            default_gain: self.default_gain,
            maximum_text_characters: self.maximum_text_characters,
            log_level: self.log_level,
        }
    }

    /// A selected file stands alone. Any option of the quick profile selects that
    /// one and bypasses discovery. Otherwise the discovered layers apply.
    pub fn startup_config(&self) -> (source: StartupSource)
        ensures
            match source {
                StartupSource::File(path) => self.config == Some(path),
                StartupSource::Quick(overrides) => {
                    &&& self.config is None
                    &&& self.asks_for_quick_profile()
                    &&& self.overridden(overrides)
                },
                StartupSource::Discovered => self.config is None && !self.asks_for_quick_profile(),
            },
    {
        if let Some(path) = &self.config {
            return StartupSource::File(path.clone());
        }
        if self.voice_id.is_some() || self.minimum_gain.is_some() || self.maximum_gain.is_some()
            || self.default_gain.is_some() || self.maximum_text_characters.is_some()
            || self.log_level.is_some() {
            return StartupSource::Quick(self.quick_overrides());
        }
        StartupSource::Discovered
    }
}

#[derive(Debug)]
pub struct ValidateArgs {
    /// TOML profile to validate.
    pub config: String,
}

#[derive(Debug)]
pub struct DevicesArgs {
    /// Choose a readable inventory or a copyable output-policy TOML section.
    pub format: DeviceListFormat,
}

#[derive(Clone, Copy, Debug, PartialEq, Eq, Structural)]
pub enum DeviceListFormat {
    Table,
    Toml,
}

impl Default for DeviceListFormat {
    fn default() -> (format: Self)
        ensures
            format is Table,
    {
        DeviceListFormat::Table
    }
}

#[derive(Debug)]
pub struct VoicesArgs {
    /// Use the provider configured by this profile instead of system TTS.
    pub config: Option<String>,
    /// Explicitly permit a provider voice-catalog network refresh.
    pub refresh: bool,
}

#[derive(Debug)]
pub struct ProviderArgs {
    pub command: ProviderCommand,
}

#[derive(Debug)]
pub enum ProviderCommand {
    /// Show provider identity, executable, protocol, and capabilities.
    Info(ProviderInfoArgs),
    /// List provider models.
    Models(ProviderModelsArgs),
    /// Perform voice-specific provider operations.
    Voices(ProviderVoicesArgs),
    /// Plan and remove exact provider-owned artifacts.
    Remove(ProviderRemoveArgs),
}

#[derive(Debug)]
pub struct ProviderRemoveArgs {
    pub config: String,
    /// Exact provider artifact IDs to remove.
    pub artifact: Vec<String>,
    /// Plan removal of all provider-owned data.
    pub purge: bool,
    /// Apply without ordinary action confirmation.
    pub yes: bool,
}

#[derive(Debug)]
pub struct ProviderInfoArgs {
    pub config: String,
}

/// Which models of a provider to list.
#[derive(Clone, Copy, Debug, PartialEq, Eq, Structural)]
pub enum ModelScope {
    All,
}

#[derive(Debug)]
pub struct ProviderModelsArgs {
    pub config: String,
    pub scope: ModelScope,
    /// Explicitly permit a provider catalog network refresh.
    pub refresh: bool,
}

#[derive(Debug)]
pub struct ProviderVoicesArgs {
    pub command: ProviderVoicesCommand,
}

#[derive(Debug)]
pub enum ProviderVoicesCommand {
    /// Import a user-approved reference recording into provider-owned storage.
    Import(ProviderVoiceImportArgs),
}

#[derive(Debug)]
pub struct ProviderVoiceImportArgs {
    pub config: String,
    pub source: String,
    pub requested_id: String,
    /// Permission and consent to derive a TTS voice from this recording.
    pub consent_confirmed: bool,
}

#[derive(Debug)]
pub struct PrepareArgs {
    pub config: String,
    /// Apply without ordinary action confirmation (licenses remain explicit).
    pub yes: bool,
    /// Explicitly accepted provider-reported license IDs.
    pub accepted_licenses: Vec<String>,
}

#[derive(Debug)]
pub struct InitArgs {
    /// Create the profile at this path; existing files are never overwritten.
    pub output: String,
}

#[derive(Debug)]
pub enum DevicesError {
    Playback(PlaybackError),
    Serialize(String),
}

impl DevicesError {
    pub open spec fn message_text(self) -> Seq<char> {
        match self {
            DevicesError::Playback(error) => error.message_text(),
            DevicesError::Serialize(detail) => "output policy could not be serialized: "@ + detail@,
        }
    }

    pub fn message(&self) -> (message: String)
        ensures
            message@ == self.message_text(),
    {
        match self {
            DevicesError::Playback(error) => error.message(),
            DevicesError::Serialize(detail) => join(
                "output policy could not be serialized: ",
                detail.as_str(),
            ),
        }
    }
}

/// Why a command that concerns voices or a provider failed.
#[derive(Debug)]
pub enum CliProviderError {
    Config(ConfigError),
    Playback(PlaybackError),
    Provider(String),
}

impl CliProviderError {
    pub open spec fn message_text(self) -> Seq<char> {
        match self {
            CliProviderError::Config(error) => error.message_text(),
            CliProviderError::Playback(error) => error.message_text(),
            CliProviderError::Provider(detail) => detail@,
        }
    }

    pub fn message(&self) -> (text: String)
        ensures
            text@ == self.message_text(),
    {
        match self {
            CliProviderError::Config(error) => error.message(),
            CliProviderError::Playback(error) => error.message(),
            CliProviderError::Provider(detail) => detail.clone(),
        }
    }
}

#[derive(Debug)]
pub enum InitError {
    Playback(PlaybackError),
    Serialize(String),
    Create { path: String, source: String },
    Write { path: String, source: String },
}

impl InitError {
    pub open spec fn message_text(self) -> Seq<char> {
        match self {
            InitError::Playback(error) => error.message_text(),
            InitError::Serialize(detail) => "generated profile could not be serialized: "@
                + detail@,
            InitError::Create { path, source } => "could not create configuration file '"@ + path@
                + "': "@ + source@,
            InitError::Write { path, source } => "could not write configuration file '"@ + path@
                + "': "@ + source@,
        }
    }

    pub fn message(&self) -> (message: String)
        ensures
            message@ == self.message_text(),
    {
        match self {
            InitError::Playback(error) => error.message(),
            InitError::Serialize(detail) => join(
                "generated profile could not be serialized: ",
                detail.as_str(),
            ),
            InitError::Create { path, source } => {
                let start = join("could not create configuration file '", path.as_str());
                let middle = join(start.as_str(), "': ");
                join(middle.as_str(), source.as_str())
            },
            InitError::Write { path, source } => {
                let start = join("could not write configuration file '", path.as_str());
                let middle = join(start.as_str(), "': ");
                join(middle.as_str(), source.as_str())
            },
        }
    }
}

} // verus!
