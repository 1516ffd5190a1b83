//! Readable listings of devices, voices and providers.
use super::aliases::outputs_for_devices;
use super::args::{
    CliProviderError, DeviceListFormat, DevicesArgs, DevicesError, PrepareArgs, ProviderArgs,
    ProviderCommand, VoicesArgs,
};
use crate::config::model::OutputsConfig;
use crate::playback::audio::OutputDevice;
use crate::playback::error::PlaybackError;
use crate::playback::tts::{list_system_voices, SystemVoice, VoiceSource};
use crate::text::{characters, join, join3, single_line};
use vstd::prelude::*;

verus! {

/// A list of devices, or the policy that names each of them.
#[derive(Debug)]
pub enum DeviceListing {
    Table(String),
    Policy(OutputsConfig),
}

/// The name with a space in place of each line break.
pub open spec fn without_breaks(name: Seq<char>) -> Seq<char> {
    name.map_values(
        |c: char|
            if c == '\r' || c == '\n' {
                ' '
            } else {
                c
            },
    )
}

/// What is listed of a device: its name, marked where it is the default, and its
/// identity below.
pub open spec fn device_text(device: OutputDevice) -> Seq<char> {
    without_breaks(device.name@) + (if device.is_default {
        " [default]"@
    } else {
        ""@
    }) + "\n  "@ + device.device_id@ + "\n"@
}

/// The devices one after the other.
pub open spec fn devices_text(devices: Seq<OutputDevice>) -> Seq<char>
    decreases devices.len(),
{
    if devices.len() == 0 {
        Seq::empty()
    } else {
        devices_text(devices.drop_last()) + device_text(devices.last())
    }
}

pub open spec fn device_table(devices: Seq<OutputDevice>) -> Seq<char> {
    if devices.len() == 0 {
        "No output devices are currently available.\n"@
    } else {
        devices_text(devices)
    }
}

fn unbroken(name: &str) -> (line: String)
    ensures
        line@ == without_breaks(name@),
{
    let chars = characters(name);
    let mut line = String::new();
    let mut i: usize = 0;
    while i < chars.len()
        invariant
            i <= chars@.len(),
            chars@ == name@,
            line@ == without_breaks(chars@.take(i as int)),
        decreases chars@.len() - i,
    {
        let c = if chars[i] == '\r' || chars[i] == '\n' {
            ' '
        } else {
            chars[i]
        };
        line.push(c);
        assert(without_breaks(chars@.take(i + 1)) =~= without_breaks(chars@.take(i as int)).push(c));
        i += 1;
    }
    assert(chars@.take(i as int) =~= chars@);
    line
}

/// List devices for people.
pub fn render_device_table(devices: &Vec<OutputDevice>) -> (table: String)
    ensures
        table@ == device_table(devices@),
{
    if devices.len() == 0 {
        return "No output devices are currently available.\n".to_string();
    }
    let mut output = String::new();
    let mut i: usize = 0;
    assert(devices@.take(0) =~= Seq::empty());
    while i < devices.len()
        invariant
            i <= devices@.len(),
            output@ == devices_text(devices@.take(i as int)),
        decreases devices@.len() - i,
    {
        let device = &devices[i];
        let marker = if device.is_default {
            " [default]"
        } else {
            ""
        };
        let line = join3(unbroken(device.name.as_str()).as_str(), marker, "\n  ");
        let entry = join3(line.as_str(), device.device_id.as_str(), "\n");
        output = join(output.as_str(), entry.as_str());
        assert(devices@.take(i + 1).drop_last() =~= devices@.take(i as int));
        i += 1;
    }
    assert(devices@.take(i as int) =~= devices@);
    output
}

impl DevicesArgs {
    /// List the found devices as asked for.
    pub fn render(&self, devices: Result<Vec<OutputDevice>, PlaybackError>) -> (listing: Result<
        DeviceListing,
        DevicesError,
    >)
        ensures
            match devices {
                Err(error) => listing == Err::<DeviceListing, DevicesError>(
                    DevicesError::Playback(error),
                ),
                Ok(devices) => match self.format {
                    DeviceListFormat::Table => listing matches Ok(DeviceListing::Table(table))
                        && table@ == device_table(devices@),
                    DeviceListFormat::Toml => listing matches Ok(DeviceListing::Policy(outputs))
                        && super::aliases::outputs_generated(devices@, outputs),
                },
            },
    {
        match devices {
            Err(error) => Err(DevicesError::Playback(error)),
            Ok(devices) => match self.format {
                DeviceListFormat::Table => Ok(DeviceListing::Table(render_device_table(&devices))),
                DeviceListFormat::Toml => Ok(DeviceListing::Policy(outputs_for_devices(&devices))),
            },
        }
    }
}

/// A text as the TOML string that stands for it.
pub uninterp spec fn toml_string(text: Seq<char>) -> Seq<char>;

/// The `Display` of `toml::Value::String`: the text as a TOML string, quoted and
/// escaped.
#[verifier::external_body]
fn quoted(text: &str) -> (literal: String)
    ensures
        literal@ == toml_string(text@),
{
    toml::Value::String(text.to_owned()).to_string()
}

/// What is listed of a voice, with its identity as a configuration value.
pub open spec fn voice_text(voice: SystemVoice, config_value: Seq<char>) -> Seq<char> {
    crate::text::without_controls(voice.display_name@) + " ("@ + crate::text::without_controls(
        voice.language@,
    ) + ", "@ + crate::text::without_controls(voice.gender@) + ")"@ + (if voice.is_default {
        " [Agent Speak default]"@
    } else {
        ""@
    }) + "\n  id: "@ + crate::text::without_controls(voice.id@) + "\n  config: voice_id = "@
        + config_value + "\n  "@ + crate::text::without_controls(voice.description@) + "\n"@
}

/// The voices one after the other.
pub open spec fn voices_text(voices: Seq<SystemVoice>) -> Seq<char>
    decreases voices.len(),
{
    if voices.len() == 0 {
        Seq::empty()
    } else {
        voices_text(voices.drop_last()) + voice_text(
            voices.last(),
            toml_string(crate::text::without_controls(voices.last().id@)),
        )
    }
}

pub open spec fn voice_table(voices: Seq<SystemVoice>) -> Seq<char> {
    if voices.len() == 0 {
        "No system TTS voices are available.\n"@
    } else {
        voices_text(voices)
            + "\n[Agent Speak default] is used when voice_id is empty; other operating-system speech features may use a different voice inventory or default.\n"@
    }
}

/// List a voice whose identity reads `config_value` in a configuration.
pub fn render_voice(voice: &SystemVoice, config_value: &str) -> (entry: String)
    ensures
        entry@ == voice_text(*voice, config_value@),
{
    let marker = if voice.is_default {
        " [Agent Speak default]"
    } else {
        ""
    };
    let name = single_line(voice.display_name.as_str());
    let language = single_line(voice.language.as_str());
    let gender = single_line(voice.gender.as_str());
    let description = single_line(voice.description.as_str());
    let id = single_line(voice.id.as_str());
    let named = join3(name.as_str(), " (", language.as_str());
    let gendered = join3(named.as_str(), ", ", gender.as_str());
    let marked = join3(gendered.as_str(), ")", marker);
    let identified = join3(marked.as_str(), "\n  id: ", id.as_str());
    let configured = join3(identified.as_str(), "\n  config: voice_id = ", config_value);
    let described = join3(configured.as_str(), "\n  ", description.as_str());
    join(described.as_str(), "\n")
}

/// List voices for people.
pub fn render_voice_table(voices: &Vec<SystemVoice>) -> (table: String)
    ensures
        table@ == voice_table(voices@),
{
    if voices.len() == 0 {
        return "No system TTS voices are available.\n".to_string();
    }
    let mut output = String::new();
    let mut i: usize = 0;
    assert(voices@.take(0) =~= Seq::empty());
    while i < voices.len()
        invariant
            i <= voices@.len(),
            output@ == voices_text(voices@.take(i as int)),
        decreases voices@.len() - i,
    {
        let config_value = quoted(single_line(voices[i].id.as_str()).as_str());
        let entry = render_voice(&voices[i], config_value.as_str());
        output = join(output.as_str(), entry.as_str());
        assert(voices@.take(i + 1).drop_last() =~= voices@.take(i as int));
        i += 1;
    }
    assert(voices@.take(i as int) =~= voices@);
    join(
        output.as_str(),
        "\n[Agent Speak default] is used when voice_id is empty; other operating-system speech features may use a different voice inventory or default.\n",
    )
}

impl VoicesArgs {
    /// List the system's voices, or what the configured provider says of its own.
    /// Each of the two is looked at only where it is asked for.
    pub fn render(&self, installed: VoiceSource, provider: Result<String, CliProviderError>) -> (
    listing: Result<String, CliProviderError>)
        ensures
            match self.config {
                None => exists|voices: Result<Vec<SystemVoice>, PlaybackError>|
                    #[trigger] crate::playback::tts::voices_listed(installed, voices)
                        && match voices {
                        Ok(voices) => listing matches Ok(table) && table@ == voice_table(voices@),
                        Err(error) => listing == Err::<String, CliProviderError>(
                            CliProviderError::Playback(error),
                        ),
                    },
                Some(_) => match provider {
                    Ok(json) => listing matches Ok(text) && text@ == json@ + "\n"@,
                    Err(error) => listing == Err::<String, CliProviderError>(error),
                },
            },
    {
        match &self.config {
            None => {
                let ghost source = installed;
                let voices = list_system_voices(installed);
                assert(crate::playback::tts::voices_listed(source, voices));
                match voices {
                    Ok(voices) => Ok(render_voice_table(&voices)),
                    Err(error) => Err(CliProviderError::Playback(error)),
                }
            },
            Some(_) => match provider {
                Ok(json) => Ok(join(json.as_str(), "\n")),
                Err(error) => Err(error),
            },
        }
    }
}

/// What a provider can do.
#[derive(Clone, Copy, Debug, PartialEq, Eq, Structural)]
pub struct ProviderCapabilities {
    pub synthesis: bool,
    pub cancellation: bool,
    pub model_catalog: bool,
    pub voice_catalog: bool,
    pub prepare: bool,
    pub remove: bool,
    pub voice_import: bool,
}

/// What a provider says of itself.
#[derive(Debug)]
pub struct ProviderInfo {
    pub executable: String,
    pub name: String,
    pub slug: String,
    pub vendor: String,
    pub version: String,
    pub protocol_version: String,
    pub capabilities: ProviderCapabilities,
    pub delivery_modes: String,
    pub audio_formats: Vec<String>,
}

pub open spec fn yes_or_no(value: bool) -> Seq<char> {
    if value {
        "true"@
    } else {
        "false"@
    }
}

/// The formats on one line each, with commas between them.
pub open spec fn formats_text(formats: Seq<String>) -> Seq<char>
    decreases formats.len(),
{
    if formats.len() == 0 {
        Seq::empty()
    } else if formats.len() == 1 {
        crate::text::without_controls(formats[0]@)
    } else {
        formats_text(formats.drop_last()) + ", "@ + crate::text::without_controls(formats.last()@)
    }
}

pub open spec fn capabilities_text(capabilities: ProviderCapabilities) -> Seq<char> {
    "synthesis="@ + yes_or_no(capabilities.synthesis) + ", cancellation="@ + yes_or_no(
        capabilities.cancellation,
    ) + ", model_catalog="@ + yes_or_no(capabilities.model_catalog) + ", voice_catalog="@
        + yes_or_no(capabilities.voice_catalog) + ", prepare="@ + yes_or_no(capabilities.prepare)
        + ", remove="@ + yes_or_no(capabilities.remove) + ", voice_import="@ + yes_or_no(
        capabilities.voice_import,
    )
}

/// What is listed of a provider.
pub open spec fn info_text(info: ProviderInfo) -> Seq<char> {
    "executable: "@ + crate::text::without_controls(info.executable@) + "\nprovider: "@
        + crate::text::without_controls(info.name@) + " ("@ + info.slug@ + ")\nvendor: "@
        + crate::text::without_controls(info.vendor@) + "\nversion: "@ + info.version@
        + "\nprotocol: utterpipe.tts/"@ + info.protocol_version@ + "\ncapabilities: "@
        + capabilities_text(info.capabilities) + "\ndelivery_modes: "@ + info.delivery_modes@
        + "\naudio_formats: "@ + formats_text(info.audio_formats@) + "\n"@
}

fn flag(value: bool) -> (text: &'static str)
    ensures
        text@ == yes_or_no(value),
{
    if value {
        "true"
    } else {
        "false"
    }
}

fn render_formats(formats: &Vec<String>) -> (text: String)
    ensures
        text@ == formats_text(formats@),
{
    let mut text = String::new();
    let mut i: usize = 0;
    assert(formats@.take(0) =~= Seq::empty());
    while i < formats.len()
        invariant
            i <= formats@.len(),
            text@ == formats_text(formats@.take(i as int)),
        decreases formats@.len() - i,
    {
        let format = single_line(formats[i].as_str());
        assert(formats@.take(i + 1).drop_last() =~= formats@.take(i as int));
        if i == 0 {
            text = format;
        } else {
            text = join3(text.as_str(), ", ", format.as_str());
        }
        i += 1;
    }
    assert(formats@.take(i as int) =~= formats@);
    text
}

fn render_capabilities(capabilities: &ProviderCapabilities) -> (text: String)
    ensures
        text@ == capabilities_text(*capabilities),
{
    let synthesis = join3("synthesis=", flag(capabilities.synthesis), ", cancellation=");
    let cancellation = join3(
        synthesis.as_str(),
        flag(capabilities.cancellation),
        ", model_catalog=",
    );
    let models = join3(
        cancellation.as_str(),
        flag(capabilities.model_catalog),
        ", voice_catalog=",
    );
    let voices = join3(models.as_str(), flag(capabilities.voice_catalog), ", prepare=");
    let prepare = join3(voices.as_str(), flag(capabilities.prepare), ", remove=");
    let remove = join3(prepare.as_str(), flag(capabilities.remove), ", voice_import=");
    join(remove.as_str(), flag(capabilities.voice_import))
}

/// Describe a provider for people.
pub fn render_provider_info(info: &ProviderInfo) -> (text: String)
    ensures
        text@ == info_text(*info),
{
    let executable = single_line(info.executable.as_str());
    let name = single_line(info.name.as_str());
    let vendor = single_line(info.vendor.as_str());
    let formats = render_formats(&info.audio_formats);
    let capabilities = render_capabilities(&info.capabilities);
    let at = join3("executable: ", executable.as_str(), "\nprovider: ");
    let named = join3(at.as_str(), name.as_str(), " (");
    let slugged = join3(named.as_str(), info.slug.as_str(), ")\nvendor: ");
    let sold = join3(slugged.as_str(), vendor.as_str(), "\nversion: ");
    let versioned = join3(sold.as_str(), info.version.as_str(), "\nprotocol: utterpipe.tts/");
    let spoken = join3(
        versioned.as_str(),
        info.protocol_version.as_str(),
        "\ncapabilities: ",
    );
    let able = join3(spoken.as_str(), capabilities.as_str(), "\ndelivery_modes: ");
    let delivered = join3(able.as_str(), info.delivery_modes.as_str(), "\naudio_formats: ");
    join3(delivered.as_str(), formats.as_str(), "\n")
}

impl ProviderArgs {
    /// Show what the provider says of itself, or what it answered to the command
    /// as JSON. Each of the two is looked at only where it is asked for.
    pub fn render(
        &self,
        info: Result<ProviderInfo, CliProviderError>,
        answer: Result<String, CliProviderError>,
    ) -> (listing: Result<String, CliProviderError>)
        ensures
            match self.command {
                ProviderCommand::Info(_) => match info {
                    Ok(info) => listing matches Ok(text) && text@ == info_text(info),
                    Err(error) => listing == Err::<String, CliProviderError>(error),
                },
                _ => match answer {
                    Ok(json) => listing matches Ok(text) && text@ == json@ + "\n"@,
                    Err(error) => listing == Err::<String, CliProviderError>(error),
                },
            },
    {
        match &self.command {
            ProviderCommand::Info(_) => match info {
                Ok(info) => Ok(render_provider_info(&info)),
                Err(error) => Err(error),
            },
            _ => match answer {
                Ok(json) => Ok(join(json.as_str(), "\n")),
                Err(error) => Err(error),
            },
        }
    }
}

impl PrepareArgs {
    /// Show what the provider answered to the preparation.
    pub fn render(&self, reply: Result<String, CliProviderError>) -> (listing: Result<
        String,
        CliProviderError,
    >)
        ensures
            match reply {
                Err(error) => listing == Err::<String, CliProviderError>(error),
                Ok(json) => listing matches Ok(text) && text@ == json@ + "\n"@,
            },
    {
        match reply {
            Err(error) => Err(error),
            Ok(json) => Ok(join(json.as_str(), "\n")),
        }
    }
}

} // verus!
