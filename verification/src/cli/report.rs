//! What `validate` finds out and says.
use crate::config::load::{Platform, ValidatedConfig};
use crate::config::model::{LogLevel, ProfileConfig, TtsBackend};
use crate::text::{decimal, join, join3, same_text};
use vstd::prelude::*;

verus! {

/// The name of a level of diagnostics.
pub open spec fn level_text(level: LogLevel) -> Seq<char> {
    match level {
        LogLevel::Error => "error"@,
        LogLevel::Warning => "warn"@,
        LogLevel::Info => "info"@,
        LogLevel::Debug => "debug"@,
        LogLevel::Trace => "trace"@,
    }
}

/// The filter that shows this program's own diagnostics from a level on.
pub fn diagnostics_filter(level: LogLevel) -> (filter: String)
    ensures
        filter@ == "agent_speak="@ + level_text(level),
{
    let name = match level {
        LogLevel::Error => "error",
        LogLevel::Warning => "warn",
        LogLevel::Info => "info",
        LogLevel::Debug => "debug",
        LogLevel::Trace => "trace",
    };
    join("agent_speak=", name)
}

/// A profile asks for native speech on a platform that has none.
pub open spec fn lacks_native_speech(profile: ProfileConfig, platform: Platform) -> bool {
    platform == Platform::Linux && profile.tts.enabled && profile.tts.backend is System
}

/// What stands against native speech on this platform, if anything does.
pub fn native_speech_refusal(profile: &ProfileConfig, platform: Platform) -> (refusal: Option<
    &'static str,
>)
    ensures
        match refusal {
            Some(message) => lacks_native_speech(*profile, platform) && message@
                == "Linux system TTS is no longer built into Agent Speak; configure the utterpipe-espeak-ng provider"@,
            None => !lacks_native_speech(*profile, platform),
        },
{
    let linux = match platform {
        Platform::Linux => true,
        _ => false,
    };
    let native = match &profile.tts.backend {
        TtsBackend::System(_) => true,
        TtsBackend::Utterpipe(_) => false,
    };
    if linux && profile.tts.enabled && native {
        Some(
            "Linux system TTS is no longer built into Agent Speak; configure the utterpipe-espeak-ng provider",
        )
    } else {
        None
    }
}

/// The status that a provider reports of itself.
pub open spec fn reported_status(status: Option<&str>) -> Seq<char> {
    match status {
        Some(status) => status@,
        None => "invalid"@,
    }
}

/// What stands against a provider that reported this status, if anything does.
/// `report` is its whole answer.
pub fn provider_refusal(status: Option<&str>, report: &str) -> (refusal: Option<String>)
    ensures
        match refusal {
            None => reported_status(status) == "ready"@,
            Some(message) => reported_status(status) != "ready"@ && message@
                == "configured provider validation status is "@ + reported_status(status) + ": "@
                + report@,
        },
{
    let status = match status {
        Some(status) => status,
        None => "invalid",
    };
    if same_text(status, "ready") {
        return None;
    }
    let start = join3("configured provider validation status is ", status, ": ");
    Some(join(start.as_str(), report))
}

/// What is said of a valid profile.
pub fn validation_summary(config: &ValidatedConfig) -> (summary: String)
    ensures
        summary@ == "valid Agent Speak profile: "@ + config.profile_view().profile_name@ + " ("@
            + crate::text::decimal_text(config.capabilities_view().tools@.len()) + " tools)"@,
{
    let count = decimal(config.capabilities().tools.len() as u64);
    let named = join3(
        "valid Agent Speak profile: ",
        config.profile().profile_name.as_str(),
        " (",
    );
    join3(named.as_str(), count.as_str(), " tools)")
}

} // verus!
