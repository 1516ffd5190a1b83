//! Listings, starter profiles and the selection of a startup policy.
use agent_speak::cli::aliases::{outputs_for_devices, unique_device_alias};
use agent_speak::cli::args::{
    CliProviderError, DeviceListFormat, DevicesArgs, DevicesError, InitArgs, InitError,
    ModelScope, PrepareArgs, ProviderArgs, ProviderCommand, ProviderInfoArgs, ProviderModelsArgs,
    ServeArgs, StartupSource, VoicesArgs,
};
use agent_speak::cli::listings::{
    render_device_table, render_voice_table, DeviceListing, ProviderCapabilities, ProviderInfo,
};
use agent_speak::cli::report::{
    diagnostics_filter, native_speech_refusal, provider_refusal, validation_summary,
};
use agent_speak::config::load::{
    finish_validation, quick_profile, ConfigError, ConfigOrigin, Platform, QuickProfileOverrides,
};
use agent_speak::config::model::{LogLevel, TtsBackend};
use agent_speak::config::validate::{HistoryFacts, PathFacts};
use agent_speak::gain::Gain;
use agent_speak::paths::PathStyle;
use agent_speak::playback::audio::{list_output_devices, FoundDevice, OutputDevice};
use agent_speak::playback::error::PlaybackError;
use agent_speak::playback::tts::{list_system_voices, SystemVoice, VoiceSource};
use agent_speak::text::{decimal, is_blank, single_line};

fn gain(value: f64) -> Gain {
    Gain { bits: value.to_bits() }
}

fn serve() -> ServeArgs {
    ServeArgs {
        config: None,
        voice_id: None,
        minimum_gain: None,
        maximum_gain: None,
        default_gain: None,
        maximum_text_characters: None,
        log_level: None,
        control_file: None,
    }
}

#[test]
fn serve_without_options_selects_quick_profile() {
    let args = serve();
    assert!(matches!(args.startup_config(), StartupSource::Discovered));
    let config = quick_profile(args.quick_overrides(), Platform::Linux).unwrap();
    assert_eq!(config.profile().profile_name, "quickstart");
    assert!(config.capabilities().permissions.arbitrary_text);
}

#[test]
fn quick_overrides_are_applied() {
    let mut args = serve();
    args.voice_id = Some("test-voice".into());
    args.minimum_gain = Some(gain(0.1));
    args.maximum_gain = Some(gain(0.9));
    args.default_gain = Some(gain(0.6));
    args.maximum_text_characters = Some(42);
    args.log_level = Some(LogLevel::Debug);

    let StartupSource::Quick(overrides) = args.startup_config() else {
        panic!("quick profile expected");
    };
    let config = quick_profile(overrides, Platform::Macos).unwrap();
    let profile = config.profile();
    assert_eq!(profile.tts.voice_id(), "test-voice");
    assert_eq!(profile.playback.minimum_gain, gain(0.1));
    assert_eq!(profile.playback.maximum_gain, gain(0.9));
    assert_eq!(profile.playback.default_gain, gain(0.6));
    assert_eq!(profile.tts.maximum_characters, 42);
    assert_eq!(profile.logging.level, LogLevel::Debug);

    args.config = Some("profile.toml".into());
    assert!(matches!(
        args.startup_config(),
        StartupSource::File(path) if path == "profile.toml"
    ));
}

#[test]
fn device_rendering_is_copyable_and_escapes_display_names() {
    let devices = vec![OutputDevice {
        device_id: "wasapi:stable-id".to_owned(),
        name: "Desk\nSpeakers".to_owned(),
        is_default: true,
    }];
    let table = render_device_table(&devices);
    assert_eq!(table, "Desk Speakers [default]\n  wasapi:stable-id\n");
    assert_eq!(
        render_device_table(&vec![]),
        "No output devices are currently available.\n"
    );

    let args = DevicesArgs { format: DeviceListFormat::Toml };
    let DeviceListing::Policy(outputs) = args.render(Ok(devices.clone())).unwrap() else {
        panic!("output policy expected");
    };
    assert_eq!(outputs.targets.len(), 2);
    assert_eq!(outputs.targets[1].id, "desk-speakers");
    assert_eq!(outputs.targets[1].device_id.as_deref(), Some("wasapi:stable-id"));

    let args = DevicesArgs { format: DeviceListFormat::default() };
    assert!(matches!(
        args.render(Ok(devices)).unwrap(),
        DeviceListing::Table(text) if text == "Desk Speakers [default]\n  wasapi:stable-id\n"
    ));
    let failed = args.render(Err(PlaybackError::OutputUnavailable("none".into()))).unwrap_err();
    assert_eq!(failed.message(), "output target is unavailable: none");
    assert_eq!(
        DevicesError::Serialize("x".into()).message(),
        "output policy could not be serialized: x"
    );
}

fn ava() -> SystemVoice {
    SystemVoice {
        id: "voice-id".to_owned(),
        display_name: "Microsoft\nAva".to_owned(),
        language: "en-US".to_owned(),
        description: "Natural\r\nvoice".to_owned(),
        gender: "female".to_owned(),
        is_default: true,
    }
}

#[test]
fn voice_rendering_exposes_copyable_ids_and_sanitizes_lines() {
    let voices = vec![ava()];
    assert_eq!(
        render_voice_table(&voices),
        "Microsoft Ava (en-US, female) [Agent Speak default]\n  id: voice-id\n  config: voice_id = \"voice-id\"\n  Natural  voice\n\n[Agent Speak default] is used when voice_id is empty; other operating-system speech features may use a different voice inventory or default.\n"
    );
    assert_eq!(render_voice_table(&vec![]), "No system TTS voices are available.\n");

    let mut quoted = ava();
    quoted.id = "a\"b\\c".to_owned();
    let table = render_voice_table(&vec![quoted]);
    let line = table.lines().find(|line| line.starts_with("  config: ")).unwrap();
    let parsed: toml::Table = toml::from_str(line.trim_start().trim_start_matches("config: ")).unwrap();
    assert_eq!(parsed["voice_id"].as_str(), Some("a\"b\\c"));
}

#[test]
fn voices_come_from_the_system_or_the_provider() {
    let system = VoicesArgs { config: None, refresh: false };
    let installed = VoiceSource::Native {
        installed: vec![ava()],
        default_id: None,
    };
    let listed = system.render(installed, Ok(String::new())).unwrap();
    assert!(listed.starts_with("Microsoft Ava (en-US, female)\n  id: voice-id\n"));
    let error = system.render(VoiceSource::Linux, Ok(String::new())).unwrap_err();
    assert!(matches!(error, CliProviderError::Playback(PlaybackError::Backend(_))));
    assert!(error.message().contains("Linux has no supported native system TTS"));

    let provider = VoicesArgs { config: Some("profile.toml".into()), refresh: true };
    assert_eq!(provider.render(VoiceSource::Linux, Ok("{}".into())).unwrap(), "{}\n");
    let error = provider
        .render(VoiceSource::Linux, Err(CliProviderError::Config(ConfigError::MissingParent)))
        .unwrap_err();
    assert_eq!(error.message(), "configuration path has no parent directory");
}

#[test]
fn system_voices_are_ordered_and_marked() {
    let voice = |language: &str, name: &str, id: &str| SystemVoice {
        id: id.to_owned(),
        display_name: name.to_owned(),
        language: language.to_owned(),
        description: String::new(),
        gender: String::new(),
        is_default: false,
    };
    let voices = list_system_voices(VoiceSource::Native {
        installed: vec![
            voice("fr-FR", "Aude", "c"),
            voice("en-US", "Zoe", "b"),
            voice("en-US", "Zoe", "a"),
        ],
        default_id: Some("b".into()),
    })
    .unwrap();
    let ids: Vec<&str> = voices.iter().map(|voice| voice.id.as_str()).collect();
    assert_eq!(ids, ["a", "b", "c"]);
    assert_eq!(
        voices.iter().map(|voice| voice.is_default).collect::<Vec<_>>(),
        [false, true, false]
    );
    assert!(list_system_voices(VoiceSource::Other).is_err());
}

#[test]
fn output_devices_are_ordered_and_marked() {
    let found = |id: &str, extended: Option<&str>, name: Option<&str>| FoundDevice {
        device_id: Ok(id.to_owned()),
        extended_name: extended.map(str::to_owned),
        name: name.map(str::to_owned),
    };
    let devices = list_output_devices(
        Ok(vec![
            found("alsa:2", Some("Speakers (USB Audio)"), Some("Speakers")),
            found("alsa:1", None, Some("Headphones")),
            found("alsa:0", None, None),
        ]),
        Some("alsa:1".into()),
    )
    .unwrap();
    let listed: Vec<(&str, &str, bool)> = devices
        .iter()
        .map(|device| (device.name.as_str(), device.device_id.as_str(), device.is_default))
        .collect();
    assert_eq!(
        listed,
        [
            ("<name unavailable>", "alsa:0", false),
            ("Headphones", "alsa:1", true),
            ("Speakers (USB Audio)", "alsa:2", false),
        ]
    );
    assert_eq!(
        list_output_devices(Err("no host".into()), None).unwrap_err(),
        PlaybackError::OutputUnavailable("output devices could not be enumerated: no host".into())
    );
    let nameless = FoundDevice {
        device_id: Err("gone".into()),
        extended_name: None,
        name: None,
    };
    assert_eq!(
        list_output_devices(Ok(vec![nameless]), None).unwrap_err(),
        PlaybackError::OutputUnavailable("an output device identity is unavailable: gone".into())
    );
}

#[test]
fn generated_device_aliases_are_readable_unique_and_valid() {
    let devices = vec![
        OutputDevice {
            device_id: "wasapi:first".to_owned(),
            name: "Speakers (USB Audio)".to_owned(),
            is_default: true,
        },
        OutputDevice {
            device_id: "wasapi:second".to_owned(),
            name: "Speakers (USB Audio)".to_owned(),
            is_default: false,
        },
        OutputDevice {
            device_id: "wasapi:third".to_owned(),
            name: "系统扬声器".to_owned(),
            is_default: false,
        },
    ];
    let outputs = outputs_for_devices(&devices);
    let ids: Vec<_> = outputs.targets.iter().map(|target| target.id.as_str()).collect();
    assert_eq!(ids, ["system", "speakers-usb-audio", "speakers-usb-audio-2", "device-3"]);
}

#[test]
fn long_aliases_are_cut_to_make_room_for_their_number() {
    let mut taken = vec!["system".to_owned()];
    let name = "A".repeat(80);
    let first = unique_device_alias(&name, 1, &mut taken);
    assert_eq!(first, "a".repeat(64));
    let second = unique_device_alias(&name, 2, &mut taken);
    assert_eq!(second, format!("{}-2", "a".repeat(62)));
    assert_eq!(taken, ["system".to_owned(), first, second]);

    let mut taken = vec![];
    let edge = format!("{} b", "x".repeat(63));
    assert_eq!(unique_device_alias(&edge, 1, &mut taken), "x".repeat(63));
    assert_eq!(unique_device_alias("System", 1, &mut vec!["system".to_owned()]), "system-2");
    assert_eq!(unique_device_alias("--", 7, &mut vec![]), "device-7");
}

#[test]
fn complete_generated_profile_uses_safe_quick_defaults() {
    let devices = vec![OutputDevice {
        device_id: "wasapi:stable-id".to_owned(),
        name: "Desk Speakers".to_owned(),
        is_default: true,
    }];
    let args = InitArgs { output: "agent-speak.toml".into() };
    let starter = args.generate(Ok(devices), Platform::Linux, PathStyle::Posix).unwrap();
    assert_eq!(starter.output, "agent-speak.toml");
    let profile = &starter.profile;
    assert_eq!(profile.profile_name, "local");
    assert!(profile.permissions.arbitrary_text);
    assert!(!profile.permissions.arbitrary_local_audio);
    assert_eq!(profile.outputs.targets[1].id, "desk-speakers");
    assert_eq!(profile.outputs.targets[1].device_id.as_deref(), Some("wasapi:stable-id"));
    assert_eq!(profile.playback.maximum_audio_seconds, 0);
    assert!(profile.audio_cues.is_empty());
    let source = &starter.examples;
    assert!(source.contains("# [[audio_cues]]"));
    assert!(source.contains("# kind = \"speech\""));
    assert!(source.contains("# kind = \"audio_file\""));
    assert!(source.contains("# source = \"/path/to/your/sound.wav\""));
    let uncommented: String =
        source.lines().filter_map(|line| line.strip_prefix("# ")).map(|line| format!("{line}\n")).collect();
    let cues = uncommented.split("[[audio_cues]]").count() - 1;
    assert_eq!(cues, 2);

    let windows = args.generate(Ok(vec![]), Platform::Windows, PathStyle::Windows).unwrap();
    assert!(windows.examples.contains("# source = \"C:/path/to/your/sound.wav\""));
    assert!(matches!(windows.profile.tts.backend, TtsBackend::System(_)));

    let facts = PathFacts {
        style: PathStyle::Posix,
        history: HistoryFacts {
            joined: String::new(),
            is_directory: false,
            parent_is_directory: false,
        },
        cues: vec![],
    };
    assert!(finish_validation(starter.profile, &facts, ConfigOrigin::QuickProfile).is_ok());

    let failed = args.generate(
        Err(PlaybackError::OutputUnavailable("none".into())),
        Platform::Linux,
        PathStyle::Posix,
    );
    assert_eq!(failed.unwrap_err().message(), "output target is unavailable: none");
    assert_eq!(
        InitError::Create { path: "a".into(), source: "exists".into() }.message(),
        "could not create configuration file 'a': exists"
    );
    assert_eq!(
        InitError::Write { path: "a".into(), source: "full".into() }.message(),
        "could not write configuration file 'a': full"
    );
    assert_eq!(
        InitError::Serialize("x".into()).message(),
        "generated profile could not be serialized: x"
    );
}

#[test]
fn provider_answers_are_shown_on_clean_lines() {
    let info = ProviderInfo {
        executable: "/opt/utter\npipe".into(),
        name: "Pocket\tTTS".into(),
        slug: "pocket-tts".into(),
        vendor: "Example".into(),
        version: "1.2.3".into(),
        protocol_version: "1".into(),
        capabilities: ProviderCapabilities {
            synthesis: true,
            cancellation: false,
            model_catalog: true,
            voice_catalog: false,
            prepare: true,
            remove: false,
            voice_import: true,
        },
        delivery_modes: "[\"buffered\"]".into(),
        audio_formats: vec!["audio/wav".into(), "audio/\u{7f}mpeg".into()],
    };
    let args = ProviderArgs {
        command: ProviderCommand::Info(ProviderInfoArgs { config: "p.toml".into() }),
    };
    assert_eq!(
        args.render(Ok(info), Err(CliProviderError::Provider("unused".into()))).unwrap(),
        "executable: /opt/utter pipe\nprovider: Pocket TTS (pocket-tts)\nvendor: Example\nversion: 1.2.3\nprotocol: utterpipe.tts/1\ncapabilities: synthesis=true, cancellation=false, model_catalog=true, voice_catalog=false, prepare=true, remove=false, voice_import=true\ndelivery_modes: [\"buffered\"]\naudio_formats: audio/wav, audio/ mpeg\n"
    );
    let args = ProviderArgs {
        command: ProviderCommand::Models(ProviderModelsArgs {
            config: "p.toml".into(),
            scope: ModelScope::All,
            refresh: false,
        }),
    };
    let unused = || Err(CliProviderError::Provider("unused".into()));
    assert_eq!(args.render(unused(), Ok("[]".into())).unwrap(), "[]\n");
    let failed = args.render(unused(), Err(CliProviderError::Provider("down".into())));
    assert_eq!(failed.unwrap_err().message(), "down");
    let prepare = PrepareArgs { config: "p.toml".into(), yes: true, accepted_licenses: vec![] };
    assert_eq!(prepare.render(Ok("{}".into())).unwrap(), "{}\n");
}

#[test]
fn validation_reports_name_the_profile_and_its_tools() {
    let config = quick_profile(QuickProfileOverrides::default(), Platform::Linux).unwrap();
    assert_eq!(validation_summary(&config), "valid Agent Speak profile: quickstart (4 tools)");
    assert_eq!(native_speech_refusal(config.profile(), Platform::Linux), None);
    let native = quick_profile(QuickProfileOverrides::default(), Platform::Windows).unwrap();
    assert_eq!(native_speech_refusal(native.profile(), Platform::Windows), None);
    assert!(native_speech_refusal(native.profile(), Platform::Linux).is_some());
    assert_eq!(provider_refusal(Some("ready"), "{}"), None);
    assert_eq!(
        provider_refusal(None, "{}").as_deref(),
        Some("configured provider validation status is invalid: {}")
    );
    assert_eq!(diagnostics_filter(LogLevel::Warning), "agent_speak=warn");
    assert_eq!(diagnostics_filter(LogLevel::Trace), "agent_speak=trace");
    assert_eq!(ConfigOrigin::QuickProfile.describe().is_empty(), false);
}

#[test]
fn text_helpers_follow_unicode() {
    assert_eq!(decimal(0), "0");
    assert_eq!(decimal(18_446_744_073_709_551_615), "18446744073709551615");
    assert_eq!(single_line("a\u{0}b\u{9f}c\u{a0}d"), "a b c\u{a0}d");
    assert!(is_blank("\u{2003}\t\u{3000}"));
    assert!(!is_blank(" a "));
    for code in 0..0x11000_u32 {
        if let Some(c) = char::from_u32(code) {
            assert_eq!(is_blank(&c.to_string()), c.is_whitespace());
            assert_eq!(single_line(&c.to_string()) != c.to_string(), c.is_control());
        }
    }
}
