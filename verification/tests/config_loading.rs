//! Quick profile, layers and where they are looked for.
use agent_speak::config::discovery::{Candidate, CandidateFile};
use agent_speak::config::layers::{
    discovery_candidates, plain_table, read_table, rebase_paths, LayerLocation, LayeredConfig,
    RawTtsConfig,
};
use agent_speak::config::load::{
    finish_validation, quick_profile, ConfigError, ConfigOrigin, Platform, QuickProfileOverrides,
    ValidatedConfig,
};
use agent_speak::config::model::{
    AudioCueConfig, AudioCueKind, AudioDelivery, ConcurrencyMode, LogLevel, LoggingConfig,
    OutputCategory, OutputTargetConfig, OutputTargetKind, OutputsConfig, PermissionsConfig,
    PlaybackConfig, ProfileConfig, SystemTtsConfig, TtsBackend, TtsConfig, SCHEMA_VERSION,
};
use agent_speak::config::toml_value::{
    same_value, TomlDate, TomlDatetime, TomlOffset, TomlTable, TomlTime, TomlValue,
};
use agent_speak::config::validate::{HistoryFacts, PathFacts};
use agent_speak::gain::Gain;
use agent_speak::paths::PathStyle;

fn gain(value: f64) -> Gain {
    Gain { bits: value.to_bits() }
}

fn no_paths() -> PathFacts {
    PathFacts {
        style: PathStyle::Posix,
        history: HistoryFacts {
            joined: String::new(),
            is_directory: false,
            parent_is_directory: false,
        },
        cues: vec![],
    }
}

fn valid_profile() -> ProfileConfig {
    ProfileConfig {
        schema_version: 1,
        profile_name: "default".into(),
        permissions: PermissionsConfig { arbitrary_text: false, arbitrary_local_audio: false },
        playback: PlaybackConfig {
            minimum_gain: gain(0.2),
            maximum_gain: gain(0.7),
            default_gain: gain(0.4),
            default_concurrency: ConcurrencyMode::Enqueue,
            allowed_concurrency: vec![ConcurrencyMode::Enqueue, ConcurrencyMode::Interrupt],
            maximum_queue_items: 16,
            maximum_mix_streams: 2,
            maximum_audio_seconds: 0,
        },
        outputs: OutputsConfig::default(),
        tts: TtsConfig {
            enabled: true,
            backend: TtsBackend::System(SystemTtsConfig { voice_id: String::new() }),
            maximum_characters: 300,
        },
        logging: LoggingConfig {
            level: LogLevel::Warning,
            history_enabled: false,
            history_path: None,
            history_include_spoken_text: false,
        },
        audio_cues: vec![],
    }
}

fn validated(profile: ProfileConfig) -> ValidatedConfig {
    finish_validation(profile, &no_paths(), ConfigOrigin::QuickProfile).unwrap()
}

const VALID: &str = r#"
schema_version = 1
profile_name = "default"

[permissions]
arbitrary_text = false
arbitrary_local_audio = false

[playback]
minimum_gain = 0.2
maximum_gain = 0.7
default_gain = 0.4
default_concurrency = "enqueue"
allowed_concurrency = ["enqueue", "interrupt"]
maximum_queue_items = 16
maximum_mix_streams = 2
maximum_audio_seconds = 0

[outputs]
default_target = "system"

[[outputs.targets]]
id = "system"
description = "Current system default audio device"
kind = "system_default"
allow = ["audio", "speech"]

[tts]
enabled = true
backend = "system"
voice_id = ""
maximum_characters = 300

[logging]
level = "warning"
history_enabled = false
history_include_spoken_text = false
"#;

fn text(value: Option<&TomlValue>) -> Option<String> {
    match value {
        Some(TomlValue::Text(text)) => Some(text.clone()),
        _ => None,
    }
}

fn integer(value: Option<&TomlValue>) -> Option<i64> {
    match value {
        Some(TomlValue::Integer(number)) => Some(*number),
        _ => None,
    }
}

fn float(value: Option<&TomlValue>) -> Option<f64> {
    match value {
        Some(TomlValue::Float(bits)) => Some(f64::from_bits(*bits)),
        _ => None,
    }
}

fn boolean(value: Option<&TomlValue>) -> Option<bool> {
    match value {
        Some(TomlValue::Boolean(flag)) => Some(*flag),
        _ => None,
    }
}

fn texts(value: Option<&TomlValue>) -> Vec<String> {
    match value {
        Some(TomlValue::Array(items)) => items
            .iter()
            .map(|item| text(Some(item)).expect("a list of texts"))
            .collect(),
        _ => panic!("a list expected"),
    }
}

fn table<'a>(parent: &'a TomlTable, key: &str) -> &'a TomlTable {
    parent.get(key).and_then(|value| value.as_table()).expect("a table")
}

/// The layers on top of each other, with the sources that were used.
fn layered(layers: &[(&str, &str, &str)]) -> (TomlTable, Vec<String>) {
    let mut config = LayeredConfig::new(TomlTable::new());
    for (path, directory, source) in layers {
        config
            .add_layer((*path).to_owned(), Some((*directory).to_owned()), source)
            .unwrap();
    }
    let (effective, sources, _) = config.finish().unwrap();
    (effective, sources)
}

#[test]
fn utterpipe_executable_name_is_the_backend() {
    let config = TtsConfig::from_raw(RawTtsConfig {
        enabled: true,
        maximum_characters: 300,
        backend: "utterpipe-pocket-tts".into(),
        voice_id: None,
        model_id: None,
        audio_deliveries: Some(vec![AudioDelivery {
            mode: "incremental".into(),
            format: "audio/pcm;codec=pcm_s16le".into(),
        }]),
        provider_environment: Some(vec!["POCKET_TOKEN".into()]),
        provider_options: Some(
            read_table("model = \"english\"\nsample_rate_hz = 24000").unwrap(),
        ),
        utterance_options: Some(read_table("voice = \"my-voice\"\nspeed = 1.1").unwrap()),
        agent_utterance_options: Some(vec!["speed".into()]),
    })
    .unwrap();
    let provider = config.utterpipe().unwrap();
    assert_eq!(provider.provider, "pocket-tts");
    assert_eq!(provider.provider_environment, ["POCKET_TOKEN"]);
    assert_eq!(provider.agent_utterance_options, ["speed"]);
    assert_eq!(provider.audio_deliveries[0].mode, "incremental");
    assert_eq!(text(provider.provider_options.get("model")).as_deref(), Some("english"));
    assert_eq!(text(provider.utterance_options.get("voice")).as_deref(), Some("my-voice"));
    assert_eq!(integer(provider.provider_options.get("sample_rate_hz")), Some(24000));
    assert_eq!(float(provider.utterance_options.get("speed")), Some(1.1));
    assert_eq!(config.backend.name(), "utterpipe-pocket-tts");
}

fn raw_system() -> RawTtsConfig {
    RawTtsConfig {
        enabled: true,
        maximum_characters: 300,
        backend: "system".into(),
        voice_id: Some(String::new()),
        model_id: None,
        audio_deliveries: None,
        provider_environment: None,
        provider_options: None,
        utterance_options: None,
        agent_utterance_options: None,
    }
}

#[test]
fn system_backend_rejects_external_fields_during_parse() {
    assert!(TtsConfig::from_raw(raw_system()).is_ok());
    let mut raw = raw_system();
    raw.provider_options = Some(TomlTable::new());
    assert!(TtsConfig::from_raw(raw).is_err());
    let mut raw = raw_system();
    raw.backend = "espeak-ng".into();
    assert!(TtsConfig::from_raw(raw).is_err());
}

#[test]
fn quick_profile_matches_normative_defaults() {
    let config = quick_profile(QuickProfileOverrides::default(), Platform::Linux).unwrap();
    let profile = config.profile();
    assert_eq!(profile.schema_version, SCHEMA_VERSION);
    assert_eq!(profile.profile_name, "quickstart");
    assert!(profile.permissions.arbitrary_text);
    assert!(!profile.permissions.arbitrary_local_audio);
    assert_eq!(profile.playback.minimum_gain, gain(0.0));
    assert_eq!(profile.playback.maximum_gain, gain(0.7));
    assert_eq!(profile.playback.default_gain, gain(0.4));
    assert_eq!(profile.playback.maximum_queue_items, 16);
    assert_eq!(profile.playback.maximum_mix_streams, 2);
    assert_eq!(profile.playback.maximum_audio_seconds, 0);
    assert_eq!(profile.outputs.default_target, "system");
    assert_eq!(profile.outputs.targets.len(), 1);
    assert_eq!(profile.outputs.targets[0].id, "system");
    assert_eq!(profile.tts.maximum_characters, 300);
    assert!(matches!(
        &profile.tts.backend,
        TtsBackend::Utterpipe(provider)
            if provider.provider == "espeak-ng"
                && text(provider.utterance_options.get("voice")).as_deref() == Some("default")
    ));
    for platform in [Platform::Windows, Platform::Macos, Platform::Other] {
        let native = quick_profile(QuickProfileOverrides::default(), platform).unwrap();
        assert!(matches!(native.profile().tts.backend, TtsBackend::System(_)));
    }
    assert_eq!(profile.logging.level, LogLevel::Warning);
    let capabilities = config.capabilities();
    assert_eq!(
        capabilities.tools,
        ["cancel_playback", "get_audio_capabilities", "get_playback_status", "speak_text"]
    );

    assert_eq!(capabilities.schema_version, SCHEMA_VERSION);
    assert_eq!(capabilities.profile_name, "quickstart");
    assert!(capabilities.permissions.arbitrary_text);
    assert!(!capabilities.permissions.arbitrary_local_audio);
    assert!(!capabilities.audio_cues_available);
    assert_eq!(capabilities.audio.formats, ["wav", "mp3", "flac", "ogg_vorbis"]);
    assert_eq!(capabilities.outputs.default_target, "system");
    assert_eq!(capabilities.outputs.targets.len(), 1);
    assert_eq!(capabilities.outputs.targets[0].id, "system");
    assert_eq!(
        capabilities.outputs.targets[0].description,
        "Current system default audio device"
    );
    assert_eq!(
        capabilities.outputs.targets[0].allow,
        [OutputCategory::Audio, OutputCategory::Speech]
    );
    assert_eq!(capabilities.playback.minimum_gain, gain(0.0));
    assert_eq!(capabilities.playback.maximum_gain, gain(0.7));
    assert_eq!(capabilities.playback.default_gain, gain(0.4));
    assert_eq!(capabilities.playback.default_concurrency, ConcurrencyMode::Enqueue);
    assert_eq!(
        capabilities.playback.allowed_concurrency,
        [ConcurrencyMode::Enqueue, ConcurrencyMode::Interrupt]
    );
    assert_eq!(capabilities.playback.maximum_queue_items, 16);
    assert_eq!(capabilities.playback.maximum_mix_streams, 2);
    assert_eq!(capabilities.playback.maximum_audio_seconds, 0);
    assert_eq!(capabilities.playback.status_retention_items, 256);
    assert!(capabilities.tts.enabled);
    assert_eq!(capabilities.tts.maximum_characters, 300);
    assert!(!capabilities.history_enabled);
}

#[test]
fn invalid_quick_override_uses_normal_validation() {
    let error = quick_profile(
        QuickProfileOverrides {
            minimum_gain: Some(gain(0.8)),
            maximum_gain: Some(gain(0.2)),
            ..QuickProfileOverrides::default()
        },
        Platform::Linux,
    )
    .unwrap_err();
    assert!(matches!(error, ConfigError::Validation(_)));
    assert!(error.message().starts_with("configuration validation failed:\n- playback."));
}

#[test]
fn capability_tools_are_derived_from_effective_policy() {
    let mut text_without_tts = valid_profile();
    text_without_tts.permissions.arbitrary_text = true;
    text_without_tts.tts.enabled = false;
    let config = validated(text_without_tts);
    assert!(!config.capabilities().permissions.arbitrary_text);
    assert_eq!(
        config.capabilities().tools,
        ["cancel_playback", "get_audio_capabilities", "get_playback_status"]
    );

    let mut cue = valid_profile();
    cue.audio_cues.push(AudioCueConfig {
        id: "ready".into(),
        kind: AudioCueKind::Speech,
        source: None,
        text: Some("Ready".into()),
        description: String::new(),
        default_gain: gain(0.4),
    });
    let config = validated(cue);
    assert!(config.capabilities().audio_cues_available);
    assert_eq!(
        config.capabilities().tools,
        [
            "cancel_playback",
            "get_audio_capabilities",
            "get_playback_status",
            "list_audio_cues",
            "play_audio_cue"
        ]
    );
}

#[test]
fn capabilities_and_audio_cue_summaries_are_sanitized() {
    let mut profile = valid_profile();
    profile.outputs = OutputsConfig {
        default_target: "private-headset".into(),
        targets: vec![OutputTargetConfig {
            id: "private-headset".into(),
            description: "Private headset".into(),
            kind: OutputTargetKind::Device,
            device_id: Some("secret-stable-device-id".into()),
            allow: vec![OutputCategory::Speech],
        }],
    };
    profile.audio_cues.push(AudioCueConfig {
        id: "say-secret".into(),
        kind: AudioCueKind::Speech,
        source: None,
        text: Some("never expose this phrase".into()),
        description: String::new(),
        default_gain: gain(0.4),
    });
    let config = validated(profile);
    let shown = format!("{:?}", config.capabilities());
    for forbidden in [
        "history_path",
        "voice_id",
        "never expose this phrase",
        "secret-stable-device-id",
        "device_id",
        "kind",
    ] {
        assert!(!shown.contains(forbidden), "leaked {forbidden}");
    }

    let outputs = &config.capabilities().outputs;
    assert_eq!(outputs.default_target, "private-headset");
    assert_eq!(outputs.targets.len(), 1);
    assert_eq!(outputs.targets[0].id, "private-headset");
    assert_eq!(outputs.targets[0].description, "Private headset");
    assert_eq!(outputs.targets[0].allow, [OutputCategory::Speech]);

    let summaries = config.profile().audio_cue_summaries();
    assert_eq!(summaries.len(), 1);
    assert_eq!(summaries[0].description, None);
    assert!(!format!("{summaries:?}").contains("never expose this phrase"));
}

#[test]
fn resolves_relative_history_path_against_configuration_directory() {
    let mut profile = valid_profile();
    profile.logging.history_enabled = true;
    profile.logging.history_path = Some("history/events.jsonl".into());
    let facts = PathFacts {
        style: PathStyle::Posix,
        history: HistoryFacts {
            joined: "/profiles/history/events.jsonl".into(),
            is_directory: false,
            parent_is_directory: true,
        },
        cues: vec![],
    };
    let config = finish_validation(profile, &facts, ConfigOrigin::QuickProfile).unwrap();
    assert_eq!(
        config.profile().logging.history_path.as_deref(),
        Some("/profiles/history/events.jsonl")
    );
}

#[test]
fn discovery_returns_none_when_every_candidate_is_missing() {
    let config = LayeredConfig::new(read_table(VALID).unwrap());
    assert!(config.finish().is_none());
}

#[test]
fn discovery_candidates_use_platform_and_working_directory_locations() {
    let working = "configured-working-directory/.agent-speak.toml";
    let home = LayerLocation {
        directory: "/home/me".into(),
        layer: "/home/me/.agent-speak.toml".into(),
    };
    let candidates =
        discovery_candidates(PathStyle::Posix, &vec![], &vec![home], working.to_owned());
    assert_eq!(
        candidates,
        ["/etc/agent-speak.toml", "/home/me/.agent-speak.toml", working]
    );

    let relative = LayerLocation { directory: "me".into(), layer: "me/.agent-speak.toml".into() };
    let candidates =
        discovery_candidates(PathStyle::Posix, &vec![], &vec![relative], working.to_owned());
    assert_eq!(candidates, ["/etc/agent-speak.toml", working]);

    let program_data = LayerLocation {
        directory: r"C:\ProgramData".into(),
        layer: r"C:\ProgramData\Agent Speak\agent-speak.toml".into(),
    };
    let candidates = discovery_candidates(
        PathStyle::Windows,
        &vec![program_data],
        &vec![],
        working.to_owned(),
    );
    assert_eq!(candidates, [r"C:\ProgramData\Agent Speak\agent-speak.toml", working]);
}

#[test]
fn discovered_layers_merge_provider_options_and_project_permissions() {
    let (effective, sources) = layered(&[
        ("/system/agent-speak.toml", "/system", VALID),
        (
            "/user/.agent-speak.toml",
            "/user",
            r#"
[tts]
backend = "utterpipe-pocket-tts"
provider_environment = ["POCKET_TOKEN"]

[tts.provider_options]
voice = "alba"
temperature = 0.1

[tts.provider_options.network]
timeout_seconds = 10
"#,
        ),
        (
            "/project/.agent-speak.toml",
            "/project",
            r#"
[permissions]
arbitrary_text = true

[playback]
allowed_concurrency = ["enqueue"]

[tts]
provider_environment = ["PROJECT_TOKEN"]

[tts.provider_options]
temperature = 0.2

[tts.provider_options.network]
retries = 2
"#,
        ),
    ]);
    let permissions = table(&effective, "permissions");
    assert_eq!(boolean(permissions.get("arbitrary_text")), Some(true));
    assert_eq!(boolean(permissions.get("arbitrary_local_audio")), Some(false));
    let playback = table(&effective, "playback");
    assert_eq!(texts(playback.get("allowed_concurrency")), ["enqueue"]);
    let tts = table(&effective, "tts");
    assert_eq!(text(tts.get("backend")).as_deref(), Some("utterpipe-pocket-tts"));
    assert_eq!(texts(tts.get("provider_environment")), ["PROJECT_TOKEN"]);
    let options = table(tts, "provider_options");
    assert_eq!(text(options.get("voice")).as_deref(), Some("alba"));
    assert_eq!(float(options.get("temperature")), Some(0.2));
    let network = table(options, "network");
    assert_eq!(integer(network.get("timeout_seconds")), Some(10));
    assert_eq!(integer(network.get("retries")), Some(2));
    assert_eq!(
        sources,
        ["/system/agent-speak.toml", "/user/.agent-speak.toml", "/project/.agent-speak.toml"]
    );
    assert_eq!(
        ConfigOrigin::Layered(sources).describe(),
        "discovered layers (low to high): /system/agent-speak.toml, /user/.agent-speak.toml, /project/.agent-speak.toml"
    );
}

#[test]
fn partial_user_and_project_layers_extend_built_in_defaults() {
    let mut config = LayeredConfig::new(
        read_table(
            "profile_name = \"quickstart\"\n[permissions]\narbitrary_text = true\narbitrary_local_audio = false\n[tts]\nbackend = \"utterpipe-espeak-ng\"\n[tts.utterance_options]\nvoice = \"default\"\n",
        )
        .unwrap(),
    );
    config
        .add_layer(
            "/user.toml".into(),
            Some("/".into()),
            "[tts]\nbackend = \"utterpipe-pocket-tts\"\n\n[tts.provider_options]\nvoice = \"alba\"\n",
        )
        .unwrap();
    config
        .add_layer(
            "/project.toml".into(),
            Some("/".into()),
            "[permissions]\narbitrary_text = false\narbitrary_local_audio = true\n",
        )
        .unwrap();
    let (effective, _, _) = config.finish().unwrap();
    assert_eq!(text(effective.get("profile_name")).as_deref(), Some("quickstart"));
    let permissions = table(&effective, "permissions");
    assert_eq!(boolean(permissions.get("arbitrary_text")), Some(false));
    assert_eq!(boolean(permissions.get("arbitrary_local_audio")), Some(true));
    let tts = table(&effective, "tts");
    assert_eq!(text(tts.get("backend")).as_deref(), Some("utterpipe-pocket-tts"));
    assert_eq!(text(table(tts, "provider_options").get("voice")).as_deref(), Some("alba"));
    assert!(tts.get("utterance_options").is_none());
}

#[test]
fn backend_change_discards_incompatible_lower_layer_fields() {
    let (effective, _) = layered(&[
        ("/system.toml", "/", VALID),
        (
            "/user.toml",
            "/",
            "[tts]\nbackend = \"utterpipe-pocket-tts\"\nprovider_environment = [\"SECRET_TOKEN\"]\n\n[tts.provider_options]\napi_key = \"sentinel-secret\"\n",
        ),
        ("/project.toml", "/", "[tts]\nbackend = \"system\"\nvoice_id = \"project-voice\"\n"),
    ]);
    let tts = table(&effective, "tts");
    assert_eq!(text(tts.get("backend")).as_deref(), Some("system"));
    assert_eq!(text(tts.get("voice_id")).as_deref(), Some("project-voice"));
    assert!(tts.get("provider_environment").is_none());
    assert!(tts.get("provider_options").is_none());
    assert_eq!(boolean(tts.get("enabled")), Some(true));
}

#[test]
fn a_layer_with_the_same_backend_keeps_its_fields() {
    let (effective, _) = layered(&[
        (
            "/user.toml",
            "/",
            "[tts]\nbackend = \"utterpipe-pocket-tts\"\n[tts.provider_options]\nvoice = \"alba\"\n",
        ),
        ("/project.toml", "/", "[tts]\nbackend = \"utterpipe-pocket-tts\"\n"),
        ("/empty.toml", "/", ""),
    ]);
    let tts = table(&effective, "tts");
    assert_eq!(text(table(tts, "provider_options").get("voice")).as_deref(), Some("alba"));
}

#[test]
fn discovered_relative_paths_follow_the_layer_that_declared_them() {
    let mut config = LayeredConfig::new(TomlTable::new());
    config
        .add_layer(
            "/system/agent-speak.toml".into(),
            Some("/system".into()),
            "[logging]\nhistory_enabled = true\nhistory_path = \"history/events.jsonl\"\n",
        )
        .unwrap();
    config
        .add_layer(
            "/user/.agent-speak.toml".into(),
            Some("/user".into()),
            "[logging]\nlevel = \"info\"\n",
        )
        .unwrap();
    config
        .add_layer(
            "/project/.agent-speak.toml".into(),
            Some("/project".into()),
            "[[audio_cues]]\nid = \"attention\"\nkind = \"audio_file\"\nsource = \"sounds/attention.wav\"\ndefault_gain = 0.4\n",
        )
        .unwrap();
    let (_, _, origins) = config.finish().unwrap();
    assert_eq!(origins.history.as_deref(), Some("/system"));
    assert_eq!(origins.audio_cues.as_deref(), Some("/project"));

    let mut profile = valid_profile();
    profile.logging.history_path = Some("history/events.jsonl".into());
    profile.audio_cues.push(AudioCueConfig {
        id: "attention".into(),
        kind: AudioCueKind::AudioFile,
        source: Some("sounds/attention.wav".into()),
        text: None,
        description: String::new(),
        default_gain: gain(0.4),
    });
    rebase_paths(
        &mut profile,
        PathStyle::Posix,
        &Some("/system/history/events.jsonl".into()),
        &vec![Some("/project/sounds/attention.wav".into())],
    );
    assert_eq!(
        profile.logging.history_path.as_deref(),
        Some("/system/history/events.jsonl")
    );
    assert_eq!(
        profile.audio_cues[0].source.as_deref(),
        Some("/project/sounds/attention.wav")
    );
}

#[test]
fn malformed_discovered_layer_fails_with_its_path() {
    let mut config = LayeredConfig::new(TomlTable::new());
    config.add_layer("/system.toml".into(), Some("/".into()), VALID).unwrap();
    let error = config
        .add_layer(
            "/project.toml".into(),
            Some("/".into()),
            "[permissions\narbitrary_text = true",
        )
        .unwrap_err();
    assert!(matches!(
        &error,
        ConfigError::LayerParse { path, .. } if path == "/project.toml"
    ));
    assert!(error
        .message()
        .starts_with("discovered configuration layer /project.toml is not valid TOML: TOML parse error"));
    assert!(config.is_loaded("/system.toml"));
    assert!(!config.is_loaded("/project.toml"));
    let error = config.add_layer("/root.toml".into(), None, VALID).unwrap_err();
    assert!(matches!(error, ConfigError::MissingParent));
    assert_eq!(error.message(), "configuration path has no parent directory");
}

#[test]
fn duplicate_canonical_discovery_paths_are_loaded_once() {
    let mut config = LayeredConfig::new(TomlTable::new());
    config.add_layer("/home/.agent-speak.toml".into(), Some("/home".into()), VALID).unwrap();
    config.add_layer("/home/.agent-speak.toml".into(), Some("/home".into()), VALID).unwrap();
    let (_, sources, _) = config.finish().unwrap();
    assert_eq!(sources, ["/home/.agent-speak.toml"]);
}

#[test]
fn toml_values_keep_their_kinds() {
    let values = read_table(
        "flag = true\nwhen = 1979-05-27T07:32:00Z\nlist = [1, 2]\nnested = { a = \"b\" }\n",
    )
    .unwrap();
    assert_eq!(boolean(values.get("flag")), Some(true));
    assert_eq!(
        values.get("when"),
        Some(&TomlValue::Datetime(TomlDatetime {
            date: Some(TomlDate { year: 1979, month: 5, day: 27 }),
            time: Some(TomlTime { hour: 7, minute: 32, second: Some(0), nanosecond: None }),
            offset: Some(TomlOffset::Utc),
        }))
    );
    assert!(matches!(
        values.get("list"),
        Some(TomlValue::Array(items)) if items.len() == 2 && integer(Some(&items[1])) == Some(2)
    ));
    assert_eq!(text(table(&values, "nested").get("a")).as_deref(), Some("b"));
    assert!(!values.is_json_compatible());
    assert!(read_table("a = [1, [2.5, \"x\"]]").unwrap().is_json_compatible());
    assert!(!read_table("a = [nan]").unwrap().is_json_compatible());
    assert!(read_table("a = ").is_err());
}

fn candidate(path: &str, file: CandidateFile) -> Candidate {
    Candidate { path: path.to_owned(), file }
}

fn present(canonical: &str, source: &str) -> CandidateFile {
    CandidateFile::Present {
        canonical: canonical.to_owned(),
        directory: Some("/".to_owned()),
        source: source.to_owned(),
    }
}

#[test]
fn candidates_are_read_in_order_and_each_file_once() {
    let config = LayeredConfig::new(TomlTable::new())
        .read_candidates(&vec![
            candidate("/etc/agent-speak.toml", CandidateFile::Missing),
            candidate("/home/a/link.toml", present("/home/a/real.toml", "profile_name = \"a\"")),
            candidate("/home/a/real.toml", present("/home/a/real.toml", "not read again")),
            candidate("/work/.agent-speak.toml", present("/work/b.toml", "profile_name = \"b\"")),
        ])
        .unwrap();
    let (effective, sources, origins) = config.finish().unwrap();
    assert_eq!(sources, vec!["/home/a/real.toml", "/work/b.toml"]);
    assert_eq!(effective.get("profile_name"), Some(&TomlValue::Text("b".into())));
    assert_eq!(origins.history, None);
    assert_eq!(origins.audio_cues, None);
}

#[test]
fn missing_candidates_leave_nothing_to_load() {
    let config = LayeredConfig::new(TomlTable::new())
        .read_candidates(&vec![candidate("/etc/agent-speak.toml", CandidateFile::Missing)])
        .unwrap();
    assert!(config.finish().is_none());
}

#[test]
fn a_candidate_that_is_no_layer_fails_discovery() {
    let good = || candidate("/good.toml", present("/good.toml", "profile_name = \"a\""));
    let fail = |bad: CandidateFile| {
        LayeredConfig::new(TomlTable::new())
            .read_candidates(&vec![good(), candidate("/bad.toml", bad), good()])
            .unwrap_err()
            .message()
    };
    assert_eq!(
        fail(CandidateFile::Inaccessible("permission denied".into())),
        "could not read discovered configuration layer /bad.toml: permission denied"
    );
    assert_eq!(
        fail(CandidateFile::Unreadable { canonical: "/real.toml".into(), detail: "gone".into() }),
        "could not read discovered configuration layer /real.toml: gone"
    );
    assert!(fail(present("/real.toml", "= broken"))
        .starts_with("discovered configuration layer /real.toml is not valid TOML: "));
    assert_eq!(
        fail(CandidateFile::Present {
            canonical: "/".into(),
            directory: None,
            source: String::new(),
        }),
        "configuration path has no parent directory"
    );
}

#[test]
fn toml_dates_keep_their_parts() {
    let read = |source: &str| match read_table(source).unwrap().get("when") {
        Some(TomlValue::Datetime(date)) => *date,
        other => panic!("not a date: {other:?}"),
    };
    let day = read("when = 2024-02-29");
    assert_eq!(day.date, Some(TomlDate { year: 2024, month: 2, day: 29 }));
    assert_eq!((day.time, day.offset), (None, None));
    let time = read("when = 07:32:00.5");
    assert_eq!(
        time.time,
        Some(TomlTime { hour: 7, minute: 32, second: Some(0), nanosecond: Some(500_000_000) })
    );
    assert_eq!((time.date, time.offset), (None, None));
    let both = read("when = 1979-05-27T00:32:00-07:00");
    assert_eq!(both.offset, Some(TomlOffset::Minutes(-420)));

    let same = |left: &str, right: &str| {
        let (left, right) = (read_table(left).unwrap(), read_table(right).unwrap());
        same_value(left.get("when").unwrap(), right.get("when").unwrap())
    };
    assert!(same("when = 1979-05-27T07:32:00Z", "when = 1979-05-27 07:32:00Z"));
    assert!(!same("when = 1979-05-27T07:32:00Z", "when = 1979-05-27T07:32:00+00:00"));
    assert!(!same("when = 1979-05-27", "when = 1979-05-28"));
}

#[test]
fn every_toml_date_is_opened() {
    let mut table = toml::Table::new();
    table.insert(
        "when".to_owned(),
        toml::Value::Datetime(toml::value::Datetime {
            date: None,
            time: None,
            offset: Some(toml::value::Offset::Custom { minutes: i16::MIN }),
        }),
    );
    assert_eq!(
        plain_table(table).get("when"),
        Some(&TomlValue::Datetime(TomlDatetime {
            date: None,
            time: None,
            offset: Some(TomlOffset::Minutes(i16::MIN)),
        }))
    );
}
