//! Static validation of profiles.
use agent_speak::config::layers::read_table;
use agent_speak::config::model::{
    AudioCueConfig, AudioCueKind, ConcurrencyMode, LogLevel, LoggingConfig, OutputCategory,
    OutputTargetConfig, OutputTargetKind, OutputsConfig, PermissionsConfig, PlaybackConfig,
    ProfileConfig, SystemTtsConfig, TtsBackend, TtsConfig, UtterPipeTtsConfig, MAXIMUM_AUDIO_CUES,
    SCHEMA_VERSION,
};
use agent_speak::config::toml_value::TomlTable;
use agent_speak::config::validate::{
    resolve_and_validate, valid_environment_name, valid_preset_id, valid_provider_slug,
    HistoryFacts, PathFacts, SourceInspection,
};
use agent_speak::gain::Gain;
use agent_speak::paths::PathStyle;

fn gain(value: f64) -> Gain {
    Gain { bits: value.to_bits() }
}

fn valid_profile() -> ProfileConfig {
    ProfileConfig {
        schema_version: SCHEMA_VERSION,
        profile_name: "test".into(),
        permissions: PermissionsConfig { arbitrary_text: false, arbitrary_local_audio: false },
        playback: PlaybackConfig {
            minimum_gain: gain(0.0),
            maximum_gain: gain(1.0),
            default_gain: gain(0.5),
            default_concurrency: ConcurrencyMode::Enqueue,
            allowed_concurrency: vec![ConcurrencyMode::Enqueue, ConcurrencyMode::Interrupt],
            maximum_queue_items: 16,
            maximum_mix_streams: 2,
            maximum_audio_seconds: 0,
        },
        outputs: OutputsConfig::default(),
        tts: TtsConfig {
            enabled: true,
            backend: TtsBackend::System(SystemTtsConfig { voice_id: String::new() }),
            maximum_characters: 300,
        },
        logging: LoggingConfig {
            level: LogLevel::Warning,
            history_enabled: false,
            history_path: None,
            history_include_spoken_text: false,
        },
        audio_cues: vec![],
    }
}

fn no_paths() -> PathFacts {
    PathFacts {
        style: PathStyle::Posix,
        history: HistoryFacts {
            joined: String::new(),
            is_directory: false,
            parent_is_directory: false,
        },
        cues: vec![],
    }
}

fn history_at(joined: &str, is_directory: bool, parent_is_directory: bool) -> PathFacts {
    PathFacts {
        style: PathStyle::Posix,
        history: HistoryFacts { joined: joined.to_owned(), is_directory, parent_is_directory },
        cues: vec![],
    }
}

fn issue_fields_with(profile: ProfileConfig, facts: &PathFacts) -> Vec<String> {
    resolve_and_validate(profile, facts)
        .unwrap_err()
        .into_iter()
        .map(|issue| issue.field)
        .collect()
}

fn issue_fields(profile: ProfileConfig) -> Vec<String> {
    issue_fields_with(profile, &no_paths())
}

fn speech_cue(id: String, text: &str) -> AudioCueConfig {
    AudioCueConfig {
        id,
        kind: AudioCueKind::Speech,
        source: None,
        text: Some(text.into()),
        description: String::new(),
        default_gain: gain(0.5),
    }
}

#[test]
fn accepts_valid_profile() {
    assert!(resolve_and_validate(valid_profile(), &no_paths()).is_ok());
}

#[test]
fn validates_schema_and_profile_name() {
    let mut profile = valid_profile();
    profile.schema_version = 3;
    profile.profile_name = String::new();
    let fields = issue_fields(profile);
    assert!(fields.contains(&"schema_version".to_owned()));
    assert!(fields.contains(&"profile_name".to_owned()));

    let mut profile = valid_profile();
    profile.profile_name = "🦀".repeat(81);
    assert!(issue_fields(profile).contains(&"profile_name".to_owned()));

    let mut profile = valid_profile();
    profile.profile_name = "🦀".repeat(80);
    assert!(resolve_and_validate(profile, &no_paths()).is_ok());
}

#[test]
fn validates_gain_values_and_ordering() {
    for bad in [f64::NAN, f64::INFINITY, -0.1, 1.1] {
        let mut profile = valid_profile();
        profile.playback.default_gain = gain(bad);
        assert!(issue_fields(profile).contains(&"playback.default_gain".to_owned()));
    }

    let mut profile = valid_profile();
    profile.playback.minimum_gain = gain(0.7);
    profile.playback.maximum_gain = gain(0.6);
    let fields = issue_fields(profile);
    assert!(fields.contains(&"playback.minimum_gain".to_owned()));
}

#[test]
fn validates_configurable_positive_limits_and_ceilings() {
    let mut profile = valid_profile();
    profile.playback.maximum_queue_items = 0;
    profile.tts.maximum_characters = 0;
    let fields = issue_fields(profile);
    for expected in ["playback.maximum_queue_items", "tts.maximum_characters"] {
        assert!(fields.contains(&expected.to_owned()), "missing {expected}");
    }
}

#[test]
fn limits_hold_at_their_ceilings_and_fail_above() {
    let mut profile = valid_profile();
    profile.playback.maximum_queue_items = 1_024;
    profile.tts.maximum_characters = 10_000;
    assert!(resolve_and_validate(profile, &no_paths()).is_ok());

    let mut profile = valid_profile();
    profile.playback.maximum_queue_items = 1_025;
    profile.tts.maximum_characters = 10_001;
    let fields = issue_fields(profile);
    assert!(fields.contains(&"playback.maximum_queue_items".to_owned()));
    assert!(fields.contains(&"tts.maximum_characters".to_owned()));
}

#[test]
fn validates_concurrency_allowlist() {
    let mut duplicate = valid_profile();
    duplicate.playback.allowed_concurrency =
        vec![ConcurrencyMode::Enqueue, ConcurrencyMode::Enqueue];
    assert!(issue_fields(duplicate).contains(&"playback.allowed_concurrency".to_owned()));

    let mut missing_default = valid_profile();
    missing_default.playback.allowed_concurrency = vec![ConcurrencyMode::Interrupt];
    assert!(issue_fields(missing_default).contains(&"playback.default_concurrency".to_owned()));
}

#[test]
fn accepts_an_explicit_device_output_target() {
    let mut profile = valid_profile();
    profile.outputs = OutputsConfig {
        default_target: "private-headset".into(),
        targets: vec![OutputTargetConfig {
            id: "private-headset".into(),
            description: "Private headset".into(),
            kind: OutputTargetKind::Device,
            device_id: Some("stable-private-endpoint-id".into()),
            allow: vec![OutputCategory::Audio, OutputCategory::Speech],
        }],
    };

    assert!(resolve_and_validate(profile, &no_paths()).is_ok());
}

#[test]
fn output_targets_must_be_nonempty_and_include_the_default() {
    let mut profile = valid_profile();
    profile.outputs.targets.clear();
    let fields = issue_fields(profile);
    assert!(fields.contains(&"outputs.targets".to_owned()));
    assert!(fields.contains(&"outputs.default_target".to_owned()));

    let mut missing_default = valid_profile();
    missing_default.outputs.default_target = "not-allowed".into();
    assert!(issue_fields(missing_default).contains(&"outputs.default_target".to_owned()));
}

#[test]
fn validates_output_target_ids_descriptions_and_allow_categories() {
    let mut profile = valid_profile();
    profile.outputs.default_target = "bad id".into();
    profile.outputs.targets = vec![
        OutputTargetConfig {
            id: "bad id".into(),
            description: "🎧".repeat(1_001),
            kind: OutputTargetKind::SystemDefault,
            device_id: None,
            allow: vec![OutputCategory::Audio, OutputCategory::Audio],
        },
        OutputTargetConfig {
            id: "bad id".into(),
            description: String::new(),
            kind: OutputTargetKind::SystemDefault,
            device_id: None,
            allow: vec![],
        },
    ];

    let fields = issue_fields(profile);
    for expected in [
        "outputs.targets[0].id",
        "outputs.targets[0].description",
        "outputs.targets[0].allow",
        "outputs.targets[1].id",
    ] {
        assert!(fields.contains(&expected.to_owned()), "missing {expected}");
    }
}

#[test]
fn output_target_id_uses_the_same_boundaries_as_preset_ids() {
    let valid_id = format!("a{}", "_".repeat(63));
    let invalid_id = format!("a{}", "_".repeat(64));
    let mut profile = valid_profile();
    profile.outputs.default_target = valid_id.clone();
    profile.outputs.targets = vec![
        OutputTargetConfig {
            id: valid_id,
            description: String::new(),
            kind: OutputTargetKind::SystemDefault,
            device_id: None,
            allow: vec![OutputCategory::Audio],
        },
        OutputTargetConfig {
            id: invalid_id,
            description: String::new(),
            kind: OutputTargetKind::SystemDefault,
            device_id: None,
            allow: vec![OutputCategory::Speech],
        },
    ];

    let fields = issue_fields(profile);
    assert!(!fields.contains(&"outputs.targets[0].id".to_owned()));
    assert!(fields.contains(&"outputs.targets[1].id".to_owned()));
}

#[test]
fn validates_output_kind_and_device_id_consistency() {
    let mut profile = valid_profile();
    profile.outputs.targets = vec![
        OutputTargetConfig {
            id: "system".into(),
            description: String::new(),
            kind: OutputTargetKind::SystemDefault,
            device_id: Some("must-not-be-present".into()),
            allow: vec![OutputCategory::Audio],
        },
        OutputTargetConfig {
            id: "missing-device-id".into(),
            description: String::new(),
            kind: OutputTargetKind::Device,
            device_id: None,
            allow: vec![OutputCategory::Audio],
        },
        OutputTargetConfig {
            id: "blank-device-id".into(),
            description: String::new(),
            kind: OutputTargetKind::Device,
            device_id: Some(" \t".into()),
            allow: vec![OutputCategory::Speech],
        },
    ];

    let fields = issue_fields(profile);
    for expected in [
        "outputs.targets[0].device_id",
        "outputs.targets[1].device_id",
        "outputs.targets[2].device_id",
    ] {
        assert!(fields.contains(&expected.to_owned()), "missing {expected}");
    }
}

#[test]
fn validates_preset_ids_duplicates_and_descriptions() {
    let mut profile = valid_profile();
    let mut first = speech_cue("bad id".into(), "one");
    first.description = "x".repeat(1001);
    profile.audio_cues = vec![first, speech_cue("bad id".into(), "two")];
    let fields = issue_fields(profile);
    assert!(fields.contains(&"audio_cues[0].id".to_owned()));
    assert!(fields.contains(&"audio_cues[0].description".to_owned()));
    assert!(fields.contains(&"audio_cues[1].id".to_owned()));
}

#[test]
fn validates_preset_count_id_boundaries_and_gain() {
    let mut too_many = valid_profile();
    too_many.audio_cues = (0..=MAXIMUM_AUDIO_CUES)
        .map(|index| speech_cue(format!("preset-{index}"), "sound"))
        .collect();
    assert!(issue_fields(too_many).contains(&"audio_cues".to_owned()));

    let mut boundaries = valid_profile();
    boundaries.audio_cues = vec![
        speech_cue(format!("a{}", "_".repeat(63)), "sound"),
        speech_cue(format!("a{}", "_".repeat(64)), "sound"),
    ];
    boundaries.audio_cues[0].default_gain = gain(1.1);
    let fields = issue_fields(boundaries);
    assert!(fields.contains(&"audio_cues[0].default_gain".to_owned()));
    assert!(!fields.contains(&"audio_cues[0].id".to_owned()));
    assert!(fields.contains(&"audio_cues[1].id".to_owned()));
}

#[test]
fn validates_typed_preset_fields_and_text_policy() {
    let mut audio = valid_profile();
    audio.audio_cues.push(AudioCueConfig {
        id: "audio".into(),
        kind: AudioCueKind::AudioFile,
        source: None,
        text: Some("forbidden".into()),
        description: String::new(),
        default_gain: gain(0.5),
    });
    let fields = issue_fields(audio);
    assert!(fields.contains(&"audio_cues[0].source".to_owned()));
    assert!(fields.contains(&"audio_cues[0].text".to_owned()));

    let mut text = valid_profile();
    text.tts.enabled = false;
    text.tts.maximum_characters = 3;
    text.audio_cues.push(AudioCueConfig {
        id: "text".into(),
        kind: AudioCueKind::Speech,
        source: Some("forbidden".into()),
        text: Some("long".into()),
        description: String::new(),
        default_gain: gain(0.5),
    });
    let fields = issue_fields(text);
    assert!(fields.contains(&"audio_cues[0].source".to_owned()));
    assert!(fields.contains(&"audio_cues[0].text".to_owned()));
    assert!(fields.contains(&"audio_cues[0].kind".to_owned()));
}

#[test]
fn audio_file_cues_need_a_regular_local_file() {
    let cue = || AudioCueConfig {
        id: "chime".into(),
        kind: AudioCueKind::AudioFile,
        source: Some("sounds/chime.wav".into()),
        text: None,
        description: String::new(),
        default_gain: gain(0.5),
    };
    let inspected = |style: PathStyle, inspection: SourceInspection| PathFacts {
        style,
        history: HistoryFacts {
            joined: String::new(),
            is_directory: false,
            parent_is_directory: false,
        },
        cues: vec![inspection],
    };

    let mut profile = valid_profile();
    profile.audio_cues.push(cue());
    let facts = inspected(
        PathStyle::Posix,
        SourceInspection::Regular { canonical: "/profile/sounds/chime.wav".into() },
    );
    let resolved = resolve_and_validate(profile, &facts).unwrap();
    assert_eq!(resolved.audio_cues[0].source.as_deref(), Some("/profile/sounds/chime.wav"));

    for (style, inspection) in [
        (PathStyle::Posix, SourceInspection::Missing),
        (PathStyle::Posix, SourceInspection::Unreadable { canonical: "/a".into() }),
        (PathStyle::Posix, SourceInspection::NotRegular { canonical: "/a".into() }),
        (
            PathStyle::Windows,
            SourceInspection::Regular { canonical: r"\\server\share\a.wav".into() },
        ),
    ] {
        let mut profile = valid_profile();
        profile.audio_cues.push(cue());
        let fields = issue_fields_with(profile, &inspected(style, inspection));
        assert_eq!(fields, ["audio_cues[0].source"]);
    }
}

#[test]
fn enabled_history_requires_a_destination() {
    let mut profile = valid_profile();
    profile.logging.history_enabled = true;
    assert!(issue_fields(profile).contains(&"logging.history_path".to_owned()));
}

#[test]
fn history_destination_must_not_be_a_directory() {
    let mut profile = valid_profile();
    profile.logging.history_enabled = true;
    profile.logging.history_path = Some("/tmp".into());
    let fields = issue_fields_with(profile, &history_at("/tmp", true, true));
    assert!(fields.contains(&"logging.history_path".to_owned()));
}

#[test]
fn history_destination_parent_must_exist() {
    let mut profile = valid_profile();
    profile.logging.history_enabled = true;
    let path = "/tmp/agent-speak-missing-history-parent/history.jsonl";
    profile.logging.history_path = Some(path.into());
    let fields = issue_fields_with(profile, &history_at(path, false, false));
    assert!(fields.contains(&"logging.history_path".to_owned()));
}

#[test]
fn validates_utterpipe_identity_environment_and_json_options() {
    let mut profile = valid_profile();
    profile.tts.backend = TtsBackend::Utterpipe(UtterPipeTtsConfig {
        provider: "Bad-Provider".into(),
        model_id: Some("bad\nmodel".into()),
        voice_id: Some(String::new()),
        audio_deliveries: vec![],
        provider_environment: vec!["TOKEN".into(), "TOKEN".into()],
        provider_options: read_table("when = 1979-05-27T07:32:00Z").unwrap(),
        utterance_options: TomlTable::new(),
        agent_utterance_options: vec![],
    });
    let fields = issue_fields(profile);
    for expected in [
        "tts.provider",
        "tts.model_id",
        "tts.voice_id",
        "tts.provider_environment",
        "tts.provider_options",
    ] {
        assert!(fields.contains(&expected.to_owned()), "missing {expected}");
    }
}

#[test]
fn identifiers_slugs_and_environment_names_have_their_forms() {
    assert!(valid_preset_id("a"));
    assert!(valid_preset_id("9.x_y-z"));
    assert!(!valid_preset_id(""));
    assert!(!valid_preset_id("-a"));
    assert!(!valid_preset_id("a b"));
    assert!(valid_provider_slug("pocket-tts"));
    assert!(!valid_provider_slug("Pocket"));
    assert!(!valid_provider_slug("-pocket"));
    assert!(!valid_provider_slug("pocket-"));
    assert!(valid_environment_name("POCKET_TOKEN"));
    assert!(valid_environment_name("_a9"));
    assert!(!valid_environment_name("9A"));
    assert!(!valid_environment_name(""));
}

#[test]
fn resolving_a_resolved_profile_changes_nothing() {
    let mut profile = valid_profile();
    profile.logging.history_enabled = true;
    profile.logging.history_path = Some("history.jsonl".into());
    profile.audio_cues = vec![
        AudioCueConfig {
            id: "chime".into(),
            kind: AudioCueKind::AudioFile,
            source: Some("sounds/../chime.wav".into()),
            text: None,
            description: String::new(),
            default_gain: gain(0.5),
        },
        speech_cue("hello".into(), "Hello"),
    ];
    let facts = |joined: &str| {
        let mut facts = history_at(joined, false, true);
        facts.cues = vec![
            SourceInspection::Regular { canonical: "/profile/chime.wav".into() },
            SourceInspection::Missing,
        ];
        facts
    };
    let once = resolve_and_validate(profile, &facts("/profile/history.jsonl")).unwrap();
    assert_eq!(once.logging.history_path.as_deref(), Some("/profile/history.jsonl"));
    assert_eq!(once.audio_cues[0].source.as_deref(), Some("/profile/chime.wav"));
    let again = resolve_and_validate(once, &facts("/elsewhere/history.jsonl")).unwrap();
    assert_eq!(again.logging.history_path.as_deref(), Some("/profile/history.jsonl"));
    assert_eq!(again.audio_cues[0].source.as_deref(), Some("/profile/chime.wav"));
    assert_eq!(again.audio_cues[1].text.as_deref(), Some("Hello"));
}

#[test]
fn a_history_path_on_another_drive_is_kept_when_resolved_again() {
    let mut profile = valid_profile();
    profile.logging.history_path = Some("D:history.jsonl".into());
    let mut facts = history_at("D:history.jsonl", false, true);
    facts.style = PathStyle::Windows;
    let once = resolve_and_validate(profile, &facts).unwrap();
    assert_eq!(once.logging.history_path.as_deref(), Some("D:history.jsonl"));
    let again = resolve_and_validate(once, &facts).unwrap();
    assert_eq!(again.logging.history_path.as_deref(), Some("D:history.jsonl"));
}
