//! Tools held to the startup policy.
use agent_speak::config::load::{
    finish_validation, quick_profile, ConfigOrigin, Platform, QuickProfileOverrides,
};
use agent_speak::config::model::ConcurrencyMode as PolicyConcurrency;
use agent_speak::config::model::{
    AudioCueConfig, AudioCueKind, LogLevel, LoggingConfig, OutputCategory, OutputTargetConfig,
    OutputTargetKind, OutputsConfig, PermissionsConfig, PlaybackConfig, ProfileConfig,
    SystemTtsConfig, TtsBackend, TtsConfig, UtterPipeTtsConfig,
};
use agent_speak::config::toml_value::TomlTable;
use agent_speak::config::validate::{HistoryFacts, PathFacts, SourceInspection};
use agent_speak::gain::Gain;
use agent_speak::mcp::failure::ToolFailure;
use agent_speak::mcp::outputs::{
    acceptance_output, acceptance_output_at, cancellation_output, concurrency_name,
    parse_playback_id, playback_state_name, status_output,
};
use agent_speak::mcp::server::{AgentSpeakServer, GainRange, SERVER_INSTRUCTIONS};
use agent_speak::mcp::startup::{
    duration_limit, history_destination, media_to_preflight, preflight_config_media,
    prepare_opened_audio, startup_plan, OpenedAudio, ServerStartupError, SpeechPlan,
};
use agent_speak::mcp::tools::{
    open_failure, CueCall, PlayAudioCueInput, PlaySourceInput, SpeakTextInput, ToolCall,
};
use agent_speak::paths::{
    is_absolute, is_local_absolute_input, is_nonlocal_windows_path, resolve_path, PathStyle,
};
use agent_speak::playback::actor::{Acceptance, Cancellation, PlaybackState, PlaybackStatus};
use agent_speak::playback::audio::{AudioFormat, DecoderReport, OutputTarget, PreparedAudio};
use agent_speak::playback::error::PlaybackError;
use agent_speak::playback::job::{ConcurrencyMode, PlaybackSource};

fn gain(value: f64) -> Gain {
    Gain { bits: value.to_bits() }
}

fn no_paths() -> PathFacts {
    PathFacts {
        style: PathStyle::Posix,
        history: HistoryFacts {
            joined: String::new(),
            is_directory: false,
            parent_is_directory: false,
        },
        cues: vec![],
    }
}

fn profile(arbitrary_text: bool, arbitrary_local_audio: bool, cue: bool) -> ProfileConfig {
    let audio_cues = if cue {
        vec![AudioCueConfig {
            id: "attention".into(),
            kind: AudioCueKind::Speech,
            source: None,
            text: Some("Attention is needed.".into()),
            description: String::new(),
            default_gain: gain(0.4),
        }]
    } else {
        vec![]
    };
    ProfileConfig {
        schema_version: 1,
        profile_name: "contract-test".into(),
        permissions: PermissionsConfig { arbitrary_text, arbitrary_local_audio },
        playback: PlaybackConfig {
            minimum_gain: gain(0.0),
            maximum_gain: gain(0.7),
            default_gain: gain(0.4),
            default_concurrency: PolicyConcurrency::Enqueue,
            allowed_concurrency: vec![PolicyConcurrency::Enqueue, PolicyConcurrency::Interrupt],
            maximum_queue_items: 16,
            maximum_mix_streams: 2,
            maximum_audio_seconds: 0,
        },
        outputs: OutputsConfig::default(),
        tts: TtsConfig {
            enabled: true,
            backend: TtsBackend::System(SystemTtsConfig { voice_id: String::new() }),
            maximum_characters: 300,
        },
        logging: LoggingConfig {
            level: LogLevel::Warning,
            history_enabled: false,
            history_path: None,
            history_include_spoken_text: false,
        },
        audio_cues,
    }
}

fn server_with(profile: ProfileConfig, facts: &PathFacts) -> AgentSpeakServer {
    let range = GainRange {
        minimum: format!("{:.2}", f64::from_bits(profile.playback.minimum_gain.bits)),
        maximum: format!("{:.2}", f64::from_bits(profile.playback.maximum_gain.bits)),
    };
    let config = finish_validation(profile, facts, ConfigOrigin::QuickProfile).unwrap();
    AgentSpeakServer::from_parts(config, range)
}

fn server(profile: ProfileConfig) -> AgentSpeakServer {
    server_with(profile, &no_paths())
}

fn speech(text: &str) -> SpeakTextInput {
    SpeakTextInput {
        text: text.to_owned(),
        utterance_options: serde_json::Map::new(),
        gain: None,
        concurrency: None,
        output_target: None,
    }
}

fn speak(server: &AgentSpeakServer, input: SpeakTextInput) -> Result<ToolCall<()>, ToolFailure> {
    server.speak_text(7, input, Ok(()))
}

#[test]
fn quick_profile_exposes_only_capabilities_and_speech() {
    let config = quick_profile(QuickProfileOverrides::default(), Platform::Linux).unwrap();
    let quick = AgentSpeakServer::from_parts(
        config,
        GainRange { minimum: "0.00".into(), maximum: "0.70".into() },
    );
    assert_eq!(
        quick.registered_tool_names(),
        vec!["cancel_playback", "get_audio_capabilities", "get_playback_status", "speak_text"]
    );
}

#[test]
fn profile_matrix_shapes_the_complete_tool_surface() {
    let all = server(profile(true, true, true));
    assert_eq!(
        all.registered_tool_names(),
        vec![
            "cancel_playback",
            "get_audio_capabilities",
            "get_playback_status",
            "list_audio_cues",
            "play_audio_cue",
            "play_audio_source",
            "speak_text",
        ]
    );

    let inspection_only = server(profile(false, false, false));
    assert_eq!(
        inspection_only.registered_tool_names(),
        vec!["cancel_playback", "get_audio_capabilities", "get_playback_status"]
    );
}

#[test]
fn hidden_tools_are_refused_when_called() {
    let inspection_only = server(profile(false, false, false));
    assert_eq!(speak(&inspection_only, speech("hello")).unwrap_err().code, "permission_denied");
    let refused = inspection_only
        .play_audio_source(
            PathStyle::Posix,
            PlaySourceInput {
                path: "/a.wav".into(),
                gain: None,
                concurrency: None,
                output_target: None,
            },
        )
        .unwrap_err();
    assert_eq!(refused.code, "permission_denied");
    let refused = inspection_only
        .play_audio_cue::<()>(
            1,
            PlayAudioCueInput {
                cue_id: "attention".into(),
                gain: None,
                concurrency: None,
                output_target: None,
            },
        )
        .unwrap_err();
    assert_eq!(refused.code, "unknown_audio_cue");
    assert_eq!(inspection_only.list_audio_cues().unwrap_err().code, "permission_denied");
    assert!(!inspection_only.is_registered("speak_text"));
    assert!(inspection_only.is_registered("cancel_playback"));
}

#[test]
fn mix_policy_maps_to_the_actor_and_advertises_its_stream_limit() {
    let mut source = profile(true, false, false);
    source.playback.default_concurrency = PolicyConcurrency::Mix;
    source.playback.allowed_concurrency =
        vec![PolicyConcurrency::Enqueue, PolicyConcurrency::Interrupt, PolicyConcurrency::Mix];
    source.playback.maximum_mix_streams = 3;
    let server = server(source);

    assert_eq!(server.get_audio_capabilities().playback.maximum_mix_streams, 3);
    assert_eq!(
        server.resolve_playback_options(None, None, gain(0.4)).unwrap().1,
        ConcurrencyMode::Mix
    );
    assert_eq!(
        server
            .resolve_playback_options(Some(gain(0.3)), Some(PolicyConcurrency::Mix), gain(0.4))
            .unwrap(),
        (gain(0.3), ConcurrencyMode::Mix)
    );
}

#[test]
fn gains_and_modes_outside_the_policy_are_refused() {
    let server = server(profile(true, false, false));
    for bad in [0.71, -0.1, f64::NAN, f64::INFINITY] {
        let refused =
            server.resolve_playback_options(Some(gain(bad)), None, gain(0.4)).unwrap_err();
        assert_eq!(refused.code, "invalid_gain");
        assert_eq!(refused.message, "gain must be between 0.00 and 0.70");
        assert!(!refused.retryable);
    }
    let refused = server
        .resolve_playback_options(None, Some(PolicyConcurrency::Mix), gain(0.4))
        .unwrap_err();
    assert_eq!(refused.code, "concurrency_not_allowed");
    assert_eq!(
        server.resolve_playback_options(Some(gain(0.7)), None, gain(0.4)).unwrap(),
        (gain(0.7), ConcurrencyMode::Enqueue)
    );
}

#[test]
fn resolves_only_allowed_output_aliases_without_exposing_device_ids() {
    let mut source = profile(true, false, false);
    source.outputs.targets.push(OutputTargetConfig {
        id: "desk".into(),
        description: "Desk speakers".into(),
        kind: OutputTargetKind::Device,
        device_id: Some("wasapi:private-endpoint-id".into()),
        allow: vec![OutputCategory::Audio],
    });
    let server = server(source);

    assert_eq!(
        server.resolve_output_target(&None, OutputCategory::Speech).unwrap(),
        ("system".to_owned(), OutputTarget::SystemDefault)
    );
    assert_eq!(
        server.resolve_output_target(&Some("desk".into()), OutputCategory::Audio).unwrap(),
        (
            "desk".to_owned(),
            OutputTarget::DeviceId("wasapi:private-endpoint-id".to_owned())
        )
    );
    assert_eq!(
        server
            .resolve_output_target(&Some("desk".into()), OutputCategory::Speech)
            .unwrap_err()
            .code,
        "output_not_allowed"
    );
    assert_eq!(
        server
            .resolve_output_target(&Some("not-approved".into()), OutputCategory::Audio)
            .unwrap_err()
            .code,
        "unknown_output_target"
    );
}

#[test]
fn speech_requests_become_jobs_within_the_policy() {
    let mut source = profile(true, false, false);
    source.tts.maximum_characters = 5;
    let server = server(source);

    assert_eq!(speak(&server, speech("  ")).unwrap_err().code, "text_empty");
    let refused = speak(&server, speech("abcdef")).unwrap_err();
    assert_eq!(refused.code, "text_too_long");
    assert_eq!(refused.message, "text must contain no more than 5 characters");
    let mut input = speech("hello");
    input.output_target = Some("not-approved".into());
    assert_eq!(speak(&server, input).unwrap_err().code, "unknown_output_target");
    let refused: Result<ToolCall<()>, ToolFailure> =
        server.speak_text(7, speech("hello"), Err("speed is too high".into()));
    let refused = refused.unwrap_err();
    assert_eq!(refused.code, "invalid_utterance_options");
    assert_eq!(refused.message, "speed is too high");

    let mut input = speech("hello");
    input.utterance_options.insert("speed".into(), serde_json::Value::from(2));
    input.concurrency = Some(PolicyConcurrency::Interrupt);
    let call = speak(&server, input).unwrap();
    assert_eq!(call.job.id, 7);
    assert_eq!(call.job.gain, gain(0.4));
    assert_eq!(call.job.output_target, OutputTarget::SystemDefault);
    assert_eq!(call.concurrency, ConcurrencyMode::Interrupt);
    assert!(matches!(
        call.job.source,
        PlaybackSource::Speech { ref text, ref utterance_options }
            if text == "hello" && utterance_options.len() == 1
    ));
    assert_eq!(call.history.tool, "speak_text");
    assert_eq!(call.history.source_kind, "arbitrary_text");
    assert_eq!(call.history.concurrency, "interrupt");
    assert_eq!(call.history.output_target, "system");
    assert_eq!(call.history.spoken_text, None);
}

#[test]
fn opted_in_history_records_arbitrary_speech_without_blocking_acceptance() {
    let mut source = profile(true, false, true);
    source.logging.history_enabled = true;
    source.logging.history_path = Some("history.jsonl".into());
    source.logging.history_include_spoken_text = true;
    let facts = PathFacts {
        style: PathStyle::Posix,
        history: HistoryFacts {
            joined: "/profile/history.jsonl".into(),
            is_directory: false,
            parent_is_directory: true,
        },
        cues: vec![],
    };
    let server = server_with(source, &facts);
    let call = speak(&server, speech("integration secret marker")).unwrap();
    assert_eq!(call.history.spoken_text.as_deref(), Some("integration secret marker"));
    assert_eq!(
        history_destination(server.profile()).unwrap().as_deref(),
        Some("/profile/history.jsonl")
    );

    let cue = server
        .play_audio_cue::<()>(
            3,
            PlayAudioCueInput {
                cue_id: "attention".into(),
                gain: Some(gain(0.1)),
                concurrency: None,
                output_target: None,
            },
        )
        .unwrap();
    match cue {
        CueCall::Speech(call) => {
            assert_eq!(call.history.spoken_text, None);
            assert_eq!(call.history.cue_id.as_deref(), Some("attention"));
            assert_eq!(call.history.source_kind, "cue_speech");
            assert_eq!(call.job.gain, gain(0.1));
            assert!(matches!(
                call.job.source,
                PlaybackSource::Speech { ref text, ref utterance_options }
                    if text == "Attention is needed." && utterance_options.is_empty()
            ));
        }
        CueCall::AudioFile(_) => panic!("a speech cue expected"),
    }
}

fn silent_wav() -> Vec<u8> {
    let mut wav = Vec::new();
    wav.extend_from_slice(b"RIFF");
    wav.extend_from_slice(&38_u32.to_le_bytes());
    wav.extend_from_slice(b"WAVEfmt ");
    wav.extend_from_slice(&16_u32.to_le_bytes());
    wav.extend_from_slice(&1_u16.to_le_bytes());
    wav.extend_from_slice(&1_u16.to_le_bytes());
    wav.extend_from_slice(&8_000_u32.to_le_bytes());
    wav.extend_from_slice(&16_000_u32.to_le_bytes());
    wav.extend_from_slice(&2_u16.to_le_bytes());
    wav.extend_from_slice(&16_u16.to_le_bytes());
    wav.extend_from_slice(b"data");
    wav.extend_from_slice(&2_u32.to_le_bytes());
    wav.extend_from_slice(&0_i16.to_le_bytes());
    wav
}

fn opened(path: &str, header: Vec<u8>) -> OpenedAudio<&'static str> {
    OpenedAudio {
        file: "handle",
        is_regular: Ok(true),
        byte_length: header.len() as u64,
        final_path: Ok(path.to_owned()),
        is_local: Ok(true),
        blocking: Ok(()),
        header,
        decoded: DecoderReport::Duration(125_000),
    }
}

#[test]
fn arbitrary_audio_accepts_any_local_regular_file() {
    let server = server(profile(false, true, false));
    let request = |path: &str| PlaySourceInput {
        path: path.to_owned(),
        gain: None,
        concurrency: None,
        output_target: None,
    };
    for path in ["/first/first.wav", "/second/second.wav"] {
        let pending = server.play_audio_source(PathStyle::Posix, request(path)).unwrap();
        assert_eq!(pending.path, path);
        let audio = prepare_opened_audio(
            PathStyle::Posix,
            opened(path, silent_wav()),
            duration_limit(server.profile()),
        );
        let call = pending.prepared(9, audio).unwrap();
        assert_eq!(call.history.source_kind, "arbitrary_local_audio");
        match call.job.source {
            PlaybackSource::Audio(audio) => assert_eq!(audio.info().format, AudioFormat::Wav),
            PlaybackSource::Speech { .. } => panic!("audio expected"),
        }
    }

    let refused =
        server.play_audio_source(PathStyle::Posix, request("relative.wav")).unwrap_err();
    assert_eq!(refused.code, "invalid_path");
    assert_eq!(open_failure(true).code, "file_not_found");
    assert_eq!(open_failure(false).code, "invalid_path");
}

#[test]
fn opened_files_must_be_regular_and_local() {
    let limit = None;
    let mut special = opened("/dev/null", silent_wav());
    special.is_regular = Ok(false);
    assert_eq!(
        prepare_opened_audio(PathStyle::Posix, special, limit).unwrap_err(),
        PlaybackError::NotRegularFile
    );
    let network = opened(r"\\server\share\a.wav", silent_wav());
    assert_eq!(
        prepare_opened_audio(PathStyle::Windows, network, limit).unwrap_err(),
        PlaybackError::OpenFile("network and device paths are not supported".into())
    );
    let mut mounted = opened("/net/a.wav", silent_wav());
    mounted.is_local = Ok(false);
    assert_eq!(
        prepare_opened_audio(PathStyle::Posix, mounted, limit).unwrap_err(),
        PlaybackError::OpenFile("network filesystems are not supported".into())
    );
    let mut unknown = opened("/a.wav", silent_wav());
    unknown.final_path = Err("gone".into());
    assert_eq!(
        prepare_opened_audio(PathStyle::Posix, unknown, limit).unwrap_err(),
        PlaybackError::OpenFile("gone".into())
    );
    let mut stuck = opened("/a.wav", silent_wav());
    stuck.blocking = Err("no flags".into());
    assert_eq!(
        prepare_opened_audio(PathStyle::Posix, stuck, limit).unwrap_err(),
        PlaybackError::OpenFile("no flags".into())
    );
}

#[test]
fn cue_audio_bytes_are_repreflighted_on_every_call() {
    let mut source = profile(false, false, false);
    source.audio_cues.push(AudioCueConfig {
        id: "mutable".into(),
        kind: AudioCueKind::AudioFile,
        source: Some("mutable.wav".into()),
        text: None,
        description: String::new(),
        default_gain: gain(0.4),
    });
    let facts = PathFacts {
        style: PathStyle::Posix,
        history: HistoryFacts {
            joined: String::new(),
            is_directory: false,
            parent_is_directory: false,
        },
        cues: vec![SourceInspection::Regular { canonical: "/profile/mutable.wav".into() }],
    };
    let server = server_with(source, &facts);
    let request = || PlayAudioCueInput {
        cue_id: "mutable".into(),
        gain: None,
        concurrency: None,
        output_target: None,
    };
    let pending = |server: &AgentSpeakServer| {
        match server.play_audio_cue::<&'static str>(4, request()).unwrap() {
            CueCall::AudioFile(pending) => pending,
            CueCall::Speech(_) => panic!("an audio cue expected"),
        }
    };

    let first = pending(&server);
    assert_eq!(first.path, "/profile/mutable.wav");
    let bytes = b"MZ untrusted non-audio payload".to_vec();
    let audio =
        prepare_opened_audio(PathStyle::Posix, opened("/profile/mutable.wav", bytes), None);
    assert_eq!(first.prepared(4, audio).unwrap_err().code, "unsupported_audio");

    let audio = prepare_opened_audio(
        PathStyle::Posix,
        opened("/profile/mutable.wav", silent_wav()),
        None,
    );
    let call = pending(&server).prepared(4, audio).unwrap();
    assert_eq!(call.history.source_kind, "cue_audio_file");
    assert_eq!(call.history.cue_id.as_deref(), Some("mutable"));

    let cue = &server.profile().audio_cues[0];
    assert_eq!(media_to_preflight(cue).map(|path| path.as_str()), Some("/profile/mutable.wav"));
    assert!(preflight_config_media(server.profile(), &vec![None]).is_ok());
    let error = preflight_config_media(
        server.profile(),
        &vec![Some(PlaybackError::UnsupportedAudio)],
    )
    .unwrap_err();
    assert!(matches!(error, ServerStartupError::AudioCuePreflight { .. }));
    assert_eq!(
        error.message(),
        "audio cue 'mutable' failed decoder preflight: audio format is not supported"
    );
}

#[test]
fn playback_answers_are_sanitized() {
    let invalid = parse_playback_id("not-a-uuid").unwrap_err();
    assert_eq!(invalid.code, "invalid_playback_id");
    let id = parse_playback_id("00000000-0000-0000-0000-00000000002a").unwrap();
    assert_eq!(id, 42);
    assert_eq!(
        parse_playback_id("67E5504410B1426F9247BB680E5FE0C8").unwrap(),
        0x67e5504410b1426f9247bb680e5fe0c8
    );

    let status = status_output(&Ok(Some(PlaybackStatus {
        playback_id: 42,
        state: PlaybackState::Completed,
    })))
    .unwrap();
    assert_eq!(status.playback_id, "00000000-0000-0000-0000-00000000002a");
    assert_eq!(status.status, "completed");
    assert!(status.terminal);
    assert_eq!(status.error_code, None);
    let failed = status_output(&Ok(Some(PlaybackStatus {
        playback_id: 42,
        state: PlaybackState::Failed,
    })))
    .unwrap();
    assert_eq!(failed.status, "failed");
    assert_eq!(failed.error_code, Some("playback_unavailable"));
    assert_eq!(status_output(&Ok(None)).unwrap_err().code, "unknown_playback_id");

    let cancelled = cancellation_output(&Ok(Some(Cancellation {
        playback_id: 42,
        state: PlaybackState::Interrupted,
        cancelled: true,
    })))
    .unwrap();
    assert_eq!(cancelled.status, "interrupted");
    assert!(cancelled.terminal && cancelled.cancelled);
    assert_eq!(cancellation_output(&Ok(None)).unwrap_err().code, "unknown_playback_id");
    let rejected = cancellation_output(&Err(PlaybackError::Backend(
        "private backend cancellation diagnostic".to_owned(),
    )))
    .unwrap_err();
    assert_eq!(rejected.code, "playback_unavailable");
    assert!(!rejected.message.contains("private backend cancellation diagnostic"));

    let accepted =
        acceptance_output_at(&Ok(Acceptance { playback_id: 42 }), "now".into()).unwrap();
    assert_eq!(accepted.playback_id, "00000000-0000-0000-0000-00000000002a");
    assert_eq!(accepted.status, "accepted");
    assert_eq!(accepted.accepted_at, "now");
    let timed = acceptance_output(&Ok(Acceptance { playback_id: 42 })).unwrap();
    assert!(timed.accepted_at.contains('T') && timed.accepted_at.ends_with('Z'));
    assert_eq!(acceptance_output(&Err(PlaybackError::QueueFull)).unwrap_err().code, "queue_full");
}

#[test]
fn every_playback_error_has_a_stable_code() {
    let cases = [
        (PlaybackError::QueueFull, "queue_full", true),
        (PlaybackError::ActorBusy, "request_not_accepted", true),
        (PlaybackError::ActorClosed, "playback_unavailable", true),
        (PlaybackError::Backend("x".into()), "playback_unavailable", true),
        (PlaybackError::OutputUnavailable("x".into()), "output_unavailable", true),
        (PlaybackError::OpenFile("x".into()), "invalid_path", false),
        (PlaybackError::NotRegularFile, "invalid_path", false),
        (PlaybackError::UnsupportedAudio, "unsupported_audio", false),
        (PlaybackError::DurationUnknown, "duration_unknown", false),
        (PlaybackError::AudioTooLong, "audio_too_long", false),
    ];
    for (error, code, retryable) in cases {
        let refused = ToolFailure::from_playback(&error);
        assert_eq!(refused.code, code);
        assert_eq!(refused.retryable, retryable);
    }
    assert_eq!(ToolFailure::unserializable().code, "request_not_accepted");
}

#[test]
fn names_of_states_and_modes_are_stable() {
    assert_eq!(playback_state_name(PlaybackState::Accepted), "accepted");
    assert_eq!(playback_state_name(PlaybackState::Playing), "playing");
    assert_eq!(playback_state_name(PlaybackState::Completed), "completed");
    assert_eq!(playback_state_name(PlaybackState::Interrupted), "interrupted");
    assert_eq!(playback_state_name(PlaybackState::Failed), "failed");
    assert_eq!(concurrency_name(ConcurrencyMode::Enqueue), "enqueue");
    assert_eq!(concurrency_name(ConcurrencyMode::Interrupt), "interrupt");
    assert_eq!(concurrency_name(ConcurrencyMode::Mix), "mix");
    assert!(SERVER_INSTRUCTIONS.contains("Use get_playback_status"));
    assert!(SERVER_INSTRUCTIONS.contains("Use cancel_playback"));
}

#[test]
fn only_the_needed_backends_are_started() {
    let plan = startup_plan(&profile(false, false, false));
    assert!(!plan.audio && !plan.output);
    assert!(matches!(plan.speech, SpeechPlan::Off));

    let plan = startup_plan(&profile(false, true, false));
    assert!(plan.audio && plan.output);
    assert!(matches!(plan.speech, SpeechPlan::Off));

    let mut voiced = profile(false, false, true);
    voiced.tts.backend = TtsBackend::System(SystemTtsConfig { voice_id: "Ava".into() });
    let plan = startup_plan(&voiced);
    assert!(!plan.audio && plan.output);
    assert!(matches!(plan.speech, SpeechPlan::System { voice: Some(ref voice) } if voice == "Ava"));
    let plan = startup_plan(&profile(true, false, false));
    assert!(matches!(plan.speech, SpeechPlan::System { voice: None }));

    let mut provided = profile(true, false, false);
    provided.tts.backend = TtsBackend::Utterpipe(UtterPipeTtsConfig {
        provider: "fake".into(),
        model_id: None,
        voice_id: None,
        audio_deliveries: vec![],
        provider_environment: vec![],
        provider_options: TomlTable::new(),
        utterance_options: TomlTable::new(),
        agent_utterance_options: vec![],
    });
    assert!(matches!(startup_plan(&provided).speech, SpeechPlan::Provider));

    let mut historic = profile(true, false, false);
    assert!(history_destination(&historic).unwrap().is_none());
    historic.logging.history_enabled = true;
    assert_eq!(
        history_destination(&historic).unwrap_err().message(),
        "playback history could not be initialized: history path is missing"
    );
    historic.playback.maximum_audio_seconds = 3;
    assert_eq!(duration_limit(&historic), Some(3_000_000_000));
}

#[test]
fn rejects_unc_and_device_paths_before_filesystem_access() {
    assert!(!is_local_absolute_input(PathStyle::Windows, r"\\server\share\sound.wav"));
    assert!(!is_local_absolute_input(PathStyle::Windows, r"\\.\C:\sound.wav"));
    assert!(is_local_absolute_input(PathStyle::Windows, r"C:\sound.wav"));
}

#[test]
fn path_forms_follow_the_platform() {
    assert!(is_absolute(PathStyle::Posix, "/a"));
    assert!(!is_absolute(PathStyle::Posix, r"C:\a"));
    assert!(is_absolute(PathStyle::Windows, r"C:\a"));
    assert!(!is_absolute(PathStyle::Windows, r"C:a"));
    assert!(!is_absolute(PathStyle::Windows, r"\a"));
    assert!(is_absolute(PathStyle::Windows, r"\\server\share\a"));
    assert!(is_local_absolute_input(PathStyle::Windows, r"\\?\C:\a"));
    assert!(is_nonlocal_windows_path(PathStyle::Windows, r"\\server\share\a"));
    assert!(!is_nonlocal_windows_path(PathStyle::Windows, r"C:\a"));
    assert!(!is_nonlocal_windows_path(PathStyle::Posix, "/a"));
    assert_eq!(resolve_path(PathStyle::Posix, "/a", "/base/a"), "/a");
    assert_eq!(resolve_path(PathStyle::Posix, "a", "/base/a"), "/base/a");
}

#[test]
fn prepared_audio_keeps_the_opened_file() {
    let prepared = PreparedAudio::from_file(
        "handle",
        true,
        46,
        &silent_wav(),
        DecoderReport::Duration(125_000),
        Some(1_000_000_000),
    )
    .unwrap();
    assert_eq!(prepared.info().byte_length, 46);
    let (_, limit) = prepared.into_parts();
    assert_eq!(limit, Some(1_000_000_000));
}
