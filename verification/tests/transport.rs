//! Local transports: credentials, descriptors, control requests and history.
use agent_speak::control::{
    cancellation_response, decide, emergency_stop_response, error_response,
    playback_error_response, snapshot_response, state_name, ControlAction, ControlDescriptor,
    ControlRequest, ControlResponse,
};
use agent_speak::gain::Gain;
use agent_speak::history::{HistoryMetadata, HistoryTracker};
use agent_speak::http::{accepts, authorized, unauthorized_response, HttpMcpDescriptor};
use agent_speak::paths::PathStyle;
use agent_speak::playback::actor::{
    Acceptance, Cancellation, EmergencyStop, LifecycleEvent, PlaybackState, PlaybackStatus,
};
use agent_speak::playback::error::PlaybackError;
use agent_speak::private_file::{
    constant_time_equal, paired_token, random_token, token_from, token_text, validate_descriptor_path,
    DescriptorPathError, ParentDirectory,
};
use axum::http::{header, HeaderMap};

#[test]
fn bearer_auth_accepts_one_exact_credential_and_rejects_ambiguous_headers() {
    let mut headers = HeaderMap::new();
    assert!(!authorized(&headers, "secret"));

    headers.insert(header::AUTHORIZATION, "Bearer wrong".parse().unwrap());
    assert!(!authorized(&headers, "secret"));

    headers.insert(header::AUTHORIZATION, "bearer secret".parse().unwrap());
    assert!(authorized(&headers, "secret"));

    headers.append(header::AUTHORIZATION, "Bearer secret".parse().unwrap());
    assert!(!authorized(&headers, "secret"));
}

#[test]
fn credentials_are_read_byte_by_byte() {
    let one = |value: &[u8]| vec![value.to_vec()];
    assert!(accepts(&one(b"BEARER a b"), "a b"));
    assert!(accepts(&one(b"Bearer "), ""));
    assert!(!accepts(&one(b"Bearer"), ""));
    assert!(!accepts(&one(b"Basic secret"), "secret"));
    assert!(!accepts(&one(b" Bearer secret"), "secret"));
    assert!(!accepts(&one(b"Bearer  secret"), "secret"));
    assert!(!accepts(&one(b"Bearer s\xc3\xa9cret"), "s\u{e9}cret"));
    assert!(!accepts(&one(b"Bearer\tsecret"), "secret"));
    assert!(!accepts(&vec![], "secret"));
    let refusal = unauthorized_response();
    assert_eq!(refusal.status, 401);
    assert_eq!(refusal.body, "Unauthorized");
    assert_eq!(refusal.authenticate, "Bearer");
    assert_eq!(refusal.cache_control, "no-store");
}

#[test]
fn http_descriptor_describes_the_listener() {
    let descriptor = HttpMcpDescriptor::new("127.0.0.1:4321", "token".into());
    assert_eq!(descriptor.schema_version, 1);
    assert_eq!(descriptor.transport, "streamable_http");
    assert_eq!(descriptor.url, "http://127.0.0.1:4321/mcp");
    assert_eq!(descriptor.authorization.scheme, "Bearer");
    assert_eq!(descriptor.authorization.token, "token");
}

#[test]
fn descriptor_path_must_be_absolute() {
    assert!(
        validate_descriptor_path(PathStyle::Posix, "http.json", ParentDirectory::Present).is_err()
    );
}

#[test]
fn descriptor_path_errors_are_told_apart() {
    let check = |path: &str, parent: ParentDirectory| {
        validate_descriptor_path(PathStyle::Posix, path, parent)
    };
    assert_eq!(
        check("relative-control.json", ParentDirectory::Present),
        Err(DescriptorPathError::NotAbsolute)
    );
    assert_eq!(check("/", ParentDirectory::Nowhere), Err(DescriptorPathError::NoParent));
    assert_eq!(
        check("/missing/a.json", ParentDirectory::Missing),
        Err(DescriptorPathError::MissingParent)
    );
    assert_eq!(check("/run/a.json", ParentDirectory::Present), Ok(()));
    assert_eq!(
        DescriptorPathError::NotAbsolute.message("HTTP"),
        "HTTP descriptor path must be absolute"
    );
    assert_eq!(
        DescriptorPathError::MissingParent.message("control"),
        "control descriptor parent directory does not exist"
    );
}

#[test]
fn token_is_fixed_length_and_comparison_checks_every_equal_length_byte() {
    let token = random_token().unwrap();
    assert_eq!(token.len(), 64);
    assert!(constant_time_equal(&token, &token));
    let changed = if token.starts_with('0') { "1" } else { "0" };
    assert!(!constant_time_equal(&token, &format!("{changed}{}", &token[1..])));
    assert!(!constant_time_equal(&token, &token[..63]));
}

#[test]
fn tokens_are_hexadecimal() {
    assert_eq!(token_text(&vec![0x00, 0x9f, 0xff]), "009fff");
    assert_eq!(
        paired_token(1, 0xabcdef),
        "0000000000000000000000000000000100000000000000000000000000abcdef"
    );
    assert_ne!(random_token().unwrap(), random_token().unwrap());
}

fn request(token: &str, method: &str, playback_id: Option<&str>) -> Option<ControlRequest> {
    Some(ControlRequest {
        token: token.to_owned(),
        method: method.to_owned(),
        playback_id: playback_id.map(str::to_owned),
    })
}

fn error_code(action: ControlAction) -> String {
    match action {
        ControlAction::Respond(ControlResponse::Error { code, .. }) => code,
        other => panic!("an error expected, not {other:?}"),
    }
}

#[test]
fn control_channel_is_private_sanitized_and_controls_the_actor() {
    let descriptor = ControlDescriptor::new(1, "127.0.0.1".into(), 4321, paired_token(1, 2));
    assert_eq!(descriptor.schema_version, 1);
    assert_eq!(descriptor.host, "127.0.0.1");
    assert_eq!(descriptor.session_id, "00000000-0000-0000-0000-000000000001");
    assert!(descriptor.token.len() >= 64);
    let token = descriptor.token.as_str();

    assert_eq!(
        error_code(decide(40, &request("wrong", "snapshot", None), token)),
        "permission_denied"
    );
    assert_eq!(error_code(decide(0, &None, token)), "invalid_request");
    assert_eq!(error_code(decide(9, &None, token)), "invalid_request");
    assert_eq!(
        error_code(decide(8_193, &request(token, "snapshot", None), token)),
        "invalid_request"
    );
    assert!(matches!(
        decide(8_192, &request(token, "snapshot", None), token),
        ControlAction::Snapshot
    ));
    assert!(matches!(
        decide(99, &request(token, "emergency_stop", None), token),
        ControlAction::EmergencyStop
    ));
    let id = "00000000-0000-0000-0000-000000000002";
    assert!(matches!(
        decide(99, &request(token, "cancel", Some(id)), token),
        ControlAction::Cancel(2)
    ));
    assert_eq!(
        error_code(decide(99, &request(token, "cancel", Some("x")), token)),
        "invalid_playback_id"
    );
    for (method, playback_id) in
        [("cancel", None), ("snapshot", Some(id)), ("emergency_stop", Some(id)), ("play", None)]
    {
        assert_eq!(
            error_code(decide(99, &request(token, method, playback_id), token)),
            "invalid_request"
        );
    }

    let statuses = vec![
        PlaybackStatus { playback_id: 2, state: PlaybackState::Accepted },
        PlaybackStatus { playback_id: 1, state: PlaybackState::Failed },
    ];
    match snapshot_response("session", &Ok(statuses)) {
        ControlResponse::Snapshot { session_id, items } => {
            assert_eq!(session_id, "session");
            assert_eq!(items[0].playback_id, id);
            assert_eq!(items[0].status, "accepted");
            assert_eq!(items[0].error_code, None);
            assert_eq!(items[1].status, "failed");
            assert!(items[1].terminal);
            assert_eq!(items[1].error_code.as_deref(), Some("playback_unavailable"));
        }
        other => panic!("a snapshot expected, not {other:?}"),
    }
    assert_eq!(
        cancellation_response(&Ok(Some(Cancellation {
            playback_id: 2,
            state: PlaybackState::Interrupted,
            cancelled: true,
        }))),
        ControlResponse::Cancellation {
            playback_id: id.into(),
            status: "interrupted".into(),
            terminal: true,
            cancelled: true,
        }
    );
    assert_eq!(
        cancellation_response(&Ok(None)),
        error_response(
            "unknown_playback_id",
            "playback ID is not known or is no longer retained",
            false
        )
    );
    assert_eq!(
        emergency_stop_response(&Ok(EmergencyStop { interrupted_items: 1 })),
        ControlResponse::EmergencyStop { interrupted_items: 1 }
    );
    let private = PlaybackError::Backend("private".into());
    assert_eq!(
        emergency_stop_response(&Err(private)),
        error_response("playback_unavailable", "playback backend is unavailable", true)
    );
    assert_eq!(
        playback_error_response(&PlaybackError::ActorBusy),
        error_response("request_not_accepted", "playback service is busy; retry later", true)
    );
    assert_eq!(
        playback_error_response(&PlaybackError::QueueFull),
        error_response("request_not_accepted", "playback request was not accepted", false)
    );
    assert_eq!(state_name(PlaybackState::Playing), "playing");
}

fn metadata(spoken_text: Option<&str>) -> HistoryMetadata {
    HistoryMetadata {
        tool: "speak_text".into(),
        source_kind: "arbitrary_text".into(),
        cue_id: None,
        gain: Gain { bits: 0.4_f64.to_bits() },
        concurrency: "enqueue".into(),
        output_target: "system".into(),
        spoken_text: spoken_text.map(str::to_owned),
    }
}

fn event(playback_id: u128, state: PlaybackState, error: Option<&str>) -> LifecycleEvent {
    LifecycleEvent { playback_id, state, error: error.map(str::to_owned) }
}

#[test]
fn writes_sanitized_lifecycle_json_lines() {
    let mut tracker = HistoryTracker::new();
    tracker.track(1, metadata(None));
    let mut records = Vec::new();
    for state in [PlaybackState::Accepted, PlaybackState::Playing, PlaybackState::Completed] {
        records.extend(tracker.forward(&event(1, state, None)));
    }
    assert_eq!(records.len(), 3);
    assert_eq!(records[0].state, "accepted");
    assert_eq!(records[0].output_target, "system");
    assert_eq!(records[2].state, "completed");
    assert!(records.iter().all(|record| record.spoken_text.is_none()));
    assert!(records.iter().all(|record| record.timestamp.contains('T')));
    assert!(tracker.forward(&event(1, PlaybackState::Completed, None)).is_none());
}

#[test]
fn history_keeps_text_with_the_acceptance_and_hides_errors() {
    let mut tracker = HistoryTracker::new();
    tracker.track(1, metadata(Some("hello")));
    tracker.track(2, metadata(Some("refused")));
    tracker.settle(1, &Ok(Acceptance { playback_id: 1 }));
    tracker.settle(2, &Err(PlaybackError::QueueFull));
    tracker.track(3, metadata(None));
    tracker.forget(3);
    let accepted =
        tracker.forward_at(&event(1, PlaybackState::Accepted, None), "t1".into()).unwrap();
    assert_eq!(accepted.timestamp, "t1");
    assert_eq!(accepted.playback_id, "00000000-0000-0000-0000-000000000001");
    assert_eq!(accepted.spoken_text.as_deref(), Some("hello"));
    assert_eq!(accepted.error_code, None);
    let failed = tracker
        .forward_at(&event(1, PlaybackState::Failed, Some("private diagnostic")), "t2".into())
        .unwrap();
    assert_eq!(failed.spoken_text, None);
    assert_eq!(failed.error_code.as_deref(), Some("playback_unavailable"));
    assert!(tracker.forward_at(&event(2, PlaybackState::Accepted, None), "t3".into()).is_none());
    assert!(tracker.forward_at(&event(3, PlaybackState::Accepted, None), "t4".into()).is_none());
}

#[test]
fn a_token_is_made_of_the_random_bytes_or_not_at_all() {
    assert_eq!(token_from(Ok(vec![0x00, 0x7f, 0xab])).unwrap(), "007fab");
    assert_eq!(
        token_from(Err(getrandom::Error::UNSUPPORTED)).unwrap_err(),
        getrandom::Error::UNSUPPORTED
    );
}

#[test]
fn a_record_is_timed_in_utc() {
    let mut tracker = HistoryTracker::new();
    tracker.track(1, metadata(None));
    let record = tracker.forward(&event(1, PlaybackState::Accepted, None)).unwrap();
    let text: Vec<char> = record.timestamp.chars().collect();
    assert!(text.len() == 20 || (22..=30).contains(&text.len()));
    for (place, c) in text.iter().enumerate() {
        let fits = match place {
            _ if place == text.len() - 1 => *c == 'Z',
            4 | 7 => *c == '-',
            10 => *c == 'T',
            13 | 16 => *c == ':',
            19 => *c == '.',
            _ => c.is_ascii_digit(),
        };
        assert!(fits, "{} at {}", c, place);
    }
}
