//! Requests to speak, followed through the actor to what clients are told.
use agent_speak::config::layers::plain_table;
use agent_speak::config::load::{quick_profile, Platform, QuickProfileOverrides};
use agent_speak::config::model::{SystemTtsConfig, TtsBackend, TtsConfig, UtterPipeTtsConfig};
use agent_speak::config::toml_value::{TomlTable, TomlValue};
use agent_speak::gain::Gain;
use agent_speak::mcp::outputs::{
    acceptance_output, cancellation_output, parse_playback_id, status_output,
};
use agent_speak::mcp::server::{AgentSpeakServer, GainRange};
use agent_speak::mcp::tools::SpeakTextInput;
use agent_speak::playback::actor::{Actor, BackendCompletion, PlaybackBackend, PlaybackState};
use agent_speak::playback::error::PlaybackError;
use agent_speak::playback::job::{ConcurrencyMode, PlaybackId, PlaybackJob};

struct Backend {
    refuses_stops: bool,
}

impl PlaybackBackend<()> for Backend {
    fn start(&mut self, _job: PlaybackJob<()>) -> Result<(), PlaybackError> {
        Ok(())
    }

    fn stop(&mut self, _playback_id: PlaybackId) -> Result<(), PlaybackError> {
        if self.refuses_stops {
            Err(PlaybackError::Backend("private backend cancellation diagnostic".into()))
        } else {
            Ok(())
        }
    }
}

fn actor(refuses_stops: bool) -> Actor<(), Backend> {
    Actor::new(Backend { refuses_stops }, 16, 2).unwrap()
}

fn quick_server() -> AgentSpeakServer {
    AgentSpeakServer::from_parts(
        quick_profile(QuickProfileOverrides::default(), Platform::Linux).unwrap(),
        GainRange { minimum: "0.00".into(), maximum: "0.70".into() },
    )
}

/// Speak and return the identifier that the client is told.
fn speak(actor: &mut Actor<(), Backend>, id: PlaybackId, text: &str) -> String {
    let input = SpeakTextInput {
        text: text.to_owned(),
        utterance_options: serde_json::Map::new(),
        gain: None,
        concurrency: None,
        output_target: None,
    };
    let call = quick_server().speak_text(id, input, Ok(())).unwrap();
    let accepted = actor.submit(call.job, call.concurrency);
    let output = acceptance_output(&accepted).unwrap();
    assert_eq!(output.status, "accepted");
    output.playback_id
}

fn job(id: PlaybackId) -> PlaybackJob<()> {
    PlaybackJob::speech(id, "test".to_owned(), Gain { bits: 0.4_f64.to_bits() })
}

#[test]
fn playback_status_is_read_only_bounded_and_sanitized() {
    let mut actor = actor(false);
    let playback_id = speak(&mut actor, 41, "status secret marker");
    let id = parse_playback_id(&playback_id).unwrap();
    actor.finish(id, BackendCompletion::Completed);

    let terminal = status_output(&Ok(actor.status(id))).unwrap();
    assert_eq!(terminal.playback_id, playback_id);
    assert_eq!(terminal.status, "completed");
    assert!(terminal.terminal);
    assert!(terminal.error_code.is_none());
    let shown = format!("{terminal:?}");
    assert!(!shown.contains("status secret marker"));
    assert!(!shown.contains("path"));

    assert_eq!(parse_playback_id("not-a-uuid").unwrap_err().code, "invalid_playback_id");
    assert_eq!(status_output(&Ok(actor.status(42))).unwrap_err().code, "unknown_playback_id");
    actor.do_shutdown().unwrap();
}

#[test]
fn cancellation_stops_active_playback_and_is_idempotent() {
    let mut actor = actor(false);
    let playback_id = speak(&mut actor, 41, "cancellation privacy marker");
    let id = parse_playback_id(&playback_id).unwrap();

    let output = cancellation_output(&actor.cancel(id)).unwrap();
    assert_eq!(output.playback_id, playback_id);
    assert_eq!(output.status, "interrupted");
    assert!(output.terminal);
    assert!(output.cancelled);
    assert!(!format!("{output:?}").contains("cancellation privacy marker"));

    let repeated = cancellation_output(&actor.cancel(id)).unwrap();
    assert_eq!(repeated.status, "interrupted");
    assert!(!repeated.cancelled);
    assert_eq!(status_output(&Ok(actor.status(id))).unwrap().status, "interrupted");

    assert_eq!(parse_playback_id("not-a-uuid").unwrap_err().code, "invalid_playback_id");
    assert_eq!(cancellation_output(&actor.cancel(42)).unwrap_err().code, "unknown_playback_id");
    actor.do_shutdown().unwrap();
}

#[test]
fn cancellation_failure_is_sanitized_and_preserves_observed_state() {
    let mut actor = actor(true);
    let playback_id = speak(&mut actor, 41, "private spoken text");
    let id = parse_playback_id(&playback_id).unwrap();

    let refusal = cancellation_output(&actor.cancel(id)).unwrap_err();
    assert_eq!(refusal.code, "playback_unavailable");
    let shown = format!("{refusal:?}");
    assert!(!shown.contains("private backend cancellation diagnostic"));
    assert!(!shown.contains("private spoken text"));

    let status = status_output(&Ok(actor.status(id))).unwrap();
    assert_eq!(status.status, "playing");
    assert!(!status.terminal);
    assert!(actor.do_shutdown().is_err());
}

#[test]
fn failed_playback_status_exposes_only_a_stable_error_code() {
    let mut actor = actor(false);
    let playback_id = speak(&mut actor, 41, "private spoken text");
    let id = parse_playback_id(&playback_id).unwrap();
    actor.finish(id, BackendCompletion::Failed("provider secret diagnostic".into()));

    let terminal = status_output(&Ok(actor.status(id))).unwrap();
    assert_eq!(terminal.status, "failed");
    assert_eq!(terminal.error_code, Some("playback_unavailable"));
    let shown = format!("{terminal:?}");
    assert!(!shown.contains("provider secret diagnostic"));
    assert!(!shown.contains("private spoken text"));
    actor.do_shutdown().unwrap();
}

#[test]
fn an_ended_item_keeps_its_state() {
    let mut actor = actor(false);
    actor.submit(job(1), ConcurrencyMode::Enqueue).unwrap();
    actor.finish(1, BackendCompletion::Completed);
    let completed = |actor: &Actor<(), Backend>| actor.status(1).unwrap().state;

    actor.submit(job(2), ConcurrencyMode::Interrupt).unwrap();
    assert_eq!(completed(&actor), PlaybackState::Completed);
    actor.finish(1, BackendCompletion::Failed("late".into()));
    assert_eq!(completed(&actor), PlaybackState::Completed);
    actor.cancel(2).unwrap();
    actor.emergency_stop().unwrap();
    assert_eq!(completed(&actor), PlaybackState::Completed);
    actor.do_shutdown().unwrap();
    assert_eq!(completed(&actor), PlaybackState::Completed);
}

#[test]
fn shutdown_interrupts_what_is_in_flight() {
    let mut actor = actor(true);
    actor.submit(job(1), ConcurrencyMode::Enqueue).unwrap();
    actor.submit(job(2), ConcurrencyMode::Enqueue).unwrap();
    assert!(actor.do_shutdown().is_err());
    assert_eq!(actor.status(1).unwrap().state, PlaybackState::Interrupted);
    assert_eq!(actor.status(2).unwrap().state, PlaybackState::Interrupted);
}

#[test]
fn mixing_items_start_up_to_the_limit_and_skip_nothing() {
    let mut actor = actor(false);
    for id in 1..4 {
        actor.submit(job(id), ConcurrencyMode::Mix).unwrap();
    }
    assert_eq!(actor.status(1).unwrap().state, PlaybackState::Playing);
    assert_eq!(actor.status(2).unwrap().state, PlaybackState::Playing);
    assert_eq!(actor.status(3).unwrap().state, PlaybackState::Accepted);

    // A stream is free again, but an item that does not mix waits ahead.
    actor.cancel(3).unwrap();
    actor.submit(job(4), ConcurrencyMode::Enqueue).unwrap();
    actor.finish(1, BackendCompletion::Completed);
    actor.submit(job(5), ConcurrencyMode::Mix).unwrap();
    assert_eq!(actor.status(4).unwrap().state, PlaybackState::Accepted);
    assert_eq!(actor.status(5).unwrap().state, PlaybackState::Accepted);
    actor.do_shutdown().unwrap();
}

#[test]
fn a_system_backend_tells_its_voice_where_one_is_chosen() {
    let system = |voice: &str| TtsConfig {
        enabled: true,
        backend: TtsBackend::System(SystemTtsConfig { voice_id: voice.to_owned() }),
        maximum_characters: 300,
    };
    assert_eq!(system("alba").voice_id(), "alba");
    assert_eq!(system("alba").system_voice_id(), Some(&"alba".to_owned()));

    let provider = TtsConfig {
        enabled: true,
        backend: TtsBackend::Utterpipe(UtterPipeTtsConfig {
            provider: "espeak-ng".into(),
            model_id: None,
            voice_id: None,
            audio_deliveries: vec![],
            provider_environment: vec![],
            provider_options: TomlTable::new(),
            utterance_options: TomlTable::new(),
            agent_utterance_options: vec![],
        }),
        maximum_characters: 300,
    };
    assert_eq!(provider.system_voice_id(), None);
}

#[test]
fn a_document_table_becomes_plain_entries_under_the_same_keys() {
    let mut nested = toml::Table::new();
    nested.insert("rate".into(), toml::Value::Integer(175));
    let mut document = toml::Table::new();
    document.insert("voice".into(), toml::Value::String("alba".into()));
    document.insert("speed".into(), toml::Value::Float(1.5));
    document.insert("more".into(), toml::Value::Table(nested));

    let mut entries = plain_table(document).into_entries();
    entries.sort_by(|left, right| left.0.cmp(&right.0));
    assert_eq!(entries.len(), 3);
    assert_eq!(entries[0].0, "more");
    let inner = entries[0].1.as_table().unwrap();
    assert_eq!(inner.get("rate"), Some(&TomlValue::Integer(175)));
    assert_eq!(entries[1].1, TomlValue::Float(1.5_f64.to_bits()));
    assert_eq!(entries[2].1, TomlValue::Text("alba".into()));
}
