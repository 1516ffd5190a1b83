//! Audio sources, routes, synthesis and the backend that joins them.
use std::cell::RefCell;
use std::rc::Rc;

use agent_speak::gain::Gain;
use agent_speak::playback::actor::PlaybackBackend;
use agent_speak::playback::audio::{
    sniff_format, AudioFormat, DecoderReport, OutputTarget, PreparedAudio, PreparedAudioSource,
};
use agent_speak::playback::engine::{
    resolve_output_device, DeviceLookup, ItemSet, OpeningOutcome, OutputEngine, StreamState,
};
use agent_speak::playback::error::PlaybackError;
use agent_speak::playback::job::{PlaybackId, PlaybackJob, UtteranceOptions};
use agent_speak::playback::routes::OutputRoutes;
use agent_speak::playback::synthesis::{
    checked_stream_length, select_voice, synthesis_timeout_seconds, PcmBuffer, PcmEncoding,
    PcmFormat, PcmSamples, SynthesisEvent, SynthesisGate, WavCollector,
    MAX_SYNTHESIZED_AUDIO_BYTES,
};
use agent_speak::playback::tts::{
    default_audio_route, default_speech_route, refuse_options, AudioAdapter, SystemBackend,
    TtsAdapter,
    TtsCapabilities,
};

fn gain(value: f64) -> Gain {
    Gain { bits: value.to_bits() }
}

fn silent_wav() -> Vec<u8> {
    let mut wav = Vec::new();
    wav.extend_from_slice(b"RIFF");
    wav.extend_from_slice(&38_u32.to_le_bytes());
    wav.extend_from_slice(b"WAVEfmt ");
    wav.extend_from_slice(&16_u32.to_le_bytes());
    wav.extend_from_slice(&1_u16.to_le_bytes());
    wav.extend_from_slice(&1_u16.to_le_bytes());
    wav.extend_from_slice(&8_000_u32.to_le_bytes());
    wav.extend_from_slice(&16_000_u32.to_le_bytes());
    wav.extend_from_slice(&2_u16.to_le_bytes());
    wav.extend_from_slice(&16_u16.to_le_bytes());
    wav.extend_from_slice(b"data");
    wav.extend_from_slice(&2_u32.to_le_bytes());
    wav.extend_from_slice(&0_i16.to_le_bytes());
    wav
}

/// One sample at 8 kHz.
const ONE_SAMPLE: DecoderReport = DecoderReport::Duration(125_000);

fn open(
    header: &[u8],
    length: u64,
    decoded: DecoderReport,
    limit: Option<u128>,
) -> Result<PreparedAudio<()>, PlaybackError> {
    PreparedAudio::from_file((), true, length, header, decoded, limit)
}

#[test]
fn preflights_wav_and_reports_metadata() {
    let prepared = open(&silent_wav(), 46, ONE_SAMPLE, Some(1_000_000_000)).unwrap();
    assert_eq!(prepared.info().format, AudioFormat::Wav);
    assert_eq!(prepared.info().byte_length, 46);
    assert!(prepared.info().duration <= 1_000_000);
}

#[test]
fn preflights_synthesized_audio_in_memory() {
    let prepared: PreparedAudio<()> =
        PreparedAudio::from_memory(silent_wav(), ONE_SAMPLE).unwrap();
    assert_eq!(prepared.info().format, AudioFormat::Wav);
    assert_eq!(prepared.info().byte_length, 46);
    assert!(prepared.info().duration <= 1_000_000);
    let (PreparedAudioSource::Memory(retained), limit) = prepared.into_parts() else {
        panic!("memory input changed storage kind");
    };
    assert_eq!(retained, silent_wav());
    assert_eq!(limit, Some(125_000));
}

#[test]
fn media_preflight_handles_generated_bytes_without_panicking() {
    let preflight = |bytes: Vec<u8>| {
        let _: Result<PreparedAudio<()>, PlaybackError> =
            PreparedAudio::from_memory(bytes, ONE_SAMPLE);
    };
    let valid = silent_wav();
    for end in 0..=valid.len() {
        preflight(valid[..end].to_vec());
    }
    for byte in 0..valid.len() {
        for bit in 0..8 {
            let mut mutated = valid.clone();
            mutated[byte] ^= 1 << bit;
            preflight(mutated);
        }
    }

    let signatures: [&[u8]; 4] = [b"RIFF....WAVE", b"fLaC", b"OggS\x01vorbis", b"ID3"];
    let mut state = 0xbb67_ae85_84ca_a73b_u64;
    for case in 0..512 {
        let signature = signatures[case % signatures.len()];
        let length = signature.len() + case % 512;
        let mut bytes = Vec::with_capacity(length);
        bytes.extend_from_slice(signature);
        while bytes.len() < length {
            state ^= state << 13;
            state ^= state >> 7;
            state ^= state << 17;
            bytes.push(state as u8);
        }
        preflight(bytes);
    }
}

#[test]
fn rejects_content_that_only_has_a_supported_extension() {
    assert!(matches!(
        open(b"not audio", 9, ONE_SAMPLE, Some(1_000_000_000)),
        Err(PlaybackError::UnsupportedAudio)
    ));
}

#[test]
fn rejects_audio_over_runtime_limit() {
    assert_eq!(
        open(&silent_wav(), 46, ONE_SAMPLE, Some(0)).unwrap_err(),
        PlaybackError::AudioTooLong
    );
}

#[test]
fn unlimited_duration_accepts_valid_audio() {
    assert!(open(&silent_wav(), 46, ONE_SAMPLE, None).is_ok());
}

#[test]
fn file_size_is_not_capped() {
    let length = 52_428_801;
    let prepared = open(&silent_wav(), length, ONE_SAMPLE, None).unwrap();
    assert_eq!(prepared.info().byte_length, length);
}

#[test]
fn undecodable_audio_is_refused() {
    assert_eq!(
        open(&silent_wav(), 46, DecoderReport::Refused, None).unwrap_err(),
        PlaybackError::UnsupportedAudio
    );
    assert_eq!(
        open(&silent_wav(), 46, DecoderReport::UnknownDuration, None).unwrap_err(),
        PlaybackError::DurationUnknown
    );
    assert_eq!(
        PreparedAudio::from_file((), false, 46, &silent_wav(), ONE_SAMPLE, None).unwrap_err(),
        PlaybackError::NotRegularFile
    );
}

#[test]
fn recognizes_supported_container_signatures() {
    let cases = [
        (&b"RIFF\x00\x00\x00\x00WAVE"[..], AudioFormat::Wav),
        (&b"fLaC\x00\x00\x00\x00"[..], AudioFormat::Flac),
        (&b"OggSxxxx\x01vorbis"[..], AudioFormat::OggVorbis),
        (&b"ID3\x04\x00\x00"[..], AudioFormat::Mp3),
        (&b"\xff\xfb\x90\x64"[..], AudioFormat::Mp3),
    ];
    for (bytes, expected) in cases {
        assert_eq!(sniff_format(bytes).unwrap(), expected);
    }
    assert_eq!(
        sniff_format(&b"OggSxxxx\x7fFLACxxxx\xff\xfb"[..]),
        Err(PlaybackError::UnsupportedAudio)
    );
}

#[test]
fn output_targets_compare_by_stable_id_not_display_name() {
    assert_eq!(
        OutputTarget::DeviceId("wasapi:endpoint-a".into()),
        OutputTarget::DeviceId("wasapi:endpoint-a".into())
    );
    assert_ne!(
        OutputTarget::DeviceId("wasapi:endpoint-a".into()),
        OutputTarget::DeviceId("wasapi:endpoint-b".into())
    );
    assert_ne!(
        OutputTarget::SystemDefault,
        OutputTarget::DeviceId("wasapi:endpoint-a".into())
    );
}

#[test]
fn unavailable_output_is_typed_on_first_use() {
    let target = OutputTarget::DeviceId("not-a-valid-cpal-device-id".into());
    assert_eq!(
        resolve_output_device(&target, DeviceLookup::InvalidId),
        Err(PlaybackError::OutputUnavailable(
            "invalid output device id `not-a-valid-cpal-device-id`".into()
        ))
    );
    assert_eq!(
        resolve_output_device(&target, DeviceLookup::Missing),
        Err(PlaybackError::OutputUnavailable(
            "configured output device `not-a-valid-cpal-device-id` is unavailable".into()
        ))
    );
    assert_eq!(
        resolve_output_device(&OutputTarget::SystemDefault, DeviceLookup::NoDefault),
        Err(PlaybackError::OutputUnavailable("no default output device is available".into()))
    );
    assert_eq!(
        resolve_output_device(&target, DeviceLookup::NoOutput),
        Err(PlaybackError::OutputUnavailable(
            "selected device does not support audio output".into()
        ))
    );
    assert_eq!(
        resolve_output_device(&target, DeviceLookup::Unidentified("x".into())),
        Err(PlaybackError::OutputUnavailable(
            "selected output device identity is unavailable: x".into()
        ))
    );
    assert_eq!(
        resolve_output_device(&target, DeviceLookup::Found("alsa:1".into())),
        Ok("alsa:1".into())
    );
}

#[test]
fn outputs_are_reused_until_they_fail() {
    let mut engine = OutputEngine::new();
    assert!(!engine.reuse_output("a", false));
    engine.output_opened("a".into(), OpeningOutcome::Opened { failed: false }).unwrap();
    assert!(engine.reuse_output("a", false));
    assert!(!engine.reuse_output("a", true));
    assert!(!engine.reuse_output("a", false));
    assert_eq!(
        engine.output_opened("a".into(), OpeningOutcome::Opened { failed: true }),
        Err(PlaybackError::OutputUnavailable(
            "selected output device `a` failed while opening".into()
        ))
    );
    assert_eq!(
        engine.output_opened("a".into(), OpeningOutcome::NotOpened("busy".into())),
        Err(PlaybackError::OutputUnavailable(
            "selected output device `a` could not be opened: busy".into()
        ))
    );
    assert_eq!(
        engine.output_opened("a".into(), OpeningOutcome::NotConfigured("rate".into())),
        Err(PlaybackError::OutputUnavailable(
            "selected output device `a` could not be configured: rate".into()
        ))
    );

    engine.output_opened("a".into(), OpeningOutcome::Opened { failed: false }).unwrap();
    assert_eq!(engine.started(1, "a".into(), gain(0.3), true).unwrap(), vec![(1, gain(0.3))]);
    assert_eq!(
        engine.started(2, "a".into(), gain(0.5), true).unwrap(),
        vec![(1, gain(0.3)), (2, gain(0.5))]
    );
    assert_eq!(
        engine.started(3, "a".into(), gain(0.5), false),
        Err(PlaybackError::OutputUnavailable("selected output device `a` is unavailable".into()))
    );
    assert_eq!(
        engine.routes().check_new(1),
        Err(PlaybackError::Backend("audio backend already has this active playback ID".into()))
    );
    assert_eq!(
        engine.stopped(1, "a", false, false),
        Err(PlaybackError::Backend("audio backend did not confirm stop before timeout".into()))
    );
    assert_eq!(engine.stopped(1, "a", true, true).unwrap(), vec![(2, gain(0.5))]);
    assert!(!engine.reuse_output("a", false));
    assert_eq!(engine.finished(2).as_deref(), Some("a"));
    assert_eq!(engine.finished(2), None);
    assert!(engine.routes().playing().is_empty());
}

#[test]
fn streams_tell_each_end_once() {
    let mut state = StreamState::new();
    assert!(state.install(1));
    assert!(!state.install(1));
    assert!(state.install(2));
    assert!(state.install(3));
    assert!(state.complete(1));
    assert!(!state.complete(1));
    assert!(state.cancel(2));
    assert_eq!(state.fail(), vec![3]);
    assert!(state.has_failed());
    assert!(!state.install(4));
    assert!(!state.complete(3));
    assert!(state.fail().is_empty());

    let mut owned = ItemSet::new();
    assert!(owned.insert(1) && owned.insert(2) && !owned.insert(1));
    assert_eq!(owned.list(), vec![1, 2]);
    assert!(owned.remove(1) && !owned.remove(1));
    assert!(owned.contains(2));
    assert_eq!(owned.take_all(), vec![2]);
}

#[test]
fn incremental_streams_are_checked() {
    let mut routes = OutputRoutes::new();
    assert!(routes.check_new_incremental(1, 8_000, 1).is_ok());
    assert_eq!(
        routes.check_new_incremental(1, 7_999, 1),
        Err(PlaybackError::UnsupportedAudio)
    );
    assert_eq!(
        routes.check_new_incremental(1, 96_000, 3),
        Err(PlaybackError::UnsupportedAudio)
    );
    assert_eq!(
        routes.append_incremental(1, 8_000, 1, &[0, 0]),
        Err(PlaybackError::Backend("incremental audio stream has not started".into()))
    );
    routes.insert(1, "a".into(), gain(0.4));
    assert_eq!(
        routes.append_incremental(1, 8_000, 1, &[0x01, 0x00, 0xff, 0xff]).unwrap(),
        vec![1, -1]
    );
    assert_eq!(
        routes.append_incremental(1, 8_000, 2, &[0, 0]),
        Err(PlaybackError::UnsupportedAudio)
    );
    assert_eq!(
        routes.append_incremental(1, 8_000, 1, &[]),
        Err(PlaybackError::UnsupportedAudio)
    );
    assert_eq!(routes.device_of(1).unwrap(), "a");
    assert_eq!(routes.remove(1).as_deref(), Some("a"));
    assert!(routes.device_of(1).is_err());
}

#[test]
fn synthesized_stream_length_is_bounded_before_allocation() {
    assert_eq!(
        checked_stream_length(MAX_SYNTHESIZED_AUDIO_BYTES).unwrap(),
        MAX_SYNTHESIZED_AUDIO_BYTES as u32
    );
    assert!(checked_stream_length(MAX_SYNTHESIZED_AUDIO_BYTES + 1).is_err());
    assert!(checked_stream_length(u64::from(u32::MAX) + 1).is_err());
}

#[test]
fn wav_collector_builds_a_bounded_pcm_header() {
    let mut collector = WavCollector::new();
    collector.format = Some(PcmFormat {
        sample_rate: 22_050,
        channels: 1,
        encoding: PcmEncoding::Float32,
        interleaved: false,
    });
    collector.bytes.extend_from_slice(&123_i16.to_le_bytes());
    let wav = collector.finalize().unwrap();

    assert_eq!(&wav[0..4], b"RIFF");
    assert_eq!(&wav[8..12], b"WAVE");
    assert_eq!(&wav[22..24], &1_u16.to_le_bytes());
    assert_eq!(&wav[24..28], &22_050_u32.to_le_bytes());
    assert_eq!(&wav[40..44], &2_u32.to_le_bytes());
    assert_eq!(&wav[44..], &123_i16.to_le_bytes());
}

#[test]
fn wav_collector_gathers_buffers_until_the_last() {
    let buffer = |frames: usize, samples: Vec<i16>| PcmBuffer {
        is_pcm: true,
        frame_length: frames,
        sample_rate: Some(16_000),
        channels: 1,
        interleaved: false,
        stride: 1,
        samples: PcmSamples::Int16(vec![samples]),
    };
    let mut collector = WavCollector::new();
    assert!(collector.consume(&buffer(2, vec![1, -2])).is_none());
    assert!(collector.consume(&buffer(1, vec![3])).is_none());
    let wav = collector.consume(&buffer(0, vec![])).unwrap().unwrap();
    assert_eq!(wav.len(), 50);
    assert_eq!(&wav[44..46], &1_i16.to_le_bytes());
    assert_eq!(&wav[46..48], &(-2_i16).to_le_bytes());
    assert_eq!(&wav[48..50], &3_i16.to_le_bytes());
    assert_eq!(sniff_format(&wav), Ok(AudioFormat::Wav));
    assert!(collector.consume(&buffer(1, vec![4])).is_none());
}

#[test]
fn voices_and_timeouts_are_chosen_by_rule() {
    let installed = vec!["a".to_owned(), "b".to_owned()];
    assert_eq!(select_voice(Some("b".into()), &installed).unwrap(), Some(1));
    assert!(select_voice(Some("c".into()), &installed).is_err());
    assert_eq!(select_voice(None, &installed).unwrap(), None);
    assert!(synthesis_timeout_seconds(0) <= synthesis_timeout_seconds(10_000));

    let mut service = SynthesisGate::new();
    assert!(service.begin().is_ok());
    assert_eq!(service.settle(SynthesisEvent::Audio(vec![1])), Ok(vec![1]));
    assert!(service.begin().is_ok());
    assert!(service.settle(SynthesisEvent::TimedOut).is_err());
    assert!(service.begin().is_err());
}

#[derive(Default)]
struct Log {
    played: Vec<PlaybackId>,
    spoken: Vec<(PlaybackId, String)>,
    stopped: Vec<(&'static str, PlaybackId)>,
    finished: Vec<(&'static str, PlaybackId)>,
}

struct TestAudio(Rc<RefCell<Log>>);

impl AudioAdapter<()> for TestAudio {
    fn play(
        &mut self,
        playback_id: PlaybackId,
        _source: PreparedAudio<()>,
        _gain: Gain,
    ) -> Result<(), PlaybackError> {
        self.0.borrow_mut().played.push(playback_id);
        Ok(())
    }

    fn stop(&mut self, playback_id: PlaybackId) -> Result<(), PlaybackError> {
        self.0.borrow_mut().stopped.push(("audio", playback_id));
        Ok(())
    }

    fn finished(&mut self, playback_id: PlaybackId) {
        self.0.borrow_mut().finished.push(("audio", playback_id));
    }
}

struct TestSpeech(Rc<RefCell<Log>>);

impl TtsAdapter for TestSpeech {
    fn capabilities(&self) -> TtsCapabilities {
        TtsCapabilities {
            voice_id: Some("shared-test".into()),
            completion_observable: true,
            stoppable: true,
            volume_controllable: true,
        }
    }

    fn speak(
        &mut self,
        playback_id: PlaybackId,
        text: String,
        _gain: Gain,
    ) -> Result<(), PlaybackError> {
        self.0.borrow_mut().spoken.push((playback_id, text));
        Ok(())
    }

    fn stop(&mut self, playback_id: PlaybackId) -> Result<(), PlaybackError> {
        self.0.borrow_mut().stopped.push(("speech", playback_id));
        Ok(())
    }

    fn finished(&mut self, playback_id: PlaybackId) {
        self.0.borrow_mut().finished.push(("speech", playback_id));
    }
}

#[test]
fn file_and_tts_routes_share_one_output_service_with_keyed_ownership() {
    let log = Rc::new(RefCell::new(Log::default()));
    let mut backend =
        SystemBackend::new(Some(TestAudio(log.clone())), Some(TestSpeech(log.clone())));
    assert_eq!(backend.tts_capabilities().unwrap().voice_id.as_deref(), Some("shared-test"));
    let audio = PreparedAudio::from_memory(silent_wav(), ONE_SAMPLE).unwrap();
    backend.start(PlaybackJob::audio(1, audio, gain(0.3))).unwrap();
    backend.start(PlaybackJob::speech(2, "shared output".into(), gain(0.3))).unwrap();
    assert_eq!(log.borrow().played, vec![1]);
    assert_eq!(log.borrow().spoken, vec![(2, "shared output".to_owned())]);

    backend.stop(1).unwrap();
    assert_eq!(log.borrow().stopped, vec![("audio", 1)]);
    backend.finished(2);
    assert_eq!(log.borrow().finished, vec![("speech", 2)]);
    backend.shutdown().unwrap();
    assert_eq!(log.borrow().stopped, vec![("audio", 1)]);
}

#[test]
fn a_missing_backend_is_a_typed_failure() {
    let mut silent: SystemBackend<(), TestAudio, TestSpeech> = SystemBackend::new(None, None);
    assert!(matches!(
        silent.start(PlaybackJob::speech(1, "hello".into(), gain(0.3))),
        Err(PlaybackError::Backend(_))
    ));
    assert!(silent.stop(9).is_ok());
    assert!(silent.shutdown().is_ok());
    assert!(default_audio_route(&OutputTarget::DeviceId("a".into())).is_err());
    assert!(default_audio_route(&OutputTarget::SystemDefault).is_ok());
    let mut options: UtteranceOptions = serde_json::Map::new();
    assert!(default_speech_route(&OutputTarget::SystemDefault).is_ok());
    assert!(default_speech_route(&OutputTarget::DeviceId("a".into())).is_err());
    assert!(refuse_options(&options).is_ok());
    options.insert("speed".into(), serde_json::Value::from(1));
    assert!(refuse_options(&options).is_err());

    let log = Rc::new(RefCell::new(Log::default()));
    let mut speech = TestSpeech(log.clone());
    let device = OutputTarget::DeviceId("a".into());
    assert!(speech
        .speak_with_options_to(1, "hi".into(), options, gain(0.3), &OutputTarget::SystemDefault)
        .is_err());
    assert!(speech.speak_to(1, "hi".into(), gain(0.3), &device).is_err());
    assert!(log.borrow().spoken.is_empty());
    speech
        .speak_with_options_to(
            1,
            "hi".into(),
            serde_json::Map::new(),
            gain(0.3),
            &OutputTarget::SystemDefault,
        )
        .unwrap();
    assert_eq!(log.borrow().spoken, vec![(1, "hi".to_owned())]);
}

#[test]
fn playback_errors_have_their_sentences() {
    assert_eq!(PlaybackError::QueueFull.message(), "the playback queue is full");
    assert_eq!(PlaybackError::Backend("x".into()).message(), "playback backend error: x");
    assert_eq!(
        PlaybackError::OpenFile("x".into()).message(),
        "audio file could not be opened: x"
    );
    assert_eq!(
        PlaybackError::DurationUnknown.message(),
        "audio duration could not be determined"
    );
}

#[test]
fn gains_compare_like_the_numbers_they_encode() {
    for (left, right) in
        [(0.0, 0.1), (-0.1, 0.0), (-0.2, -0.1), (0.4, 0.7), (f64::NEG_INFINITY, 1.0)]
    {
        assert!(gain(left).is_below(gain(right)));
        assert!(!gain(right).is_below(gain(left)));
    }
    assert!(!gain(-0.0).is_below(gain(0.0)));
    assert!(!gain(f64::NAN).is_below(gain(1.0)));
    assert!(gain(f64::NAN).is_nan());
    assert!(!gain(f64::INFINITY).is_finite());
    assert!(gain(0.7).is_within(gain(0.0), gain(0.7)));
}

#[test]
fn a_refused_buffer_leaves_what_was_collected() {
    let buffer = |channels: usize, samples: Vec<Vec<i16>>| PcmBuffer {
        is_pcm: true,
        frame_length: 2,
        sample_rate: Some(16_000),
        channels,
        interleaved: false,
        stride: 1,
        samples: PcmSamples::Int16(samples),
    };
    let mono = PcmFormat {
        sample_rate: 16_000,
        channels: 1,
        encoding: PcmEncoding::Int16,
        interleaved: false,
    };

    let mut collector = WavCollector::new();
    assert!(collector.consume(&buffer(0, vec![])).unwrap().is_err());
    assert_eq!(collector.format, None);
    assert_eq!(collector.bytes, vec![0; 44]);

    let mut collector = WavCollector::new();
    assert!(collector.consume(&buffer(1, vec![vec![1, 2]])).is_none());
    let before = collector.bytes.clone();
    assert!(collector.consume(&buffer(2, vec![vec![3, 4], vec![5, 6]])).unwrap().is_err());
    assert_eq!(collector.format, Some(mono));
    assert_eq!(collector.bytes, before);

    let mut collector = WavCollector::new();
    assert!(collector.consume(&buffer(1, vec![vec![7]])).unwrap().is_err());
    assert_eq!(collector.format, Some(mono));
    assert_eq!(collector.bytes.len(), 46);
    assert_eq!(&collector.bytes[44..], &7_i16.to_le_bytes());
}

#[test]
fn a_finished_recording_is_handed_over_once() {
    let mut collector = WavCollector::new();
    assert!(collector.finalize().is_err());
    assert_eq!(collector.bytes, vec![0; 44]);
    collector.format = Some(PcmFormat {
        sample_rate: 8_000,
        channels: 1,
        encoding: PcmEncoding::Int16,
        interleaved: false,
    });
    assert_eq!(collector.finalize().unwrap().len(), 44);
    assert!(collector.bytes.is_empty());
}

#[test]
fn an_audio_adapter_has_nothing_to_release_by_default() {
    let log = Rc::new(RefCell::new(Log::default()));
    let mut adapter = TestAudio(log.clone());
    assert_eq!(adapter.shutdown(), Ok(()));
    assert!(log.borrow().stopped.is_empty());
}
