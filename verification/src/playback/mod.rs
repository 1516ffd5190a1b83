//! Keyed playback scheduling, media preflight and speech dispatch.
pub mod actor;
pub mod actor_laws;
pub mod audio;
pub mod completion;
pub mod dispatch_laws;
pub mod engine;
pub mod error;
pub mod item_laws;
pub mod job;
pub mod media_laws;
pub mod operation_laws;
pub mod record_laws;
pub mod routes;
pub mod run_laws;
pub mod runs;
pub mod schedule_laws;
pub mod speech_laws;
pub mod synthesis;
pub mod tts;
