[package]
name = "agent_speak"
version = "0.1.0"
edition = "2021"
publish = false

[dependencies]
axum = { version = "=0.8.9", default-features = false, features = ["http1", "tokio"] }
block2 = "0.6"
clap = { version = "=4.6.7", features = ["derive"] }
crossbeam-channel = "=0.5.17"
dispatch2 = "0.3"
getrandom = "=0.3.4"
libc = "0.2"
objc2 = "0.6"
objc2-avf-audio = "0.3"
objc2-core-foundation = "0.3"
objc2-foundation = "0.3"
rmcp = { version = "=3.8.0", features = ["server", "transport-io", "transport-streamable-http-server"] }
rodio = { version = "=0.23.0", default-features = false, features = ["playback", "flac", "mp3", "vorbis", "wav"] }
schemars = "=1.2.3"
serde = { version = "=1.0.229", features = ["derive"] }
serde_json = "=1.0.154"
thiserror = "=2.0.21"
time = { version = "=0.3.55", features = ["formatting"] }
tokio = { version = "=1.54.1", features = ["full"] }
tokio-util = "=0.7.20"
toml = "=1.1.8"
tracing = "=0.1.44"
tracing-subscriber = { version = "=0.3.23", features = ["env-filter"] }
uuid = { version = "=1.29.0", features = ["v4"] }
windows = { version = "0.61", features = ["Foundation", "Foundation_Collections", "Media_SpeechSynthesis", "Storage_Streams", "Win32_Foundation", "Win32_Storage_FileSystem"] }
