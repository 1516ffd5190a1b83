pub mod channel_laws;
pub mod cli;
pub mod config;
pub mod control;
pub mod gain;
pub mod history;
pub mod http;
pub mod ids;
pub mod mcp;
pub mod order;
pub mod paths;
pub mod playback;
pub mod private_file;
pub mod text;
pub mod vocabulary_laws;
