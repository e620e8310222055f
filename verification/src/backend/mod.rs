//! The batch transcription service: HTTP models, configuration, audio
//! helpers, request handling rules and the speech engine's pure parts.
pub mod models;
pub mod config;
pub mod audio;
pub mod whisper;
pub mod handlers;
