//! The realtime streaming service: configuration rules, signaling and session
//! bookkeeping, transport profiles, the ingest and signaling request parsers,
//! audio framing and the streaming recogniser's behaviour.
pub mod config;
pub mod server;
pub mod signaling;
pub mod resource;
pub mod service;
pub mod http_api;
pub mod transport;
pub mod asr;
pub mod audio_pipeline;
pub mod orchestrator;
