//! Library core of a Whisper speech-to-text service: the batch transcription
//! back end (models, configuration, audio helpers, error mapping) and the
//! realtime streaming front end (signaling, session bookkeeping, transport
//! profiles, ingest parsing), with their behaviour stated as Verus contracts.
pub mod text;
pub mod backend;
pub mod realtime;
