//! Verified core of a background speech-to-text service: audio conditioning,
//! speech detection, segment accumulation, an ordered transcription queue, the
//! continuous transcription state machine, the service state with its control
//! protocol, and event fan-out to subscribers.
//!
//! Audio samples are 16-bit signed PCM values (full scale is 32768).
pub mod audio;
pub mod processor;
pub mod queue;
pub mod protocol;
pub mod transcribe_state;
pub mod state;
pub mod events;
pub mod segment;
pub mod config;
