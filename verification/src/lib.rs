//! Verified core of an e-book narration service: package ingestion into
//! ordered chapters of plain text, an in-memory document store, voice
//! selection with deterministic fallback, and a chunked audio delivery
//! state machine.
pub mod api;
pub mod audio;
pub mod epub_parser;
pub mod metadata;
pub mod store;
pub mod strutil;
pub mod text;
pub mod tts;
pub mod voice;
