//! A channel-polling scheduler and video-ingestion pipeline.
//!
//! Monitored channels are grouped by refresh interval; one repeating task per
//! distinct interval polls a remote video platform in two phases, filters the
//! discovered items against per-channel rules and already-persisted state,
//! normalizes external timestamp and duration formats, and persists newly
//! discovered records. The surrounding application supplies the HTTP
//! transport, the SQL store and the timers; every decision the pipeline makes
//! lives here, with a contract.

pub mod api;
pub mod background;
pub mod data;
pub mod db;
pub mod errors;
pub mod ingest;
pub mod settings;
pub mod time_codec;
