//! Incremental synchronization engine for daily prayer-time schedules.
//!
//! The library keeps one canonical record per (zone, calendar date) and
//! resumes synchronization from the latest stored date of each zone: it
//! computes the minimal fetch window, validates what the upstream source
//! returned, normalizes the textual date and time encodings into typed
//! values, and merges batches into the store with insert-ignore semantics.

pub mod dates;
pub mod jakim;
pub mod parse;
pub mod routes;
pub mod store;
pub mod sync;
pub mod text;
pub mod zones;
