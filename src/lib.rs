//! Timetable synchronisation: a data model for timetables, the rules that map
//! an upstream provider's records into it, a retry policy for fetching them, the
//! single-writer repository that serves reads, and the row layout of its
//! durable store.

pub mod text;
pub mod timetable;
pub mod repository;
pub mod sqlite;
pub mod moria;
pub mod httpclient;
pub mod scheduler;
pub mod cors;
