//! A minimal heartbeat collector: remote sources push liveness reports, the
//! service persists them in a SQLite table and renders them as an HTML status
//! page, newest first.
//!
//! The store keeps rows behind a single connection; the handlers validate the
//! shared token, append accepted reports with a server-assigned UTC timestamp,
//! and render the full record set sorted by time descending.

pub mod clock;
pub mod config;
pub mod laws;
pub mod record;
pub mod sort;
pub mod store;
pub mod view;
