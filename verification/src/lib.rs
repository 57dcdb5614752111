//! Core of a real-time telemetry dashboard.
//!
//! The library ingests newline-delimited, comma-separated numeric records,
//! validates each line against the dimension of the active telemetry mode,
//! keeps a bounded recent history per channel, tracks the ingestion rate,
//! and keeps a bounded log of operator-facing diagnostics.  Samples are
//! carried as opaque 64-bit encodings of the device's numeric values; the
//! surrounding program converts at the boundary and does the actual I/O.

pub mod channel;
pub mod dashboard;
pub mod diag_log;
pub mod history;
pub mod ingest;
pub mod mode;
pub mod rate;
pub mod ring;
