//! Incremental synchronization engine for replicating time-series monitoring
//! rows from a relational source store into a time-series destination store.
//!
//! The verified core covers checkpoint tracking, row-to-metric mapping with
//! tag normalization and per-variant value decoding, batching, and
//! bounded-retry delivery. Network and file I/O live outside the library.

pub mod batching;
pub mod config;
pub mod cycle;
pub mod tags;
pub mod record;
pub mod value;
