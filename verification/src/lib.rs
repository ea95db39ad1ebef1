//! The data lifecycle of a time-series store: the per-partition write buffer,
//! write-ahead-log replay, the persist job, and the compaction driver that
//! levels the files the persist jobs leave behind.
//!
//! Everything here is a decision or a computation on plain values. Reading
//! segments, uploading objects and talking to the catalog are left to the
//! caller, who hands the outcomes back in.

pub mod catalog;
pub mod chunk_statistics;
pub mod compactor;
pub mod error;
pub mod ingester;
pub mod metrics;
pub mod name_set;
pub mod schema_validator;
pub mod text;
