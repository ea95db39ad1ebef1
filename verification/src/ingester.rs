//! The ingester: the per-partition write buffer, the replay of the
//! write-ahead log into it, and the persist job that turns a frozen
//! snapshot into a file of the catalog.

pub mod batch;
pub mod buffer;
pub mod counter;
pub mod partition;
pub mod persist;
pub mod persisting;
pub mod query;
pub mod schema;
pub mod sequence;
pub mod sort_key;
pub mod wal_replay;
