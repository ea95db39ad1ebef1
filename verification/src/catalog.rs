//! The catalog's view of a Parquet file, as the persist job writes it and the
//! compactor reads it.

use vstd::prelude::*;

verus! {

/// The generation of a file: fresh from ingest, merged once, or final.
#[derive(Debug, Clone, Copy, PartialEq, Eq, Structural)]
pub enum CompactionLevel {
    /// L0: written by a persist job, may overlap any other file.
    Initial,
    /// L1: does not overlap other L1 files.
    FileNonOverlapped,
    /// L2: fully compacted.
    Final,
}

impl CompactionLevel {
    /// The level as a number: 0, 1 or 2.
    pub open spec fn rank(self) -> int {
        match self {
            CompactionLevel::Initial => 0,
            CompactionLevel::FileNonOverlapped => 1,
            CompactionLevel::Final => 2,
        }
    }

    /// The level as the number the catalog and the gossip messages carry.
    pub fn as_number(self) -> (n: i32)
        ensures
            n == self.rank(),
    {
        match self {
            CompactionLevel::Initial => 0,
            CompactionLevel::FileNonOverlapped => 1,
            CompactionLevel::Final => 2,
        }
    }

    /// The level one above this one; the final level is its own successor.
    pub fn next(self) -> (l: Self)
        ensures
            l.rank() == if self.rank() < 2 { self.rank() + 1 } else { 2 },
    {
        match self {
            CompactionLevel::Initial => CompactionLevel::FileNonOverlapped,
            CompactionLevel::FileNonOverlapped => CompactionLevel::Final,
            CompactionLevel::Final => CompactionLevel::Final,
        }
    }
}

/// A file row of the catalog.
#[derive(Debug, Clone, Copy, PartialEq, Eq, Structural)]
pub struct ParquetFile {
    pub id: i64,
    pub partition_id: i64,
    /// The UUID that addresses the blob in the object store.
    pub object_store_id: u128,
    pub min_time: i64,
    pub max_time: i64,
    pub file_size_bytes: i64,
    pub row_count: i64,
    pub compaction_level: CompactionLevel,
    pub created_at: i64,
    /// When set, the time at which the file was soft-deleted.
    pub to_delete: Option<i64>,
}

/// What is needed to insert a file row: a [`ParquetFile`] without the id the
/// catalog will assign.
#[derive(Debug, Clone, Copy, PartialEq, Eq, Structural)]
pub struct ParquetFileParams {
    pub partition_id: i64,
    pub object_store_id: u128,
    pub min_time: i64,
    pub max_time: i64,
    pub file_size_bytes: i64,
    pub row_count: i64,
    pub compaction_level: CompactionLevel,
    pub created_at: i64,
}

impl ParquetFile {
    /// The row that `params` becomes once the catalog has assigned `id`.
    pub open spec fn spec_from_params(params: ParquetFileParams, id: i64) -> ParquetFile {
        ParquetFile {
            id,
            partition_id: params.partition_id,
            object_store_id: params.object_store_id,
            min_time: params.min_time,
            max_time: params.max_time,
            file_size_bytes: params.file_size_bytes,
            row_count: params.row_count,
            compaction_level: params.compaction_level,
            created_at: params.created_at,
            to_delete: None,
        }
    }

    /// Pairs `params` with the id the catalog assigned. A file made this way
    /// is never marked for deletion.
    pub fn from_params(params: ParquetFileParams, id: i64) -> (f: Self)
        ensures
            f == Self::spec_from_params(params, id),
    {
        ParquetFile {
            id,
            partition_id: params.partition_id,
            object_store_id: params.object_store_id,
            min_time: params.min_time,
            max_time: params.max_time,
            file_size_bytes: params.file_size_bytes,
            row_count: params.row_count,
            compaction_level: params.compaction_level,
            created_at: params.created_at,
            to_delete: None,
        }
    }

    /// Whether the time ranges of the two files share an instant.
    pub open spec fn spec_overlaps(self, other: ParquetFile) -> bool {
        self.min_time <= other.max_time && other.min_time <= self.max_time
    }

    /// Whether the time ranges of the two files share an instant.
    pub fn overlaps(&self, other: &ParquetFile) -> (b: bool)
        ensures
            b == self.spec_overlaps(*other),
    {
        self.min_time <= other.max_time && other.min_time <= self.max_time
    }
}

/// What the compactor knows of the partition it works on.
#[derive(Debug, Clone, Copy, PartialEq, Eq, Structural)]
pub struct PartitionInfo {
    pub partition_id: i64,
    pub namespace_id: i64,
    pub table_id: i64,
}

} // verus!
