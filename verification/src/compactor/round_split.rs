//! The split of the files of a range into those of this round and those of
//! a later one.

use vstd::prelude::*;
use crate::catalog::ParquetFile;
use crate::compactor::round_info::CompactType;

verus! {

/// Splits the files of one partition into two buckets: the first is
/// processed in this round, the second in the next.
pub trait RoundSplit {
    fn split(&self, files: Vec<ParquetFile>, op: CompactType, partition: i64) -> (
        Vec<ParquetFile>,
        Vec<ParquetFile>,
    );
}

} // verus!
