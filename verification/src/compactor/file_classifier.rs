//! The classifier of the files of one branch.

use std::sync::Arc;
use vstd::prelude::*;
use crate::catalog::{ParquetFile, PartitionInfo};
use crate::compactor::file_classification::FileClassification;
use crate::compactor::round_info::CompactType;

verus! {

/// Sorts the files of a branch into those to keep, those to upgrade and
/// those to split or compact, for the operation `op` of the range.
pub trait FileClassifier {
    fn classify(
        &self,
        partition_info: &PartitionInfo,
        op: &CompactType,
        files: Vec<ParquetFile>,
    ) -> FileClassification;
}

/// A shared classifier classifies as the classifier it points to.
impl<T: FileClassifier + ?Sized> FileClassifier for Arc<T> {
    fn classify(
        &self,
        partition_info: &PartitionInfo,
        op: &CompactType,
        files: Vec<ParquetFile>,
    ) -> (res: FileClassification)
        ensures
            call_ensures(T::classify, (&**self, partition_info, op, files), res),
    {
        let inner: &T = &**self;
        inner.classify(partition_info, op, files)
    }
}

} // verus!
