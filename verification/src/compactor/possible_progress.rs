//! The filter that runs after classification: is there anything to do on
//! this branch, and if not, is the branch stuck for good?

use vstd::prelude::*;
use vstd::string::StringExecFns;
use crate::catalog::{ParquetFile, PartitionInfo};
use crate::compactor::file_classification::FilesForProgress;
use crate::error::{ErrorContext, ErrorKind, SimpleError};
use crate::text::{decimal_int, decimal_nat, push_decimal, push_signed_decimal};

verus! {

/// Rejects a branch on which no progress can be made, and fails the
/// partition when a kept file is too large to compact and too narrow to
/// split.
#[derive(Debug)]
pub struct PossibleProgressFilter {
    max_parquet_bytes: usize,
}

/// Whether `f` is larger than `max_parquet_bytes` and covers a single instant,
/// so that no split point exists.
pub open spec fn unsplittable(f: ParquetFile, max_parquet_bytes: int) -> bool {
    f.file_size_bytes > max_parquet_bytes && f.min_time == f.max_time
}

/// The position of the first unsplittable file among `files`, or their
/// number when there is none.
pub open spec fn first_unsplittable(files: Seq<ParquetFile>, max_parquet_bytes: int) -> int
    decreases files.len(),
{
    if files.len() == 0 {
        0
    } else if unsplittable(files[0], max_parquet_bytes) {
        0
    } else {
        1 + first_unsplittable(files.subrange(1, files.len() as int), max_parquet_bytes)
    }
}

/// The message that reports the unsplittable file at `timestamp`.
pub open spec fn unsplittable_message(
    partition_id: int,
    max_parquet_bytes: nat,
    timestamp: int,
) -> Seq<char> {
    "partition "@ + decimal_int(partition_id)
        + " has overlapped files that exceed max compact size limit "@ + decimal_nat(
        max_parquet_bytes,
    ) + ", and cannot be split because they cover a single ns of time "@ + decimal_int(timestamp)
        + "."@
}

/// `first_unsplittable` is within bounds, names an unsplittable file when
/// it is not the length, and no file before it is unsplittable.
pub proof fn lemma_first_unsplittable(files: Seq<ParquetFile>, max_parquet_bytes: int)
    ensures
        0 <= first_unsplittable(files, max_parquet_bytes) <= files.len(),
        first_unsplittable(files, max_parquet_bytes) < files.len() ==> unsplittable(
            files[first_unsplittable(files, max_parquet_bytes)],
            max_parquet_bytes,
        ),
        forall|i: int|
            0 <= i < first_unsplittable(files, max_parquet_bytes) ==> !unsplittable(
                #[trigger] files[i],
                max_parquet_bytes,
            ),
    decreases files.len(),
{
    if files.len() > 0 && !unsplittable(files[0], max_parquet_bytes) {
        let rest = files.subrange(1, files.len() as int);
        lemma_first_unsplittable(rest, max_parquet_bytes);
        let k = first_unsplittable(rest, max_parquet_bytes);
        assert forall|i: int| 0 <= i < 1 + k implies !unsplittable(
            #[trigger] files[i],
            max_parquet_bytes,
        ) by {
            if i > 0 {
                assert(files[i] == rest[i - 1]);
            }
        }
    }
}

/// If no file before `k` is unsplittable, and either `k` is the length or
/// the file at `k` is unsplittable, then `k` is `first_unsplittable`.
pub proof fn lemma_first_unsplittable_is(files: Seq<ParquetFile>, max_parquet_bytes: int, k: int)
    requires
        0 <= k <= files.len(),
        forall|i: int| 0 <= i < k ==> !unsplittable(#[trigger] files[i], max_parquet_bytes),
        k < files.len() ==> unsplittable(files[k], max_parquet_bytes),
    ensures
        first_unsplittable(files, max_parquet_bytes) == k,
{
    lemma_first_unsplittable(files, max_parquet_bytes);
    let j = first_unsplittable(files, max_parquet_bytes);
}

impl PossibleProgressFilter {
    /// The size limit this filter was made with.
    pub closed spec fn limit(&self) -> nat {
        self.max_parquet_bytes as nat
    }

    /// A filter that takes files above `max_parquet_bytes` for too large to
    /// compact.
    pub fn new(max_parquet_bytes: usize) -> (f: Self)
        ensures
            f.limit() == max_parquet_bytes,
    {
        Self { max_parquet_bytes }
    }

    /// The name of this filter, as logs and metrics show it.
    pub fn display(&self) -> (s: String)
        ensures
            s@ == "possible_progress"@,
    {
        String::from_str("possible_progress")
    }

    fn message(&self, partition_id: i64, timestamp: i64) -> (s: String)
        ensures
            s@ == unsplittable_message(partition_id as int, self.limit(), timestamp as int),
    {
        let mut s = String::from_str("partition ");
        push_signed_decimal(&mut s, partition_id);
        s.append(" has overlapped files that exceed max compact size limit ");
        push_decimal(&mut s, self.max_parquet_bytes as u64);
        s.append(", and cannot be split because they cover a single ns of time ");
        push_signed_decimal(&mut s, timestamp);
        s.append(".");
        s
    }

    /// Decides whether the branch is worth running.
    ///
    /// With files to make progress on, the answer is yes. Without, the
    /// answer is no, unless a kept file is unsplittable: then the partition
    /// fails as out of memory, with a message that names the partition, the
    /// limit and the timestamp of the first such file. The error is about
    /// that partition and that file.
    pub fn apply(
        &self,
        partition_info: &PartitionInfo,
        files_to_make_progress_on: &FilesForProgress,
        files_to_keep: &Vec<ParquetFile>,
    ) -> (res: Result<bool, SimpleError>)
        ensures
            !files_to_make_progress_on.spec_is_empty() ==> res == Ok::<bool, SimpleError>(true),
            files_to_make_progress_on.spec_is_empty() && first_unsplittable(
                files_to_keep@,
                self.limit() as int,
            ) == files_to_keep@.len() ==> res == Ok::<bool, SimpleError>(false),
            files_to_make_progress_on.spec_is_empty() && first_unsplittable(
                files_to_keep@,
                self.limit() as int,
            ) < files_to_keep@.len() ==> res is Err && res->Err_0.spec_kind()
                == ErrorKind::OutOfMemory && res->Err_0.spec_message() == unsplittable_message(
                partition_info.partition_id as int,
                self.limit(),
                files_to_keep@[first_unsplittable(files_to_keep@, self.limit() as int)].min_time as int,
            ) && res->Err_0.spec_context() == (ErrorContext {
                partition_id: Some(partition_info.partition_id),
                file_id: Some(
                    files_to_keep@[first_unsplittable(files_to_keep@, self.limit() as int)].id,
                ),
                sequence_number: None,
            }),
    {
        if !files_to_make_progress_on.is_empty() {
            return Ok(true);
        }
        let mut i: usize = 0;
        while i < files_to_keep.len()
            invariant
                i <= files_to_keep@.len(),
                files_to_make_progress_on.spec_is_empty(),
                forall|j: int|
                    0 <= j < i ==> !unsplittable(#[trigger] files_to_keep@[j], self.limit() as int),
            decreases files_to_keep@.len() - i,
        {
            let f = files_to_keep[i];
            if f.file_size_bytes >= 0 && f.file_size_bytes as u64 > self.max_parquet_bytes as u64
                && f.min_time == f.max_time {
                proof {
                    lemma_first_unsplittable_is(files_to_keep@, self.limit() as int, i as int);
                }
                let msg = self.message(partition_info.partition_id, f.min_time);
                return Err(
                    SimpleError::new(ErrorKind::OutOfMemory, msg).with_context(
                        ErrorContext {
                            partition_id: Some(partition_info.partition_id),
                            file_id: Some(f.id),
                            sequence_number: None,
                        },
                    ),
                );
            }
            i = i + 1;
        }
        proof {
            lemma_first_unsplittable_is(
                files_to_keep@,
                self.limit() as int,
                files_to_keep@.len() as int,
            );
        }
        Ok(false)
    }
}

} // verus!
