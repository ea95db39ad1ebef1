//! What a classifier says of one branch of files: which to keep, which to
//! upgrade, and which to split or compact.

use vstd::prelude::*;
use crate::catalog::{CompactionLevel, ParquetFile};

verus! {

/// Why a set of files is compacted.
#[derive(Debug, Clone, Copy, PartialEq, Eq, Structural)]
pub enum CompactReason {
    ManySmallFiles,
    TotalSizeThreshold,
    FoundSubsets,
    HighL0Overlap,
    HighL1Overlap,
}

/// One file that is to be rewritten into several, cut at `split_times`.
#[derive(Debug)]
pub struct FileToSplit {
    pub file: ParquetFile,
    pub split_times: Vec<i64>,
}

/// The files a branch rewrites, if any.
#[derive(Debug)]
pub enum FilesToSplitOrCompact {
    /// Nothing is rewritten.
    Nothing,
    /// Each file is rewritten into several by time boundaries.
    Split(Vec<FileToSplit>),
    /// The files are merged into one or more files at the target level.
    Compact(Vec<ParquetFile>, CompactReason),
}

impl FilesToSplitOrCompact {
    /// The files that the rewrite reads, in order.
    pub open spec fn spec_files(&self) -> Seq<ParquetFile> {
        match self {
            FilesToSplitOrCompact::Nothing => Seq::empty(),
            FilesToSplitOrCompact::Split(splits) => Seq::new(
                splits@.len(),
                |i: int| splits@[i].file,
            ),
            FilesToSplitOrCompact::Compact(files, _) => files@,
        }
    }

    /// Whether nothing at all is rewritten.
    pub fn is_none(&self) -> (b: bool)
        ensures
            b == (self is Nothing),
    {
        match self {
            FilesToSplitOrCompact::Nothing => true,
            _ => false,
        }
    }

    /// The files that the rewrite reads, in order.
    pub fn files(&self) -> (out: Vec<ParquetFile>)
        ensures
            out@ == self.spec_files(),
    {
        match self {
            FilesToSplitOrCompact::Nothing => Vec::new(),
            FilesToSplitOrCompact::Split(splits) => {
                let mut out: Vec<ParquetFile> = Vec::new();
                let mut i: usize = 0;
                while i < splits.len()
                    invariant
                        i <= splits@.len(),
                        out@ == Seq::new(i as nat, |j: int| splits@[j].file),
                    decreases splits@.len() - i,
                {
                    out.push(splits[i].file);
                    i = i + 1;
                }
                out
            },
            FilesToSplitOrCompact::Compact(files, _) => files.clone(),
        }
    }
}

/// The files of a branch on which this round makes progress.
#[derive(Debug)]
pub struct FilesForProgress {
    /// Files whose level alone changes.
    pub upgrade: Vec<ParquetFile>,
    /// Files that are rewritten.
    pub split_or_compact: FilesToSplitOrCompact,
}

impl FilesForProgress {
    /// Whether there is neither an upgrade nor a rewrite.
    pub open spec fn spec_is_empty(&self) -> bool {
        self.upgrade@.len() == 0 && self.split_or_compact is Nothing
    }

    /// Whether there is neither an upgrade nor a rewrite.
    pub fn is_empty(&self) -> (b: bool)
        ensures
            b == self.spec_is_empty(),
    {
        self.upgrade.len() == 0 && self.split_or_compact.is_none()
    }

    /// Progress on nothing.
    pub fn empty() -> (p: Self)
        ensures
            p.spec_is_empty(),
            p.upgrade@ == Seq::<ParquetFile>::empty(),
    {
        FilesForProgress { upgrade: Vec::new(), split_or_compact: FilesToSplitOrCompact::Nothing }
    }
}

/// The verdict of a classifier on one branch.
#[derive(Debug)]
pub struct FileClassification {
    /// The level this round aims to produce.
    pub target_level: CompactionLevel,
    pub files_to_make_progress_on: FilesForProgress,
    /// Files left untouched for a later round.
    pub files_to_keep: Vec<ParquetFile>,
}

} // verus!
