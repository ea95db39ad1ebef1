//! A round of compaction: the time ranges of a partition that are worked on
//! independently, each with its operation, its branches, and the files it
//! puts aside for the next round.

use vstd::prelude::*;
use crate::catalog::{CompactionLevel, ParquetFile};

verus! {

/// What a range does to its files in one round.
#[derive(Debug, Clone, Copy, PartialEq, Eq, Structural)]
pub enum CompactType {
    /// Merge files of this level into fewer files of the same level.
    CompactSameLevel(CompactionLevel),
    /// Merge files of this level into files of the next level.
    CompactToNext(CompactionLevel),
    /// Split files of this level that overlap several files of the next.
    SplitOverlaps(CompactionLevel),
    /// Split a backlog of many small files by time.
    SplitManySmall,
}

impl CompactType {
    /// The name of the operation, as logs show it.
    pub fn display(&self) -> (s: &'static str)
        ensures
            s@ == match self {
                CompactType::CompactSameLevel(_) => "compact_same_level"@,
                CompactType::CompactToNext(_) => "compact_to_next"@,
                CompactType::SplitOverlaps(_) => "split_overlaps"@,
                CompactType::SplitManySmall => "split_many_small"@,
            },
    {
        match self {
            CompactType::CompactSameLevel(_) => "compact_same_level",
            CompactType::CompactToNext(_) => "compact_to_next",
            CompactType::SplitOverlaps(_) => "split_overlaps",
            CompactType::SplitManySmall => "split_many_small",
        }
    }
}

/// One time range of a round.
#[derive(Debug)]
pub struct RangeInfo {
    pub min: i64,
    pub max: i64,
    /// The budget of one branch, in bytes.
    pub cap: usize,
    pub op: Option<CompactType>,
    /// The branches still to run; `None` once they were taken.
    pub branches: Option<Vec<Vec<ParquetFile>>>,
    /// The files of the range that go into the next round.
    pub files_for_later: Option<Vec<ParquetFile>>,
}

/// The files of `batches`, batch after batch.
pub open spec fn concat_files(batches: Seq<Vec<ParquetFile>>) -> Seq<ParquetFile>
    decreases batches.len(),
{
    if batches.len() == 0 {
        Seq::empty()
    } else {
        concat_files(batches.drop_last()) + batches.last()@
    }
}

/// The files of `batches`, batch after batch.
pub fn flatten_files(batches: Vec<Vec<ParquetFile>>) -> (out: Vec<ParquetFile>)
    ensures
        out@ == concat_files(batches@),
{
    let mut out: Vec<ParquetFile> = Vec::new();
    let mut i: usize = 0;
    while i < batches.len()
        invariant
            i <= batches@.len(),
            out@ == concat_files(batches@.subrange(0, i as int)),
        decreases batches@.len() - i,
    {
        let mut batch = batches[i].clone();
        proof {
            assert(batches@.subrange(0, i + 1).drop_last() =~= batches@.subrange(0, i as int));
        }
        out.append(&mut batch);
        i = i + 1;
    }
    assert(batches@.subrange(0, i as int) =~= batches@);
    out
}

/// The files that `later` holds, none when it was never set.
pub open spec fn later_files(later: Option<Vec<ParquetFile>>) -> Seq<ParquetFile> {
    match later {
        None => Seq::empty(),
        Some(files) => files@,
    }
}

impl RangeInfo {
    /// Takes the branches of the range, to run them. They can be taken
    /// once.
    pub fn take_branches(&mut self) -> (out: Option<Vec<Vec<ParquetFile>>>)
        requires
            old(self).op is Some,
        ensures
            out == old(self).branches,
            final(self).branches is None,
            final(self).min == old(self).min,
            final(self).max == old(self).max,
            final(self).cap == old(self).cap,
            final(self).op == old(self).op,
            final(self).files_for_later == old(self).files_for_later,
    {
        let mut out: Option<Vec<Vec<ParquetFile>>> = None;
        core::mem::swap(&mut self.branches, &mut out);
        out
    }

    /// Puts the output of the branches behind the files the range already
    /// keeps for the next round, branch after branch.
    pub fn add_branch_outputs(&mut self, branches_output: Vec<Vec<ParquetFile>>)
        ensures
            final(self).files_for_later matches Some(files) && files@ == later_files(
                old(self).files_for_later,
            ) + concat_files(branches_output@),
            final(self).min == old(self).min,
            final(self).max == old(self).max,
            final(self).cap == old(self).cap,
            final(self).op == old(self).op,
            final(self).branches == old(self).branches,
    {
        let mut taken: Option<Vec<ParquetFile>> = None;
        core::mem::swap(&mut self.files_for_later, &mut taken);
        let mut files = match taken {
            None => Vec::new(),
            Some(files) => files,
        };
        let mut output = flatten_files(branches_output);
        files.append(&mut output);
        self.files_for_later = Some(files);
    }
}

/// One round: its ranges, which share no instant.
#[derive(Debug)]
pub struct RoundInfo {
    pub ranges: Vec<RangeInfo>,
}

/// The files that `ranges` keep for the next round, range after range.
pub open spec fn files_for_later_of(ranges: Seq<RangeInfo>) -> Seq<ParquetFile>
    decreases ranges.len(),
{
    if ranges.len() == 0 {
        Seq::empty()
    } else {
        files_for_later_of(ranges.drop_last()) + later_files(ranges.last().files_for_later)
    }
}

impl RoundInfo {
    /// Whether a round is left to run: the planner did not say that the
    /// partition is done, and the round has a range.
    pub fn has_work(&self, done: bool) -> (b: bool)
        ensures
            b == (!done && self.ranges@.len() > 0),
    {
        !done && self.ranges.len() > 0
    }

    /// The files of the next round: what every range of this round put
    /// aside, range after range.
    pub fn files_for_next_round(&self) -> (out: Vec<ParquetFile>)
        ensures
            out@ == files_for_later_of(self.ranges@),
    {
        let mut out: Vec<ParquetFile> = Vec::new();
        let mut i: usize = 0;
        while i < self.ranges.len()
            invariant
                i <= self.ranges@.len(),
                out@ == files_for_later_of(self.ranges@.subrange(0, i as int)),
            decreases self.ranges@.len() - i,
        {
            proof {
                assert(self.ranges@.subrange(0, i + 1).drop_last() =~= self.ranges@.subrange(
                    0,
                    i as int,
                ));
            }
            match &self.ranges[i].files_for_later {
                None => {},
                Some(files) => {
                    let mut copy = files.clone();
                    out.append(&mut copy);
                },
            }
            i = i + 1;
        }
        assert(self.ranges@.subrange(0, i as int) =~= self.ranges@);
        out
    }
}

} // verus!
