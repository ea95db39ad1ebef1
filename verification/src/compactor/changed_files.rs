//! The state of the files of a branch as the catalog had it when the branch
//! started, to be held against the state at the time of the commit: a
//! difference means that something else changed the files in between.

use vstd::prelude::*;
use crate::catalog::{CompactionLevel, ParquetFile};

verus! {

/// What is remembered of one file: its id and its level.
#[derive(Debug, Clone, Copy, PartialEq, Eq, Structural)]
pub struct FileState {
    pub id: i64,
    pub level: CompactionLevel,
}

/// The state of some files at one moment.
#[derive(Debug, Clone, PartialEq, Eq)]
pub struct SavedParquetFileState {
    pub ids_and_levels: Vec<FileState>,
}

/// The states of `files`, in order.
pub open spec fn states_of(files: Seq<ParquetFile>) -> Seq<FileState> {
    files.map_values(|f: ParquetFile| FileState { id: f.id, level: f.compaction_level })
}

/// The states of `saved` that `current` does not hold, in the order of
/// `saved`.
pub open spec fn missing_states(saved: Seq<FileState>, current: Seq<FileState>) -> Seq<FileState> {
    saved.filter(|s: FileState| !current.contains(s))
}

impl SavedParquetFileState {
    /// The state of `files`.
    pub fn from(files: &Vec<ParquetFile>) -> (s: Self)
        ensures
            s.ids_and_levels@ == states_of(files@),
    {
        let mut states: Vec<FileState> = Vec::new();
        let mut i: usize = 0;
        while i < files.len()
            invariant
                i <= files@.len(),
                states@.len() == i,
                forall|j: int|
                    0 <= j < i ==> states@[j] == (FileState {
                        id: files@[j].id,
                        level: files@[j].compaction_level,
                    }),
            decreases files@.len() - i,
        {
            states.push(FileState { id: files[i].id, level: files[i].compaction_level });
            i = i + 1;
        }
        SavedParquetFileState { ids_and_levels: states }
    }

    /// Whether `state` is among the states held.
    pub fn contains(&self, state: FileState) -> (b: bool)
        ensures
            b == self.ids_and_levels@.contains(state),
    {
        let mut i: usize = 0;
        while i < self.ids_and_levels.len()
            invariant
                i <= self.ids_and_levels@.len(),
                forall|j: int| 0 <= j < i ==> self.ids_and_levels@[j] != state,
            decreases self.ids_and_levels@.len() - i,
        {
            if self.ids_and_levels[i] == state {
                return true;
            }
            i = i + 1;
        }
        false
    }

    /// The files of this state that `current` does not have at the level
    /// they had: files that were deleted or moved to another level since.
    pub fn missing(&self, current: &SavedParquetFileState) -> (out: Vec<FileState>)
        ensures
            out@ == missing_states(self.ids_and_levels@, current.ids_and_levels@),
    {
        let ghost absent = |s: FileState| !current.ids_and_levels@.contains(s);
        let ghost saved = self.ids_and_levels@;
        let mut out: Vec<FileState> = Vec::new();
        let mut i: usize = 0;
        while i < self.ids_and_levels.len()
            invariant
                i <= saved.len(),
                saved == self.ids_and_levels@,
                absent == (|s: FileState| !current.ids_and_levels@.contains(s)),
                out@ == saved.subrange(0, i as int).filter(absent),
            decreases saved.len() - i,
        {
            proof {
                assert(saved.subrange(0, i + 1) =~= saved.subrange(0, i as int).push(saved[i as int]));
                saved.subrange(0, i as int).lemma_filter_push(saved[i as int], absent);
            }
            if !current.contains(self.ids_and_levels[i]) {
                out.push(self.ids_and_levels[i]);
            }
            i = i + 1;
        }
        assert(saved.subrange(0, i as int) =~= saved);
        out
    }

    /// Whether the files of this state are all still there in `current`, at
    /// the level they had.
    pub fn existing_files_unmodified(&self, current: &SavedParquetFileState) -> (b: bool)
        ensures
            b == (missing_states(self.ids_and_levels@, current.ids_and_levels@).len() == 0),
    {
        self.missing(current).len() == 0
    }
}

} // verus!
