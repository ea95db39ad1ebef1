//! The snapshots of a partition that are being persisted: frozen buffers,
//! oldest first, each under the identifier it was frozen with.

use std::collections::VecDeque;
use vstd::prelude::*;
use crate::ingester::batch::{
    merge_timestamp_ranges, project_rows, OwnedProjection, RowView, TimestampMinMax,
};
use crate::ingester::schema::{add_rows_columns, batches_columns};
use crate::name_set::NameSet;
use crate::ingester::buffer::{
    copy_rows, rows_timestamp_range, BufferedData, BufferedDataView, RecordBatch,
};
use crate::ingester::query::{
    batches_range, batches_view, lemma_total_rows_prefix, project_batches, total_rows,
    QueryAdaptor,
};

verus! {

/// The generation of a snapshot within its partition: the first snapshot
/// has 1, each later one the next number.
#[derive(Debug, Clone, Copy, PartialEq, Eq, Structural)]
pub struct BatchIdent(pub u64);

impl BatchIdent {
    pub fn get(&self) -> (v: u64)
        ensures
            v == self.0,
    {
        self.0
    }
}

/// The handle of a snapshot that is being persisted: its identifier, and
/// its rows for whoever writes the file.
#[derive(Debug)]
pub struct PersistingData {
    data: QueryAdaptor,
    batch_ident: BatchIdent,
}

impl PersistingData {
    /// The identifier the snapshot was frozen with.
    pub closed spec fn ident(&self) -> u64 {
        self.batch_ident.0
    }

    /// The batches of the snapshot.
    pub closed spec fn batches(&self) -> Seq<Seq<RowView>> {
        self.data@
    }

    /// The partition the snapshot was taken of.
    pub closed spec fn spec_partition_id(&self) -> i64 {
        self.data.spec_partition_id()
    }

    /// Ties `data` to the identifier it was frozen with.
    pub fn new(data: QueryAdaptor, batch_ident: BatchIdent) -> (p: Self)
        ensures
            p.ident() == batch_ident.0,
            p.batches() == data@,
            p.spec_partition_id() == data.spec_partition_id(),
    {
        PersistingData { data, batch_ident }
    }

    /// The identifier the snapshot was frozen with.
    pub fn batch_ident(&self) -> (id: BatchIdent)
        ensures
            id.0 == self.ident(),
    {
        self.batch_ident
    }

    /// The partition the snapshot was taken of.
    pub fn partition_id(&self) -> (id: i64)
        ensures
            id == self.spec_partition_id(),
    {
        self.data.partition_id()
    }

    /// The rows of the snapshot.
    pub fn query_adaptor(&self) -> (q: &QueryAdaptor)
        ensures
            q@ == self.batches(),
    {
        &self.data
    }

    /// The batches of the snapshot.
    pub fn record_batches(&self) -> (data: &Vec<RecordBatch>)
        ensures
            batches_view(data@) == self.batches(),
            data@.len() > 0,
    {
        self.data.record_batches()
    }
}

/// One snapshot in the list.
#[derive(Debug)]
pub struct PersistingEntry {
    pub ident: u64,
    pub data: BufferedData,
}

/// A [`PersistingEntry`] as a mathematical value.
pub struct PersistingEntryView {
    pub ident: u64,
    pub data: BufferedDataView,
}

impl View for PersistingEntry {
    type V = PersistingEntryView;

    open spec fn view(&self) -> PersistingEntryView {
        PersistingEntryView { ident: self.ident, data: self.data@ }
    }
}

/// The views of `entries`, in order.
pub open spec fn entries_view(entries: Seq<PersistingEntry>) -> Seq<PersistingEntryView> {
    entries.map_values(|e: PersistingEntry| e@)
}

/// The rows of each snapshot of `list`, in order.
pub open spec fn entry_rows(list: Seq<PersistingEntryView>) -> Seq<Seq<RowView>> {
    list.map_values(|e: PersistingEntryView| e.data.rows)
}

/// Whether the identifiers grow strictly along `list`.
pub open spec fn ordered(list: Seq<PersistingEntryView>) -> bool {
    forall|i: int, j: int| 0 <= i < j < list.len() ==> list[i].ident < list[j].ident
}

/// Whether `list` holds a snapshot under `ident`.
pub open spec fn has_ident(list: Seq<PersistingEntryView>, ident: u64) -> bool {
    exists|i: int| 0 <= i < list.len() && list[i].ident == ident
}

/// The position in `list` of the snapshot under `ident`.
pub open spec fn index_of(list: Seq<PersistingEntryView>, ident: u64) -> int {
    choose|i: int| 0 <= i < list.len() && list[i].ident == ident
}

/// In an ordered list, the snapshot under an identifier is found at one
/// position only.
pub proof fn lemma_index_of(list: Seq<PersistingEntryView>, i: int)
    requires
        ordered(list),
        0 <= i < list.len(),
    ensures
        index_of(list, list[i].ident) == i,
{
    let j = index_of(list, list[i].ident);
}

/// The snapshots being persisted, oldest first.
#[derive(Debug)]
pub struct PersistingList {
    entries: VecDeque<PersistingEntry>,
}

impl View for PersistingList {
    type V = Seq<PersistingEntryView>;

    closed spec fn view(&self) -> Seq<PersistingEntryView> {
        entries_view(self.entries@)
    }
}

impl PersistingList {
    /// The list without a snapshot.
    pub fn new() -> (l: Self)
        ensures
            l@ == Seq::<PersistingEntryView>::empty(),
    {
        PersistingList { entries: VecDeque::new() }
    }

    /// Whether no snapshot is being persisted.
    pub fn is_empty(&self) -> (b: bool)
        ensures
            b == (self@.len() == 0),
    {
        self.entries.len() == 0
    }

    /// Whether a snapshot is held under `ident`.
    pub fn contains(&self, ident: BatchIdent) -> (b: bool)
        ensures
            b == has_ident(self@, ident.0),
    {
        let mut i: usize = 0;
        while i < self.entries.len()
            invariant
                i <= self.entries@.len(),
                forall|j: int| 0 <= j < i ==> self@[j].ident != ident.0,
            decreases self.entries@.len() - i,
        {
            if self.entries[i].ident == ident.0 {
                assert(self@[i as int].ident == ident.0);
                return true;
            }
            i = i + 1;
        }
        false
    }

    /// Adds the snapshot `data` at the tail, under `ident`.
    pub fn push(&mut self, ident: BatchIdent, data: BufferedData)
        ensures
            final(self)@ == old(self)@.push(PersistingEntryView { ident: ident.0, data: data@ }),
    {
        self.entries.push_back(PersistingEntry { ident: ident.0, data });
    }

    /// Takes the snapshot under `ident` out of the list. The other snapshots
    /// stay in their order.
    pub fn remove(&mut self, ident: BatchIdent) -> (data: BufferedData)
        requires
            ordered(old(self)@),
            has_ident(old(self)@, ident.0),
        ensures
            data@ == old(self)@[index_of(old(self)@, ident.0)].data,
            final(self)@ == old(self)@.remove(index_of(old(self)@, ident.0)),
    {
        let mut i: usize = 0;
        while i < self.entries.len() && self.entries[i].ident != ident.0
            invariant
                i <= self.entries@.len(),
                forall|j: int| 0 <= j < i ==> self@[j].ident != ident.0,
            decreases self.entries@.len() - i,
        {
            i = i + 1;
        }
        proof {
            lemma_index_of(self@, i as int);
        }
        let entry = self.entries.remove(i).unwrap();
        entry.data
    }

    /// The number of rows in all snapshots.
    pub fn rows(&self) -> (n: usize)
        requires
            total_rows(entry_rows(self@)) <= usize::MAX,
        ensures
            n == total_rows(entry_rows(self@)),
    {
        let ghost all = entry_rows(self@);
        let mut n: usize = 0;
        let mut i: usize = 0;
        while i < self.entries.len()
            invariant
                i <= self.entries@.len(),
                all == entry_rows(self@),
                all.len() == self.entries@.len(),
                n == total_rows(all.subrange(0, i as int)),
                total_rows(all) <= usize::MAX,
            decreases self.entries@.len() - i,
        {
            proof {
                assert(all.subrange(0, i + 1).drop_last() =~= all.subrange(0, i as int));
                lemma_total_rows_prefix(all, i + 1);
            }
            n = n + self.entries[i].data.rows.len();
            i = i + 1;
        }
        assert(all.subrange(0, i as int) =~= all);
        n
    }

    /// The range of the timestamps in all snapshots.
    pub fn timestamp_stats(&self) -> (r: Option<TimestampMinMax>)
        ensures
            r == batches_range(entry_rows(self@)),
    {
        let ghost all = entry_rows(self@);
        let mut acc: Option<TimestampMinMax> = None;
        let mut i: usize = 0;
        while i < self.entries.len()
            invariant
                i <= self.entries@.len(),
                all == entry_rows(self@),
                all.len() == self.entries@.len(),
                acc == batches_range(all.subrange(0, i as int)),
            decreases self.entries@.len() - i,
        {
            proof {
                assert(all.subrange(0, i + 1).drop_last() =~= all.subrange(0, i as int));
            }
            acc = merge_timestamp_ranges(acc, rows_timestamp_range(&self.entries[i].data.rows));
            i = i + 1;
        }
        assert(all.subrange(0, i as int) =~= all);
        acc
    }

    /// Adds the columns of the rows of every snapshot to `columns`.
    pub fn add_columns(&self, columns: &mut NameSet)
        ensures
            final(columns)@ == old(columns)@.union(batches_columns(entry_rows(self@))),
    {
        let ghost all = entry_rows(self@);
        let mut i: usize = 0;
        while i < self.entries.len()
            invariant
                i <= self.entries@.len(),
                all == entry_rows(self@),
                all.len() == self.entries@.len(),
                columns@ == old(columns)@.union(batches_columns(all.subrange(0, i as int))),
            decreases self.entries@.len() - i,
        {
            proof {
                assert(all.subrange(0, i + 1).drop_last() =~= all.subrange(0, i as int));
            }
            add_rows_columns(columns, &self.entries[i].data.rows);
            i = i + 1;
        }
        assert(all.subrange(0, i as int) =~= all);
    }

    /// The rows of every snapshot as read through `projection`, oldest
    /// snapshot first.
    pub fn get_query_data(&self, projection: &OwnedProjection) -> (out: Vec<RecordBatch>)
        ensures
            batches_view(out@) == project_batches(entry_rows(self@), projection@),
    {
        let ghost all = entry_rows(self@);
        let mut out: Vec<RecordBatch> = Vec::new();
        let mut i: usize = 0;
        while i < self.entries.len()
            invariant
                i <= self.entries@.len(),
                all == entry_rows(self@),
                all.len() == self.entries@.len(),
                batches_view(out@) == project_batches(all.subrange(0, i as int), projection@),
            decreases self.entries@.len() - i,
        {
            let rows = copy_rows(&self.entries[i].data.rows, projection);
            out.push(RecordBatch { rows });
            proof {
                assert(project_batches(all.subrange(0, i + 1), projection@) =~= project_batches(
                    all.subrange(0, i as int),
                    projection@,
                ).push(project_rows(all[i as int], projection@)));
            }
            i = i + 1;
        }
        out
    }
}

} // verus!
