//! The write buffer of one partition: a live buffer that accepts writes, and
//! the snapshots of it that are being persisted, which stay readable until
//! their persistence is acknowledged.

use vstd::prelude::*;
use crate::error::ErrorKind;
use crate::ingester::batch::{
    merge_timestamp_ranges, projection_keeps, time_column, timestamp_range, OwnedProjection,
    RowView, TimestampMinMax,
};
use crate::ingester::buffer::{
    all_timed, lemma_project_all, BufferedDataView, DataBuffer, MutableBatch, RecordBatch,
};
use crate::ingester::counter::PartitionCounter;
use crate::ingester::persisting::{
    entry_rows, has_ident, index_of, lemma_index_of, ordered, BatchIdent, PersistingData,
    PersistingEntryView, PersistingList,
};
use crate::ingester::query::{
    batches_range, batches_view, lemma_batches_range_push, lemma_projected_batches_range,
    lemma_projected_total_rows, lemma_total_rows_push, project_batches, total_rows, QueryAdaptor,
};
use crate::ingester::sequence::{SequenceNumber, SequenceNumberSet};
use crate::ingester::schema::{batches_columns, lemma_batches_columns_push};
use crate::ingester::sort_key::{
    key_view, SortKey, SortKeyState, SortKeyStateView, SortedColumnSet,
};
use crate::name_set::NameSet;

verus! {

/// Why a write was not buffered.
#[derive(Debug, Clone, Copy, PartialEq, Eq, Structural)]
pub enum BufferWriteError {
    /// The namespace already has as many non-empty partitions as it may
    /// have; the number is the cap.
    Limit(usize),
}

impl BufferWriteError {
    /// The kind under which this error is reported.
    pub fn kind(&self) -> (k: ErrorKind)
        ensures
            k == ErrorKind::Limit,
    {
        ErrorKind::Limit
    }
}

/// A partition buffer as a mathematical value.
pub struct PartitionView {
    /// The snapshots being persisted, oldest first.
    pub persisting: Seq<PersistingEntryView>,
    /// The live buffer.
    pub buffer: BufferedDataView,
    /// How many snapshots were ever taken.
    pub started: u64,
    /// How many snapshots were acknowledged as persisted.
    pub completed: u64,
    /// The cached emptiness flag.
    pub is_empty: bool,
}

impl PartitionView {
    /// A partition that has seen no write.
    pub open spec fn initial() -> PartitionView {
        PartitionView {
            persisting: Seq::empty(),
            buffer: BufferedDataView { rows: Seq::empty(), sequence_numbers: Set::empty() },
            started: 0,
            completed: 0,
            is_empty: true,
        }
    }

    /// Whether the partition holds no row, by looking at its contents.
    pub open spec fn holds_nothing(self) -> bool {
        self.persisting.len() == 0 && self.buffer.rows.len() == 0
    }

    /// The permits of the namespace that the partition holds: one while it
    /// is not empty.
    pub open spec fn permits_held(self) -> nat {
        if self.is_empty {
            0
        } else {
            1
        }
    }

    /// The batches a query reads, in write order: the snapshots oldest
    /// first, then the live buffer if it holds rows.
    pub open spec fn batches(self) -> Seq<Seq<RowView>> {
        if self.buffer.rows.len() > 0 {
            entry_rows(self.persisting).push(self.buffer.rows)
        } else {
            entry_rows(self.persisting)
        }
    }

    /// The number of rows held, buffered and persisting.
    pub open spec fn rows(self) -> nat {
        total_rows(self.batches())
    }

    /// The range of the timestamps held.
    pub open spec fn timestamp_stats(self) -> Option<TimestampMinMax> {
        batches_range(self.batches())
    }

    /// What holds of every partition buffer, whatever was done to it.
    pub open spec fn inv(self) -> bool {
        &&& self.is_empty == self.holds_nothing()
        &&& ordered(self.persisting)
        &&& forall|i: int|
            0 <= i < self.persisting.len() ==> 1 <= (#[trigger] self.persisting[i]).ident
                <= self.started
        &&& forall|i: int|
            0 <= i < self.persisting.len() ==> (#[trigger] self.persisting[i]).data.rows.len() > 0
        &&& forall|i: int|
            0 <= i < self.persisting.len() ==> all_timed(
                (#[trigger] self.persisting[i]).data.rows,
            )
        &&& all_timed(self.buffer.rows)
        &&& self.completed + self.persisting.len() == self.started
    }

    /// The partition after the rows `rows` were written under `sequence`.
    pub open spec fn write(self, rows: Seq<RowView>, sequence: u64) -> PartitionView {
        PartitionView {
            buffer: BufferedDataView {
                rows: self.buffer.rows + rows,
                sequence_numbers: self.buffer.sequence_numbers.insert(sequence),
            },
            is_empty: false,
            ..self
        }
    }

    /// The partition after its live buffer was frozen into a snapshot;
    /// unchanged when the live buffer holds nothing.
    pub open spec fn mark_persisting(self) -> PartitionView {
        if self.buffer.rows.len() == 0 {
            self
        } else {
            PartitionView {
                persisting: self.persisting.push(
                    PersistingEntryView { ident: (self.started + 1) as u64, data: self.buffer },
                ),
                buffer: BufferedDataView { rows: Seq::empty(), sequence_numbers: Set::empty() },
                started: (self.started + 1) as u64,
                ..self
            }
        }
    }

    /// The partition after the snapshot under `ident` was acknowledged.
    pub open spec fn mark_persisted(self, ident: u64) -> PartitionView {
        let rest = self.persisting.remove(index_of(self.persisting, ident));
        PartitionView {
            persisting: rest,
            completed: (self.completed + 1) as u64,
            is_empty: rest.len() == 0 && self.buffer.rows.len() == 0,
            ..self
        }
    }

    /// The sequence numbers of the snapshot under `ident`.
    pub open spec fn persisted_sequence_numbers(self, ident: u64) -> Set<u64> {
        self.persisting[index_of(self.persisting, ident)].data.sequence_numbers
    }
}

/// One operation on a partition buffer.
pub enum PartitionOp {
    /// A write of these rows under this sequence number.
    Write(Seq<RowView>, u64),
    /// A snapshot of the live buffer.
    MarkPersisting,
    /// The acknowledgement of the snapshot under this identifier.
    MarkPersisted(u64),
}

impl PartitionOp {
    /// Whether the operation may be applied to `v`: a write brings at least
    /// one row and each row has a timestamp, a snapshot fits the counter of
    /// snapshots, and an acknowledgement names a snapshot that is being
    /// persisted.
    pub open spec fn allowed(self, v: PartitionView) -> bool {
        match self {
            PartitionOp::Write(rows, _) => rows.len() > 0 && all_timed(rows),
            PartitionOp::MarkPersisting => v.started < u64::MAX,
            PartitionOp::MarkPersisted(ident) => has_ident(v.persisting, ident),
        }
    }

    /// The partition after the operation.
    pub open spec fn apply(self, v: PartitionView) -> PartitionView {
        match self {
            PartitionOp::Write(rows, sequence) => v.write(rows, sequence),
            PartitionOp::MarkPersisting => v.mark_persisting(),
            PartitionOp::MarkPersisted(ident) => v.mark_persisted(ident),
        }
    }
}

/// Whether each of `ops` may be applied in turn, starting from `v`.
pub open spec fn all_allowed(v: PartitionView, ops: Seq<PartitionOp>) -> bool
    decreases ops.len(),
{
    if ops.len() == 0 {
        true
    } else {
        all_allowed(v, ops.drop_last()) && ops.last().allowed(run(v, ops.drop_last()))
    }
}

/// The partition after `ops` were applied in turn, starting from `v`.
pub open spec fn run(v: PartitionView, ops: Seq<PartitionOp>) -> PartitionView
    decreases ops.len(),
{
    if ops.len() == 0 {
        v
    } else {
        ops.last().apply(run(v, ops.drop_last()))
    }
}

/// One allowed operation keeps the invariant, and with it the agreement of
/// the emptiness flag with the contents.
pub proof fn law_every_operation_keeps_the_invariant(v: PartitionView, op: PartitionOp)
    requires
        v.inv(),
        op.allowed(v),
    ensures
        op.apply(v).inv(),
{
    if let PartitionOp::MarkPersisted(ident) = op {
        // The snapshots before and behind this position keep their order.
        let k = index_of(v.persisting, ident);
    }
}

/// After any sequence of writes, snapshots and acknowledgements, the
/// emptiness flag says exactly whether nothing is persisting and the live
/// buffer holds no row.
pub proof fn law_is_empty_matches_contents(ops: Seq<PartitionOp>)
    requires
        all_allowed(PartitionView::initial(), ops),
    ensures
        run(PartitionView::initial(), ops).inv(),
        run(PartitionView::initial(), ops).is_empty == run(
            PartitionView::initial(),
            ops,
        ).holds_nothing(),
    decreases ops.len(),
{
    if ops.len() > 0 {
        law_is_empty_matches_contents(ops.drop_last());
        law_every_operation_keeps_the_invariant(
            run(PartitionView::initial(), ops.drop_last()),
            ops.last(),
        );
    }
}

/// The counter of the namespace after the operation `op` on the partition
/// `v`, given the counter before it: one more when the partition ceases to
/// be empty, one less when it becomes empty, and the same otherwise.
pub open spec fn counter_after(v: PartitionView, op: PartitionOp, counter: nat) -> nat {
    (counter + op.apply(v).permits_held() - v.permits_held()) as nat
}

/// The counter of the namespace after `ops` were applied in turn to the
/// partition `v`, given the counter before them.
pub open spec fn run_counter(v: PartitionView, ops: Seq<PartitionOp>, counter: nat) -> nat
    decreases ops.len(),
{
    if ops.len() == 0 {
        counter
    } else {
        counter_after(
            run(v, ops.drop_last()),
            ops.last(),
            run_counter(v, ops.drop_last(), counter),
        )
    }
}

/// After any sequence of writes, snapshots and acknowledgements on a
/// partition that started empty, the counter of the namespace is what it
/// was at the start, and one more while the partition is not empty. So a
/// partition with buffered or persisting rows always finds the counter
/// above zero, and each change between empty and not empty moves the
/// counter by exactly one.
pub proof fn law_counter_follows_emptiness(ops: Seq<PartitionOp>, counter: nat)
    requires
        all_allowed(PartitionView::initial(), ops),
    ensures
        run_counter(PartitionView::initial(), ops, counter) == counter + run(
            PartitionView::initial(),
            ops,
        ).permits_held(),
        !run(PartitionView::initial(), ops).holds_nothing() ==> run_counter(
            PartitionView::initial(),
            ops,
            counter,
        ) > 0,
    decreases ops.len(),
{
    law_is_empty_matches_contents(ops);
    if ops.len() > 0 {
        law_counter_follows_emptiness(ops.drop_last(), counter);
    }
}

/// A write into an empty live buffer followed by a snapshot leaves a
/// snapshot that holds exactly the rows and the sequence number of that
/// write, and its acknowledgement reports exactly that sequence number.
pub proof fn law_snapshot_holds_the_write(v: PartitionView, rows: Seq<RowView>, sequence: u64)
    requires
        v.inv(),
        v.buffer.rows.len() == 0,
        v.buffer.sequence_numbers == Set::<u64>::empty(),
        rows.len() > 0,
        v.started < u64::MAX,
    ensures
        ({
            let after = v.write(rows, sequence).mark_persisting();
            let ident = (v.started + 1) as u64;
            &&& has_ident(after.persisting, ident)
            &&& after.persisting[index_of(after.persisting, ident)].data.rows == rows
            &&& after.persisted_sequence_numbers(ident) == set![sequence]
            &&& after.mark_persisted(ident).persisting == v.persisting
        }),
{
    let after = v.write(rows, sequence).mark_persisting();
    let last = after.persisting.len() - 1;
    lemma_index_of(after.persisting, last);
}

/// The rows of `batches`, batch after batch: the rows in the order in
/// which a reader meets them.
pub open spec fn all_rows(batches: Seq<Seq<RowView>>) -> Seq<RowView>
    decreases batches.len(),
{
    if batches.len() == 0 {
        Seq::empty()
    } else {
        all_rows(batches.drop_last()) + batches.last()
    }
}

/// The rows of a concatenation of batches are the rows of the first part,
/// then those of the second.
pub proof fn lemma_all_rows_concat(a: Seq<Seq<RowView>>, b: Seq<Seq<RowView>>)
    ensures
        all_rows(a + b) == all_rows(a) + all_rows(b),
    decreases b.len(),
{
    if b.len() > 0 {
        assert((a + b).drop_last() =~= a + b.drop_last());
        lemma_all_rows_concat(a, b.drop_last());
    }
}

/// The order of writes is kept. A write puts its rows behind everything a
/// reader saw before. A snapshot changes nothing of what a reader sees.
/// An acknowledgement takes the rows of its snapshot away and leaves the
/// rows before and behind them as they were, in their order.
pub proof fn law_write_order_is_kept(v: PartitionView, rows: Seq<RowView>, sequence: u64, ident: u64)
    requires
        v.inv(),
    ensures
        all_rows(v.write(rows, sequence).batches()) == all_rows(v.batches()) + rows,
        all_rows(v.mark_persisting().batches()) == all_rows(v.batches()),
        has_ident(v.persisting, ident) ==> ({
            let k = index_of(v.persisting, ident);
            let before = v.batches().subrange(0, k);
            let behind = v.batches().subrange(k + 1, v.batches().len() as int);
            &&& v.batches() == before.push(v.persisting[k].data.rows) + behind
            &&& all_rows(v.batches()) == all_rows(before) + v.persisting[k].data.rows + all_rows(
                behind,
            )
            &&& all_rows(v.mark_persisted(ident).batches()) == all_rows(before) + all_rows(behind)
        }),
{
    let persisting = entry_rows(v.persisting);
    // A write.
    if rows.len() > 0 || v.buffer.rows.len() > 0 {
        let after = v.write(rows, sequence);
        assert(after.batches().drop_last() =~= persisting);
        if v.buffer.rows.len() > 0 {
            assert(v.batches().drop_last() =~= persisting);
        }
    }
    // A snapshot.
    if v.buffer.rows.len() > 0 {
        assert(entry_rows(v.mark_persisting().persisting) =~= persisting.push(v.buffer.rows));
    }
    // An acknowledgement.
    if has_ident(v.persisting, ident) {
        let k = index_of(v.persisting, ident);
        let all = v.batches();
        let before = all.subrange(0, k);
        let behind = all.subrange(k + 1, all.len() as int);
        let removed = v.persisting[k].data.rows;
        assert(all =~= before.push(removed) + behind);
        lemma_all_rows_concat(before.push(removed), behind);
        assert(before.push(removed).drop_last() =~= before);
        let after = v.mark_persisted(ident);
        assert(after.batches() =~= before + behind);
        lemma_all_rows_concat(before, behind);
    }
}

/// The write buffer of one partition.
#[derive(Debug)]
pub struct PartitionData {
    partition_id: i64,
    partition_key: String,
    sort_key: SortKeyState,
    namespace_id: i64,
    table_id: i64,
    is_empty: bool,
    buffer: DataBuffer,
    persisting: PersistingList,
    started_persistence_count: BatchIdent,
    completed_persistence_count: u64,
}

impl View for PartitionData {
    type V = PartitionView;

    closed spec fn view(&self) -> PartitionView {
        PartitionView {
            persisting: self.persisting@,
            buffer: self.buffer@,
            started: self.started_persistence_count.0,
            completed: self.completed_persistence_count,
            is_empty: self.is_empty,
        }
    }
}

impl PartitionData {
    /// Whether the buffer is in a state that its operations leave it in.
    pub closed spec fn wf(&self) -> bool {
        &&& self.buffer.wf()
        &&& self@.inv()
        &&& self@.rows() <= usize::MAX
    }

    /// The sort key state the partition caches.
    pub closed spec fn spec_sort_key(&self) -> SortKeyStateView {
        self.sort_key@
    }

    /// The catalog id of the partition.
    pub closed spec fn spec_partition_id(&self) -> i64 {
        self.partition_id
    }

    /// The partition key.
    pub closed spec fn spec_partition_key(&self) -> Seq<char> {
        self.partition_key@
    }

    /// The catalog id of the namespace.
    pub closed spec fn spec_namespace_id(&self) -> i64 {
        self.namespace_id
    }

    /// The catalog id of the table.
    pub closed spec fn spec_table_id(&self) -> i64 {
        self.table_id
    }

    /// An empty buffer for the partition.
    pub fn new(
        partition_id: i64,
        partition_key: String,
        namespace_id: i64,
        table_id: i64,
        sort_key: SortKeyState,
    ) -> (p: Self)
        ensures
            p.wf(),
            p@.inv(),
            p@ == PartitionView::initial(),
            p.spec_sort_key() == sort_key@,
            p.spec_partition_id() == partition_id,
            p.spec_partition_key() == partition_key@,
            p.spec_namespace_id() == namespace_id,
            p.spec_table_id() == table_id,
    {
        let p = PartitionData {
            partition_id,
            partition_key,
            sort_key,
            namespace_id,
            table_id,
            is_empty: true,
            buffer: DataBuffer::new(),
            persisting: PersistingList::new(),
            started_persistence_count: BatchIdent(0),
            completed_persistence_count: 0,
        };
        p
    }

    /// Buffers the rows of `mb`, written under `sequence_number`. Sequence
    /// numbers need not arrive in order.
    ///
    /// A write into an empty partition takes a permit from `counter` first.
    /// When none is left the write is refused and nothing changes.
    pub fn buffer_write(
        &mut self,
        counter: &mut PartitionCounter,
        mb: MutableBatch,
        sequence_number: SequenceNumber,
    ) -> (res: Result<(), BufferWriteError>)
        requires
            old(self).wf(),
            mb@.len() > 0,
            all_timed(mb@),
            old(self)@.rows() + mb@.len() <= usize::MAX,
        ensures
            final(self).wf(),
            final(self)@.inv(),
            final(counter).limit() == old(counter).limit(),
            final(self).spec_sort_key() == old(self).spec_sort_key(),
            final(self).spec_partition_id() == old(self).spec_partition_id(),
            final(self).spec_partition_key() == old(self).spec_partition_key(),
            final(self).spec_namespace_id() == old(self).spec_namespace_id(),
            final(self).spec_table_id() == old(self).spec_table_id(),
            res is Err <==> old(self)@.is_empty && old(counter).value() >= old(counter).limit(),
            res is Err ==> res == Err::<(), BufferWriteError>(
                BufferWriteError::Limit(old(counter).limit() as usize),
            ) && final(self)@ == old(self)@ && final(counter).value() == old(counter).value(),
            res is Ok ==> final(self)@ == old(self)@.write(mb@, sequence_number.0),
            res is Ok ==> final(counter).value() == counter_after(
                old(self)@,
                PartitionOp::Write(mb@, sequence_number.0),
                old(counter).value(),
            ),
            res is Ok ==> final(counter).value() == old(counter).value() + if old(self)@.is_empty {
                1nat
            } else {
                0nat
            },
            final(counter).value() - final(self)@.permits_held() == old(counter).value() - old(
                self,
            )@.permits_held(),
    {
        if self.is_empty {
            match counter.inc() {
                Ok(()) => {},
                Err(limit) => {
                    return Err(BufferWriteError::Limit(limit));
                },
            }
            self.is_empty = false;
        }
        proof {
            let before = old(self)@;
            let after = before.write(mb@, sequence_number.0);
            if before.buffer.rows.len() > 0 {
                lemma_total_rows_push(entry_rows(before.persisting), before.buffer.rows);
            }
            lemma_total_rows_push(entry_rows(before.persisting), after.buffer.rows);
        }
        self.buffer.buffer_write(mb, sequence_number);
        Ok(())
    }

    /// The number of rows held, buffered and persisting. It is the row
    /// count of what [`Self::get_query_data`] returns, under any projection.
    pub fn rows(&self) -> (n: usize)
        requires
            self.wf(),
        ensures
            n == self@.rows(),
            self@.inv(),
            n == 0 <==> self@.is_empty,
    {
        proof {
            if self@.buffer.rows.len() > 0 {
                lemma_total_rows_push(entry_rows(self@.persisting), self@.buffer.rows);
            }
        }
        self.persisting.rows() + self.buffer.rows()
    }

    /// Whether the partition holds no row, neither buffered nor persisting.
    pub fn is_empty(&self) -> (b: bool)
        requires
            self.wf(),
        ensures
            b == self@.is_empty,
            b == self@.holds_nothing(),
            b <==> self@.rows() == 0,
            self@.inv(),
    {
        self.is_empty
    }

    /// The range of the timestamps held, buffered and persisting.
    pub fn timestamp_stats(&self) -> (r: Option<TimestampMinMax>)
        requires
            self.wf(),
        ensures
            r == self@.timestamp_stats(),
    {
        proof {
            if self@.buffer.rows.len() > 0 {
                lemma_batches_range_push(entry_rows(self@.persisting), self@.buffer.rows);
            }
        }
        merge_timestamp_ranges(self.persisting.timestamp_stats(), self.buffer.timestamp_stats())
    }

    /// The columns of the rows the partition holds, buffered and
    /// persisting; `None` when it is empty. A column goes when the last
    /// snapshot with a row that has it is acknowledged.
    pub fn schema(&self) -> (out: Option<NameSet>)
        requires
            self.wf(),
        ensures
            out is None <==> self@.is_empty,
            out matches Some(columns) ==> columns@ == batches_columns(self@.batches()),
    {
        if self.is_empty {
            return None;
        }
        let mut columns = NameSet::new();
        self.persisting.add_columns(&mut columns);
        self.buffer.add_columns(&mut columns);
        proof {
            if self@.buffer.rows.len() > 0 {
                lemma_batches_columns_push(entry_rows(self@.persisting), self@.buffer.rows);
            }
        }
        Some(columns)
    }

    /// Everything the partition holds, as read through `projection`: the
    /// snapshots oldest first, then the live buffer, so that the rows come
    /// in the order in which they were written. `None` if and only if the
    /// partition is empty.
    ///
    /// The projection changes no row count. The range of the timestamps of
    /// the result is that of the partition when the projection keeps the
    /// time column, and absent when it does not.
    pub fn get_query_data(&self, projection: &OwnedProjection) -> (out: Option<QueryAdaptor>)
        requires
            self.wf(),
        ensures
            out is None <==> self@.is_empty,
            out matches Some(q) ==> {
                &&& q@ == project_batches(self@.batches(), projection@)
                &&& q.spec_partition_id() == self.spec_partition_id()
                &&& total_rows(q@) == self@.rows()
                &&& batches_range(q@) == if projection_keeps(projection@, time_column()) {
                    self@.timestamp_stats()
                } else {
                    None
                }
                &&& (batches_range(q@) == self@.timestamp_stats() <==> projection_keeps(
                    projection@,
                    time_column(),
                ))
            },
    {
        let mut data = self.persisting.get_query_data(projection);
        let buffered = self.buffer.get_query_data(projection);
        match buffered {
            Some(batch) => {
                let ghost before = data@;
                data.push(batch);
                proof {
                    assert(batches_view(data@) =~= batches_view(before).push(batch@));
                    assert(project_batches(self@.batches(), projection@) =~= project_batches(
                        entry_rows(self@.persisting),
                        projection@,
                    ).push(batch@));
                }
            },
            None => {},
        }
        if data.len() == 0 {
            return None;
        }
        proof {
            let all = self@.batches();
            lemma_projected_total_rows(all, projection@);
            lemma_projected_batches_range(all, projection@);
        }
        Some(QueryAdaptor::new(self.partition_id, data))
    }

    /// Freezes the live buffer into a snapshot at the tail of the
    /// persisting list and returns the handle of the snapshot, with its
    /// rows. `None`, and no change, when the live buffer holds nothing.
    ///
    /// The handle carries a fresh identifier, one above the last.
    pub fn mark_persisting(&mut self, counter: &PartitionCounter) -> (out: Option<PersistingData>)
        requires
            old(self).wf(),
            old(self)@.started < u64::MAX,
            old(self)@.buffer.rows.len() > 0 ==> counter.value() > 0,
        ensures
            final(self).wf(),
            final(self)@.inv(),
            final(self)@ == old(self)@.mark_persisting(),
            final(self).spec_sort_key() == old(self).spec_sort_key(),
            final(self).spec_partition_id() == old(self).spec_partition_id(),
            final(self).spec_partition_key() == old(self).spec_partition_key(),
            final(self).spec_namespace_id() == old(self).spec_namespace_id(),
            final(self).spec_table_id() == old(self).spec_table_id(),
            out is None <==> old(self)@.buffer.rows.len() == 0,
            out matches Some(handle) ==> {
                &&& handle.ident() == old(self)@.started + 1
                &&& handle.batches() == seq![old(self)@.buffer.rows]
                &&& handle.spec_partition_id() == old(self).spec_partition_id()
                &&& has_ident(final(self)@.persisting, handle.ident())
            },
    {
        let mut taken = DataBuffer::new();
        core::mem::swap(&mut self.buffer, &mut taken);
        let all = OwnedProjection::all();
        let snapshot = taken.get_query_data(&all);
        let frozen = match taken.into_persisting() {
            None => {
                return None;
            },
            Some(frozen) => frozen,
        };
        let batch_ident = BatchIdent(self.started_persistence_count.0 + 1);
        self.started_persistence_count = batch_ident;
        let batch = snapshot.unwrap();
        proof {
            let before = old(self)@;
            lemma_project_all(before.buffer.rows);
            assert(entry_rows(before.mark_persisting().persisting) =~= entry_rows(
                before.persisting,
            ).push(before.buffer.rows));
            lemma_total_rows_push(Seq::<Seq<RowView>>::empty(), before.buffer.rows);
        }
        let mut data: Vec<RecordBatch> = Vec::new();
        data.push(batch);
        assert(batches_view(data@) =~= seq![old(self)@.buffer.rows]);
        let handle = PersistingData::new(QueryAdaptor::new(self.partition_id, data), batch_ident);
        self.persisting.push(batch_ident, frozen);
        Some(handle)
    }

    /// Whether the snapshot under `ident` is being persisted.
    pub fn is_persisting(&self, ident: BatchIdent) -> (b: bool)
        ensures
            b == has_ident(self@.persisting, ident.0),
    {
        self.persisting.contains(ident)
    }

    /// Acknowledges that the snapshot of `batch` was persisted: drops it
    /// and returns the sequence numbers of the writes it held. Snapshots
    /// may be acknowledged in any order; those that remain keep theirs.
    ///
    /// When that leaves the partition empty, its permit goes back to
    /// `counter`.
    pub fn mark_persisted(&mut self, counter: &mut PartitionCounter, batch: PersistingData) -> (out:
        SequenceNumberSet)
        requires
            old(self).wf(),
            has_ident(old(self)@.persisting, batch.ident()),
            old(counter).value() > 0,
        ensures
            final(self).wf(),
            final(self)@.inv(),
            final(self)@ == old(self)@.mark_persisted(batch.ident()),
            final(self).spec_sort_key() == old(self).spec_sort_key(),
            final(self).spec_partition_id() == old(self).spec_partition_id(),
            final(self).spec_partition_key() == old(self).spec_partition_key(),
            final(self).spec_namespace_id() == old(self).spec_namespace_id(),
            final(self).spec_table_id() == old(self).spec_table_id(),
            out@ == old(self)@.persisted_sequence_numbers(batch.ident()),
            final(counter).value() == counter_after(
                old(self)@,
                PartitionOp::MarkPersisted(batch.ident()),
                old(counter).value(),
            ),
            final(counter).limit() == old(counter).limit(),
            final(counter).value() == old(counter).value() - if final(self)@.is_empty {
                1nat
            } else {
                0nat
            },
            final(counter).value() - final(self)@.permits_held() == old(counter).value() - old(
                self,
            )@.permits_held(),
    {
        let ghost before = self@;
        let ghost k = index_of(before.persisting, batch.ident());
        proof {
            lemma_rows_without(before, k);
        }
        let frozen = self.persisting.remove(batch.batch_ident());
        self.completed_persistence_count = self.completed_persistence_count + 1;
        if self.persisting.is_empty() && self.buffer.rows() == 0 {
            counter.dec();
            self.is_empty = true;
        }
        frozen.sequence_numbers
    }

    /// The catalog id of the partition.
    pub fn partition_id(&self) -> (id: i64)
        ensures
            id == self.spec_partition_id(),
    {
        self.partition_id
    }

    /// How many snapshots were acknowledged as persisted.
    pub fn completed_persistence_count(&self) -> (n: u64)
        ensures
            n == self@.completed,
    {
        self.completed_persistence_count
    }

    /// How many snapshots were ever taken.
    pub fn started_persistence_count(&self) -> (n: u64)
        ensures
            n == self@.started,
    {
        self.started_persistence_count.0
    }

    /// The catalog id of the table.
    pub fn table_id(&self) -> (id: i64)
        ensures
            id == self.spec_table_id(),
    {
        self.table_id
    }

    /// The partition key.
    pub fn partition_key(&self) -> (key: &String)
        ensures
            key@ == self.spec_partition_key(),
    {
        &self.partition_key
    }

    /// The catalog id of the namespace.
    pub fn namespace_id(&self) -> (id: i64)
        ensures
            id == self.spec_namespace_id(),
    {
        self.namespace_id
    }

    /// The sort key state the partition caches.
    pub fn sort_key(&self) -> (state: &SortKeyState)
        ensures
            state@ == self.spec_sort_key(),
    {
        &self.sort_key
    }

    /// Replaces the cached sort key with the one given, by name and by id.
    pub fn update_sort_key(&mut self, new_sort_key: Option<SortKey>, new_sort_key_ids: SortedColumnSet)
        requires
            new_sort_key is Some,
            new_sort_key->0@.len() == new_sort_key_ids@.len(),
        ensures
            final(self).spec_sort_key() == SortKeyStateView::Provided(
                key_view(new_sort_key),
                Some(new_sort_key_ids@),
            ),
            final(self)@ == old(self)@,
            final(self).wf() == old(self).wf(),
            final(self).spec_partition_id() == old(self).spec_partition_id(),
            final(self).spec_partition_key() == old(self).spec_partition_key(),
            final(self).spec_namespace_id() == old(self).spec_namespace_id(),
            final(self).spec_table_id() == old(self).spec_table_id(),
    {
        self.sort_key = SortKeyState::Provided(new_sort_key, Some(new_sort_key_ids));
    }
}

/// Dropping one snapshot drops its rows from the count, and no more.
pub proof fn lemma_rows_without(v: PartitionView, k: int)
    requires
        0 <= k < v.persisting.len(),
    ensures
        ({
            let rest = PartitionView { persisting: v.persisting.remove(k), ..v };
            rest.rows() + v.persisting[k].data.rows.len() == v.rows()
        }),
{
    let rest = PartitionView { persisting: v.persisting.remove(k), ..v };
    lemma_total_rows_remove(entry_rows(v.persisting), k);
    assert(entry_rows(v.persisting.remove(k)) =~= entry_rows(v.persisting).remove(k));
    if v.buffer.rows.len() > 0 {
        lemma_total_rows_push(entry_rows(v.persisting), v.buffer.rows);
        lemma_total_rows_push(entry_rows(rest.persisting), v.buffer.rows);
    }
}

/// Removing one batch takes its rows off the total.
pub proof fn lemma_total_rows_remove(batches: Seq<Seq<RowView>>, k: int)
    requires
        0 <= k < batches.len(),
    ensures
        total_rows(batches.remove(k)) + batches[k].len() == total_rows(batches),
    decreases batches.len(),
{
    if k < batches.len() - 1 {
        lemma_total_rows_remove(batches.drop_last(), k);
        assert(batches.remove(k).drop_last() =~= batches.drop_last().remove(k));
    }
}

} // verus!
