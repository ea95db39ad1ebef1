//! The decisions of the replay of a write-ahead log: what to do with each
//! operation read from a closed segment, when to wait for the ingest state,
//! and what to do with a segment once its reader has ended.
//!
//! Reading segments, applying writes, persisting partitions and deleting
//! segments is the caller's part: it performs each step and hands the
//! outcome to the next decision.

use std::collections::HashMap;
use vstd::prelude::*;
use vstd::string::StringExecFns;
use crate::error::{ErrorContext, ErrorKind, SimpleError};
use crate::ingester::batch::RowView;
use crate::ingester::buffer::MutableBatch;
use crate::ingester::sequence::{max_of_sequences, max_sequence, SequenceNumber};
use crate::metrics::{counter_add, U64Counter};

verus! {

/// How long to wait before looking at the ingest state again while it
/// blocks the replay, in milliseconds.
pub const OP_REPLAY_BACKPRESSURE_WAIT_MILLIS: u64 = 500;

/// The identifier of a segment file of the log.
#[derive(Debug, Clone, Copy, PartialEq, Eq, Structural)]
pub struct SegmentId(pub u64);

impl SegmentId {
    pub fn new(v: u64) -> (s: Self)
        ensures
            s.0 == v,
    {
        SegmentId(v)
    }

    pub fn get(&self) -> (v: u64)
        ensures
            v == self.0,
    {
        self.0
    }
}

/// What kind of I/O failure stopped a read.
#[derive(Debug, Clone, Copy, PartialEq, Eq, Structural)]
pub enum IoErrorKind {
    /// The file ended in the middle of an entry.
    UnexpectedEof,
    /// Anything else.
    Other,
}

/// A failure of the log itself.
#[derive(Debug, Clone, PartialEq, Eq)]
pub enum WalError {
    /// The next batch of operations could not be read, because reading the
    /// data failed with an I/O error of the given kind.
    UnableToReadData(IoErrorKind, String),
    /// Any other failure.
    Other(String),
}

impl WalError {
    /// Whether the failure is a read that hit the end of the file early.
    pub open spec fn spec_is_unexpected_eof(&self) -> bool {
        self matches WalError::UnableToReadData(kind, _) && kind == IoErrorKind::UnexpectedEof
    }

    /// What went wrong, in words.
    pub fn reason(&self) -> (s: &String)
        ensures
            s@ == wal_error_message(*self),
    {
        match self {
            WalError::UnableToReadData(_, reason) => reason,
            WalError::Other(reason) => reason,
        }
    }

    /// Whether the failure is a read that hit the end of the file early.
    pub fn is_unexpected_eof(&self) -> (b: bool)
        ensures
            b == self.spec_is_unexpected_eof(),
    {
        match self {
            WalError::UnableToReadData(kind, _) => match kind {
                IoErrorKind::UnexpectedEof => true,
                IoErrorKind::Other => false,
            },
            WalError::Other(_) => false,
        }
    }
}

/// Why a replay failed.
#[derive(Debug, Clone, PartialEq, Eq)]
pub enum WalReplayError {
    /// A segment could not be opened.
    OpenSegment(WalError),
    /// An entry could not be read; with the highest sequence number seen in
    /// the segment before the failure.
    ReadEntry(WalError, Option<SequenceNumber>),
    /// An entry could not be decoded into a write.
    MapToDml(String),
    /// The sink refused a write.
    Apply(String),
}

/// The message of a failure of the log.
pub open spec fn wal_error_message(e: WalError) -> Seq<char> {
    match e {
        WalError::UnableToReadData(_, reason) => reason@,
        WalError::Other(reason) => reason@,
    }
}

/// The message that reports why a replay failed.
pub open spec fn replay_error_message(e: WalReplayError) -> Seq<char> {
    match e {
        WalReplayError::OpenSegment(inner) => "failed to open wal segment for replay: "@
            + wal_error_message(inner),
        WalReplayError::ReadEntry(inner, _) => "failed to read wal entry: "@ + wal_error_message(
            inner,
        ),
        WalReplayError::MapToDml(reason) => "failed converting wal entry to ingest operation: "@
            + reason@,
        WalReplayError::Apply(reason) => "failed to apply op: "@ + reason@,
    }
}

/// The kind under which a failed replay is reported: a log that cannot be
/// opened, read or decoded is corrupt; of a write that the sink refused
/// nothing more is known.
pub open spec fn replay_error_kind(e: WalReplayError) -> ErrorKind {
    match e {
        WalReplayError::Apply(_) => ErrorKind::Unknown,
        _ => ErrorKind::Corruption,
    }
}

impl WalReplayError {
    /// The error as it is reported at the boundary: its kind, its message,
    /// and the last good sequence number where one is attached.
    pub fn to_error(&self) -> (e: SimpleError)
        ensures
            e.spec_kind() == replay_error_kind(*self),
            e.spec_message() == replay_error_message(*self),
            e.spec_context() == (ErrorContext {
                partition_id: None,
                file_id: None,
                sequence_number: match self {
                    WalReplayError::ReadEntry(_, Some(n)) => Some(n.0),
                    _ => None,
                },
            }),
    {
        match self {
            WalReplayError::OpenSegment(inner) => {
                let mut s = String::from_str("failed to open wal segment for replay: ");
                s.append(inner.reason().as_str());
                SimpleError::new(ErrorKind::Corruption, s)
            },
            WalReplayError::ReadEntry(inner, seen) => {
                let mut s = String::from_str("failed to read wal entry: ");
                s.append(inner.reason().as_str());
                let sequence_number = match seen {
                    None => None,
                    Some(n) => Some(n.0),
                };
                SimpleError::new(ErrorKind::Corruption, s).with_context(
                    ErrorContext { partition_id: None, file_id: None, sequence_number },
                )
            },
            WalReplayError::MapToDml(reason) => {
                let mut s = String::from_str("failed converting wal entry to ingest operation: ");
                s.append(reason.as_str());
                SimpleError::new(ErrorKind::Corruption, s)
            },
            WalReplayError::Apply(reason) => {
                let mut s = String::from_str("failed to apply op: ");
                s.append(reason.as_str());
                SimpleError::new(ErrorKind::Unknown, s)
            },
        }
    }
}

/// The rows a write brings to one table.
#[derive(Debug, Clone, PartialEq, Eq)]
pub struct TableBatch {
    pub table_id: i64,
    pub batch: MutableBatch,
}

/// A write as it was decoded from the log: the namespace, the partition
/// key, and the rows per table.
#[derive(Debug, Clone, PartialEq, Eq)]
pub struct DecodedWrite {
    pub database_id: i64,
    pub partition_key: String,
    pub table_batches: Vec<TableBatch>,
}

/// One entry of a segment: a write, or the reason why it could not be
/// decoded, with the sequence numbers of its tables, by table id.
#[derive(Debug, PartialEq, Eq)]
pub struct SequencedWalOp {
    pub table_write_sequence_numbers: HashMap<i64, u64>,
    pub op: Result<DecodedWrite, String>,
}

/// The rows of one table within a write operation, under their sequence
/// number.
#[derive(Debug, Clone, PartialEq, Eq)]
pub struct TableData {
    pub table_id: i64,
    pub sequence_number: SequenceNumber,
    pub batch: MutableBatch,
}

/// A [`TableData`] as a mathematical value.
pub struct TableDataView {
    pub table_id: i64,
    pub sequence_number: u64,
    pub rows: Seq<RowView>,
}

impl View for TableData {
    type V = TableDataView;

    open spec fn view(&self) -> TableDataView {
        TableDataView {
            table_id: self.table_id,
            sequence_number: self.sequence_number.0,
            rows: self.batch@,
        }
    }
}

/// A write ready for the sink.
#[derive(Debug, Clone, PartialEq, Eq)]
pub struct WriteOperation {
    pub namespace_id: i64,
    pub partition_key: String,
    pub tables: Vec<TableData>,
}

/// A [`WriteOperation`] as a mathematical value.
pub struct WriteOperationView {
    pub namespace_id: i64,
    pub partition_key: Seq<char>,
    pub tables: Seq<TableDataView>,
}

impl View for WriteOperation {
    type V = WriteOperationView;

    open spec fn view(&self) -> WriteOperationView {
        WriteOperationView {
            namespace_id: self.namespace_id,
            partition_key: self.partition_key@,
            tables: self.tables@.map_values(|t: TableData| t@),
        }
    }
}

/// The sequence number that `numbers` gives to `table_id`, if any.
pub open spec fn sequence_of(numbers: Map<i64, u64>, table_id: i64) -> Option<u64> {
    if numbers.contains_key(table_id) {
        Some(numbers[table_id])
    } else {
        None
    }
}

/// Whether `numbers` gives a sequence number to every table of `tables`.
pub open spec fn sequenced(numbers: Map<i64, u64>, tables: Seq<TableBatch>) -> bool {
    forall|i: int| 0 <= i < tables.len() ==> sequence_of(numbers, (#[trigger] tables[i]).table_id) is Some
}

/// What `table` becomes under the sequence numbers `numbers`.
pub open spec fn sequenced_table(numbers: Map<i64, u64>, table: TableBatch) -> TableDataView {
    TableDataView {
        table_id: table.table_id,
        sequence_number: sequence_of(numbers, table.table_id).unwrap(),
        rows: table.batch@,
    }
}

/// The sequence numbers of the tables of `tables`, in order.
pub open spec fn table_sequences(numbers: Map<i64, u64>, tables: Seq<TableBatch>) -> Seq<u64> {
    tables.map_values(|t: TableBatch| sequence_of(numbers, t.table_id).unwrap())
}

/// The greatest of `numbers`; `None` when there is none.
pub open spec fn max_over(numbers: Seq<u64>) -> Option<u64>
    decreases numbers.len(),
{
    if numbers.len() == 0 {
        None
    } else {
        max_sequence(max_over(numbers.drop_last()), Some(numbers.last()))
    }
}

/// `max_over` is the maximum: absent exactly when there is no number, and
/// otherwise one of the numbers that no other exceeds.
pub proof fn lemma_max_over(numbers: Seq<u64>)
    ensures
        max_over(numbers) is None <==> numbers.len() == 0,
        max_over(numbers) matches Some(m) ==> numbers.contains(m) && forall|i: int|
            0 <= i < numbers.len() ==> numbers[i] <= m,
    decreases numbers.len(),
{
    if numbers.len() > 0 {
        let init = numbers.drop_last();
        lemma_max_over(init);
        let m = max_over(numbers).unwrap();
        assert forall|i: int| 0 <= i < numbers.len() implies numbers[i] <= m by {
            if i < init.len() {
                assert(init[i] == numbers[i]);
            }
        }
    }
}

/// The maximum over a concatenation is the greater of the maxima of the
/// parts.
pub proof fn lemma_max_over_concat(a: Seq<u64>, b: Seq<u64>)
    ensures
        max_over(a + b) == max_sequence(max_over(a), max_over(b)),
    decreases b.len(),
{
    if b.len() > 0 {
        assert((a + b).drop_last() =~= a + b.drop_last());
        lemma_max_over_concat(a, b.drop_last());
    }
}

/// The sequence number that `numbers` gives to `table_id`.
pub fn find_sequence(numbers: &HashMap<i64, u64>, table_id: i64) -> (out: Option<u64>)
    ensures
        out == sequence_of(numbers@, table_id),
{
    broadcast use vstd::std_specs::hash::group_hash_axioms;

    match numbers.get(&table_id) {
        None => None,
        Some(n) => Some(*n),
    }
}

/// Whether the entry gives a sequence number to every table of its write.
/// An entry that could not be decoded has no table.
pub fn is_sequenced(op: &SequencedWalOp) -> (b: bool)
    ensures
        b == (op.op matches Ok(w) ==> sequenced(
            op.table_write_sequence_numbers@,
            w.table_batches@,
        )),
{
    match &op.op {
        Err(_) => true,
        Ok(w) => {
            let mut i: usize = 0;
            while i < w.table_batches.len()
                invariant
                    i <= w.table_batches@.len(),
                    op.op == Ok::<DecodedWrite, String>(*w),
                    forall|j: int|
                        0 <= j < i ==> sequence_of(
                            op.table_write_sequence_numbers@,
                            (#[trigger] w.table_batches@[j]).table_id,
                        ) is Some,
                decreases w.table_batches@.len() - i,
            {
                if find_sequence(&op.table_write_sequence_numbers, w.table_batches[i].table_id).is_none() {
                    return false;
                }
                i = i + 1;
            }
            true
        },
    }
}

/// What to do with one entry of a segment.
#[derive(Debug)]
pub enum OpPlan {
    /// The entry could not be decoded: the replay fails with this error.
    Fail(WalReplayError),
    /// The write holds no table: it is counted and skipped.
    SkipEmpty,
    /// The write is to be handed to the sink, once the ingest state allows.
    Apply(WriteOperation),
}

/// The state of the replay of one segment: the highest sequence number seen
/// so far.
#[derive(Debug)]
pub struct FileReplay {
    segment_id: SegmentId,
    max_sequence: Option<u64>,
}

/// An optional number as an optional sequence number.
pub open spec fn as_sequence(n: Option<u64>) -> Option<SequenceNumber> {
    match n {
        None => None,
        Some(n) => Some(SequenceNumber(n)),
    }
}

/// An optional sequence number as an optional number.
pub open spec fn as_number(n: Option<SequenceNumber>) -> Option<u64> {
    match n {
        None => None,
        Some(n) => Some(n.0),
    }
}

impl FileReplay {
    /// The segment being replayed.
    pub closed spec fn segment(&self) -> u64 {
        self.segment_id.0
    }

    /// The highest sequence number seen so far.
    pub closed spec fn seen(&self) -> Option<u64> {
        self.max_sequence
    }

    /// The replay of the segment `segment_id`, before its first entry.
    pub fn new(segment_id: SegmentId) -> (f: Self)
        ensures
            f.segment() == segment_id.0,
            f.seen() == None::<u64>,
    {
        FileReplay { segment_id, max_sequence: None }
    }

    /// The segment being replayed.
    pub fn id(&self) -> (id: SegmentId)
        ensures
            id.0 == self.segment(),
    {
        self.segment_id
    }

    /// The error with which the replay of the segment fails when a batch
    /// cannot be read: it carries the highest sequence number seen before.
    pub fn read_failed(&self, error: WalError) -> (e: WalReplayError)
        ensures
            e == WalReplayError::ReadEntry(error, as_sequence(self.seen())),
    {
        let seen = match self.max_sequence {
            None => None,
            Some(n) => Some(SequenceNumber(n)),
        };
        WalReplayError::ReadEntry(error, seen)
    }

    /// Decides what to do with the entry `op`.
    ///
    /// An entry that could not be decoded fails the replay. A write without
    /// a table is counted as skipped in `empty_op_count`. Any other write
    /// becomes a write operation in which each table carries the sequence
    /// number the entry gives it, and raises the highest sequence number
    /// seen to the greatest of them.
    pub fn plan_op(&mut self, empty_op_count: &mut U64Counter, op: SequencedWalOp) -> (plan: OpPlan)
        requires
            op.op matches Ok(w) ==> sequenced(op.table_write_sequence_numbers@, w.table_batches@),
        ensures
            final(self).segment() == old(self).segment(),
            is_plan(
                op,
                old(self).seen(),
                old(empty_op_count).value,
                plan,
                final(self).seen(),
                final(empty_op_count).value,
            ),
    {
        let numbers = op.table_write_sequence_numbers;
        let write = match op.op {
            Err(reason) => {
                return OpPlan::Fail(WalReplayError::MapToDml(reason));
            },
            Ok(w) => w,
        };
        if write.table_batches.len() == 0 {
            empty_op_count.inc(1);
            return OpPlan::SkipEmpty;
        }
        let ghost batches = write.table_batches@;
        let ghost all = table_sequences(numbers@, batches);
        let ghost expected = batches.map_values(|t: TableBatch| sequenced_table(numbers@, t));
        let namespace_id = write.database_id;
        let partition_key = write.partition_key;
        let mut remaining = write.table_batches;
        let mut tables: Vec<TableData> = Vec::new();
        let mut op_max: Option<u64> = None;
        // The tables are taken from the back, then put in their order.
        while remaining.len() > 0
            invariant
                remaining@.len() <= batches.len(),
                remaining@ == batches.subrange(0, remaining@.len() as int),
                sequenced(numbers@, batches),
                all == table_sequences(numbers@, batches),
                expected == batches.map_values(|t: TableBatch| sequenced_table(numbers@, t)),
                tables@.len() == batches.len() - remaining@.len(),
                forall|j: int|
                    0 <= j < tables@.len() ==> (#[trigger] tables@[j])@ == expected[batches.len() - 1
                        - j],
                forall|j: int| remaining@.len() <= j < batches.len() ==> op_max is Some && (
                #[trigger] all[j]) <= op_max.unwrap(),
                op_max matches Some(m) ==> all.contains(m),
            decreases remaining@.len(),
        {
            let ghost k = remaining@.len() - 1;
            let t = remaining.pop().unwrap();
            let sequence = find_sequence(&numbers, t.table_id).unwrap();
            assert(all[k] == sequence);
            op_max = max_of_sequences(op_max, Some(sequence));
            tables.push(
                TableData {
                    table_id: t.table_id,
                    sequence_number: SequenceNumber(sequence),
                    batch: t.batch,
                },
            );
        }
        let mut ordered: Vec<TableData> = Vec::new();
        while tables.len() > 0
            invariant
                tables@.len() + ordered@.len() == batches.len(),
                expected.len() == batches.len(),
                forall|j: int|
                    0 <= j < tables@.len() ==> (#[trigger] tables@[j])@ == expected[batches.len() - 1
                        - j],
                forall|j: int| 0 <= j < ordered@.len() ==> (#[trigger] ordered@[j])@ == expected[j],
            decreases tables@.len(),
        {
            let t = tables.pop().unwrap();
            ordered.push(t);
        }
        proof {
            lemma_max_over(all);
        }
        self.max_sequence = max_of_sequences(self.max_sequence, op_max);
        let out = WriteOperation { namespace_id, partition_key, tables: ordered };
        assert(out@.tables =~= expected);
        OpPlan::Apply(out)
    }

    /// Ends the replay of the segment: the highest sequence number seen in
    /// it, or `None` when it held no write with a table.
    pub fn finish(self) -> (out: Option<SequenceNumber>)
        ensures
            out == as_sequence(self.seen()),
    {
        match self.max_sequence {
            None => None,
            Some(n) => Some(SequenceNumber(n)),
        }
    }
}

/// Whether `plan` is what is to be done with the entry `op`, and
/// `seen_after` and `empty_after` are the highest sequence number seen and
/// the count of skipped writes after it, given what they were before.
///
/// An entry that could not be decoded fails the replay. A write without a
/// table is skipped and counted. Any other write becomes a write operation
/// in which each table carries the sequence number the entry gives it, and
/// raises the highest sequence number seen to the greatest of them.
pub open spec fn is_plan(
    op: SequencedWalOp,
    seen_before: Option<u64>,
    empty_before: u64,
    plan: OpPlan,
    seen_after: Option<u64>,
    empty_after: u64,
) -> bool {
    match op.op {
        Err(reason) => {
            &&& plan matches OpPlan::Fail(e) && e == WalReplayError::MapToDml(reason)
            &&& seen_after == seen_before
            &&& empty_after == empty_before
        },
        Ok(w) => if w.table_batches@.len() == 0 {
            &&& plan is SkipEmpty
            &&& seen_after == seen_before
            &&& empty_after == counter_add(empty_before, 1)
        } else {
            &&& plan matches OpPlan::Apply(write)
            &&& write@ == (WriteOperationView {
                namespace_id: w.database_id,
                partition_key: w.partition_key@,
                tables: w.table_batches@.map_values(
                    |t: TableBatch| sequenced_table(op.table_write_sequence_numbers@, t),
                ),
            })
            &&& seen_after == max_sequence(
                seen_before,
                max_over(table_sequences(op.table_write_sequence_numbers@, w.table_batches@)),
            )
            &&& empty_after == empty_before
        },
    }
}

/// Takes note of what the sink answered to a write: a success is counted
/// in `ok_op_count`, a refusal fails the replay.
pub fn op_applied(ok_op_count: &mut U64Counter, result: Result<(), String>) -> (res: Result<
    (),
    WalReplayError,
>)
    ensures
        match result {
            Ok(_) => res is Ok && final(ok_op_count).value == counter_add(
                old(ok_op_count).value,
                1,
            ),
            Err(reason) => res == Err::<(), WalReplayError>(WalReplayError::Apply(reason))
                && final(ok_op_count).value == old(ok_op_count).value,
        },
{
    match result {
        Ok(_) => {
            ok_op_count.inc(1);
            Ok(())
        },
        Err(reason) => Err(WalReplayError::Apply(reason)),
    }
}

/// A condition of the ingester that makes it refuse work.
#[derive(Debug, Clone, Copy, PartialEq, Eq, Structural)]
pub enum IngestStateError {
    /// The persist queue is full.
    PersistSaturated,
    /// The ingester is shutting down.
    GracefulStop,
    /// The disk that holds the log is full.
    DiskFull,
}

/// The conditions that are set at one moment.
#[derive(Debug, Clone, Copy, PartialEq, Eq, Structural)]
pub struct IngestState {
    pub persist_saturated: bool,
    pub graceful_stop: bool,
    pub disk_full: bool,
}

impl IngestState {
    /// Whether `error` is set.
    pub open spec fn has(self, error: IngestStateError) -> bool {
        match error {
            IngestStateError::PersistSaturated => self.persist_saturated,
            IngestStateError::GracefulStop => self.graceful_stop,
            IngestStateError::DiskFull => self.disk_full,
        }
    }

    /// Whether the state holds the replay back: some condition other than a
    /// full disk is set.
    pub open spec fn blocks_replay(self) -> bool {
        self.persist_saturated || self.graceful_stop
    }

    /// The healthy state: no condition is set.
    pub fn new() -> (s: Self)
        ensures
            forall|e: IngestStateError| !s.has(e),
    {
        IngestState { persist_saturated: false, graceful_stop: false, disk_full: false }
    }

    /// Sets `error`. Returns whether that changed the state.
    pub fn set(&mut self, error: IngestStateError) -> (changed: bool)
        ensures
            changed == !old(self).has(error),
            forall|e: IngestStateError| final(self).has(e) == (e == error || old(self).has(e)),
    {
        let was = self.is_set(error);
        match error {
            IngestStateError::PersistSaturated => {
                self.persist_saturated = true;
            },
            IngestStateError::GracefulStop => {
                self.graceful_stop = true;
            },
            IngestStateError::DiskFull => {
                self.disk_full = true;
            },
        }
        !was
    }

    /// Clears `error`. Returns whether that changed the state.
    pub fn unset(&mut self, error: IngestStateError) -> (changed: bool)
        ensures
            changed == old(self).has(error),
            forall|e: IngestStateError| final(self).has(e) == (e != error && old(self).has(e)),
    {
        let was = self.is_set(error);
        match error {
            IngestStateError::PersistSaturated => {
                self.persist_saturated = false;
            },
            IngestStateError::GracefulStop => {
                self.graceful_stop = false;
            },
            IngestStateError::DiskFull => {
                self.disk_full = false;
            },
        }
        was
    }

    /// Whether `error` is set.
    pub fn is_set(&self, error: IngestStateError) -> (b: bool)
        ensures
            b == self.has(error),
    {
        match error {
            IngestStateError::PersistSaturated => self.persist_saturated,
            IngestStateError::GracefulStop => self.graceful_stop,
            IngestStateError::DiskFull => self.disk_full,
        }
    }
}

/// Whether a write may be handed to the sink now.
#[derive(Debug, Clone, Copy, PartialEq, Eq, Structural)]
pub enum GateDecision {
    /// Apply the write.
    Proceed,
    /// Wait this many milliseconds, then look at the ingest state again.
    Wait(u64),
}

/// Decides whether the replay may apply its next write under `state`. A
/// full disk does not hold the replay back; every other condition does.
pub fn replay_gate(state: IngestState) -> (d: GateDecision)
    ensures
        d == if state.blocks_replay() {
            GateDecision::Wait(OP_REPLAY_BACKPRESSURE_WAIT_MILLIS)
        } else {
            GateDecision::Proceed
        },
{
    if state.persist_saturated || state.graceful_stop {
        GateDecision::Wait(OP_REPLAY_BACKPRESSURE_WAIT_MILLIS)
    } else {
        GateDecision::Proceed
    }
}

/// A closed segment of the log, as the log lists it.
#[derive(Debug, Clone, Copy, PartialEq, Eq, Structural)]
pub struct ClosedSegment {
    pub id: SegmentId,
    pub size: u64,
}

/// The name of the metric that counts the segments whose replay was
/// started.
pub fn metric_name_files_started() -> (s: &'static str)
    ensures
        s@ == "ingester_wal_replay_files_started"@,
{
    "ingester_wal_replay_files_started"
}

/// The name of the metric that counts the segments whose replay ended, by
/// `result` and, for an `error`, by `reason`.
pub fn metric_name_files_finished() -> (s: &'static str)
    ensures
        s@ == "ingester_wal_replay_files_finished"@,
{
    "ingester_wal_replay_files_finished"
}

/// The name of the metric that counts the operations read, by `outcome`.
pub fn metric_name_ops() -> (s: &'static str)
    ensures
        s@ == "ingester_wal_replay_ops"@,
{
    "ingester_wal_replay_ops"
}

/// The counters of a replay.
#[derive(Debug, Clone, Copy, PartialEq, Eq, Structural)]
pub struct ReplayMetrics {
    /// Segments whose replay was started.
    pub files_started: U64Counter,
    /// Segments whose reader ended without an error: `result` is `success`.
    pub files_finished_success: U64Counter,
    /// Last segments that ended in a truncated write: `result` is `error`
    /// and `reason` is `truncated`.
    pub files_finished_truncated: U64Counter,
    /// Writes the sink accepted: `outcome` is `success`.
    pub ops_success: U64Counter,
    /// Writes without a table, which were skipped: `outcome` is
    /// `skipped_empty`.
    pub ops_skipped_empty: U64Counter,
}

/// What to do with a segment whose reader has ended.
#[derive(Debug, PartialEq, Eq)]
pub enum FileDecision {
    /// The segment held nothing: delete it and go on.
    DeleteEmpty(SegmentId),
    /// Persist every partition, then delete the segment and go on.
    ///
    /// Either way a deletion that fails does not fail the replay: see
    /// [`Replay::segment_deleted`].
    PersistAndDelete(SegmentId),
    /// The replay fails with this error. The segment stays.
    Fail(WalReplayError),
}

/// How the replay of one segment ended, as far as the decision on the
/// segment depends on it.
pub enum FileOutcome {
    /// The reader ended; with the highest sequence number seen, if any.
    Replayed(Option<u64>),
    /// A read hit the end of the file early; with the highest sequence
    /// number seen before.
    UnexpectedEof(Option<u64>),
    /// Any other failure.
    Failed,
}

/// The outcome that `result` stands for.
pub open spec fn outcome_of(result: Result<Option<SequenceNumber>, WalReplayError>) -> FileOutcome {
    match result {
        Ok(n) => FileOutcome::Replayed(as_number(n)),
        Err(WalReplayError::ReadEntry(e, n)) => if e.spec_is_unexpected_eof() {
            FileOutcome::UnexpectedEof(as_number(n))
        } else {
            FileOutcome::Failed
        },
        Err(_) => FileOutcome::Failed,
    }
}

/// What a segment does to the replay once its reader has ended.
#[derive(Debug, Clone, Copy, PartialEq, Eq, Structural)]
pub enum FileEffect {
    /// The segment held nothing, and is deleted.
    Empty,
    /// The segment is persisted and deleted, and the highest sequence
    /// number of the replay is raised to that of the segment.
    Persist(Option<u64>),
    /// As `Persist`, after a truncated write at the tail of the last
    /// segment.
    Truncated(Option<u64>),
    /// The replay fails.
    Fail,
}

/// The effect of the outcome of a segment; `last` says whether the segment
/// is the most recent one of the log. Only there is an early end of the
/// file taken for a write that was cut short.
pub open spec fn effect_of(outcome: FileOutcome, last: bool) -> FileEffect {
    match outcome {
        FileOutcome::Replayed(None) => FileEffect::Empty,
        FileOutcome::Replayed(Some(n)) => FileEffect::Persist(Some(n)),
        FileOutcome::UnexpectedEof(n) => if last {
            FileEffect::Truncated(n)
        } else {
            FileEffect::Fail
        },
        FileOutcome::Failed => FileEffect::Fail,
    }
}

/// A replay as a mathematical value.
pub struct ReplayView {
    /// The closed segments, oldest first.
    pub files: Seq<ClosedSegment>,
    /// How many of them were started.
    pub started: nat,
    /// The highest sequence number seen in the segments that are done.
    pub max_sequence: Option<u64>,
    pub metrics: ReplayMetrics,
}

impl ReplayView {
    /// The replay after its next segment was started.
    pub open spec fn next_file(self) -> ReplayView {
        ReplayView {
            started: self.started + 1,
            metrics: ReplayMetrics {
                files_started: U64Counter {
                    value: counter_add(self.metrics.files_started.value, 1),
                },
                ..self.metrics
            },
            ..self
        }
    }

    /// The replay after the segment that was started last ended with
    /// `outcome`.
    pub open spec fn file_done(self, outcome: FileOutcome) -> ReplayView {
        let effect = effect_of(outcome, self.started == self.files.len());
        ReplayView {
            max_sequence: match effect {
                FileEffect::Persist(n) => max_sequence(self.max_sequence, n),
                FileEffect::Truncated(n) => max_sequence(self.max_sequence, n),
                _ => self.max_sequence,
            },
            metrics: ReplayMetrics {
                files_finished_success: U64Counter {
                    value: if outcome is Replayed {
                        counter_add(self.metrics.files_finished_success.value, 1)
                    } else {
                        self.metrics.files_finished_success.value
                    },
                },
                files_finished_truncated: U64Counter {
                    value: if effect is Truncated {
                        counter_add(self.metrics.files_finished_truncated.value, 1)
                    } else {
                        self.metrics.files_finished_truncated.value
                    },
                },
                ..self.metrics
            },
            ..self
        }
    }
}

/// The replay of a log: its closed segments in age order, how far it has
/// come, and the highest sequence number seen.
#[derive(Debug)]
pub struct Replay {
    files: Vec<ClosedSegment>,
    started: usize,
    max_sequence: Option<u64>,
    metrics: ReplayMetrics,
}

impl View for Replay {
    type V = ReplayView;

    closed spec fn view(&self) -> ReplayView {
        ReplayView {
            files: self.files@,
            started: self.started as nat,
            max_sequence: self.max_sequence,
            metrics: self.metrics,
        }
    }
}

impl Replay {
    /// Whether the replay has not started more segments than there are.
    pub closed spec fn wf(&self) -> bool {
        self.started <= self.files@.len()
    }

    /// Begins the replay of the closed segments `files`, which the log
    /// lists oldest first. `None` when there is no segment: then there is
    /// nothing to replay, and no sequence number to report.
    pub fn start(files: Vec<ClosedSegment>, metrics: ReplayMetrics) -> (r: Option<Self>)
        ensures
            r is None <==> files@.len() == 0,
            r matches Some(replay) ==> replay.wf() && replay@ == (ReplayView {
                files: files@,
                started: 0,
                max_sequence: None,
                metrics,
            }),
    {
        if files.len() == 0 {
            None
        } else {
            Some(Replay { files, started: 0, max_sequence: None, metrics })
        }
    }

    /// The next segment to replay, oldest first, counted as started; `None`
    /// when every segment was started.
    pub fn next_file(&mut self) -> (out: Option<ClosedSegment>)
        requires
            old(self).wf(),
        ensures
            final(self).wf(),
            old(self)@.started == old(self)@.files.len() ==> out is None && final(self)@ == old(
                self,
            )@,
            old(self)@.started < old(self)@.files.len() ==> out == Some(
                old(self)@.files[old(self)@.started as int],
            ) && final(self)@ == old(self)@.next_file(),
    {
        if self.started < self.files.len() {
            let file = self.files[self.started];
            self.started = self.started + 1;
            self.metrics.files_started.inc(1);
            Some(file)
        } else {
            None
        }
    }

    /// The error with which the replay fails when a segment cannot be
    /// opened.
    pub fn open_failed(&self, error: WalError) -> (e: WalReplayError)
        ensures
            e == WalReplayError::OpenSegment(error),
    {
        WalReplayError::OpenSegment(error)
    }

    /// Decides what to do with the segment that was started last, now that
    /// its replay has ended with `result`.
    ///
    /// A segment that was read to its end counts as a success; without a
    /// sequence number it is empty and is deleted, with one it is persisted
    /// and deleted, and raises the highest sequence number of the replay.
    /// A read that hit the end of the file early is a truncated write if
    /// the segment is the last one: it is counted, the sequence number seen
    /// before it is kept, and the segment is persisted and deleted. Every
    /// other error fails the replay.
    pub fn file_done(&mut self, result: Result<Option<SequenceNumber>, WalReplayError>) -> (d:
        FileDecision)
        requires
            old(self).wf(),
            old(self)@.started > 0,
        ensures
            final(self).wf(),
            final(self)@ == old(self)@.file_done(outcome_of(result)),
            ({
                let id = old(self)@.files[old(self)@.started - 1].id;
                match effect_of(
                    outcome_of(result),
                    old(self)@.started == old(self)@.files.len(),
                ) {
                    FileEffect::Empty => d == FileDecision::DeleteEmpty(id),
                    FileEffect::Persist(_) => d == FileDecision::PersistAndDelete(id),
                    FileEffect::Truncated(_) => d == FileDecision::PersistAndDelete(id),
                    FileEffect::Fail => d matches FileDecision::Fail(e) && result == Err::<
                        Option<SequenceNumber>,
                        WalReplayError,
                    >(e),
                }
            }),
    {
        let id = self.files[self.started - 1].id;
        let last = self.started == self.files.len();
        match result {
            Ok(seen) => {
                self.metrics.files_finished_success.inc(1);
                match seen {
                    None => FileDecision::DeleteEmpty(id),
                    Some(n) => {
                        self.max_sequence = max_of_sequences(self.max_sequence, Some(n.0));
                        FileDecision::PersistAndDelete(id)
                    },
                }
            },
            Err(WalReplayError::ReadEntry(error, seen)) => {
                if error.is_unexpected_eof() && last {
                    let seen = match seen {
                        None => None,
                        Some(n) => Some(n.0),
                    };
                    self.max_sequence = max_of_sequences(self.max_sequence, seen);
                    self.metrics.files_finished_truncated.inc(1);
                    FileDecision::PersistAndDelete(id)
                } else {
                    FileDecision::Fail(WalReplayError::ReadEntry(error, seen))
                }
            },
            Err(e) => FileDecision::Fail(e),
        }
    }

    /// The counters of the replay, as they stand.
    pub fn metrics(&self) -> (m: ReplayMetrics)
        ensures
            m == self@.metrics,
    {
        self.metrics
    }

    /// Decides what to do with the entry `op` of the segment `file`, as
    /// [`FileReplay::plan_op`] does, and counts a skipped write among the
    /// operations of the replay. Nothing else of the replay changes.
    pub fn plan_op(&mut self, file: &mut FileReplay, op: SequencedWalOp) -> (plan: OpPlan)
        requires
            op.op matches Ok(w) ==> sequenced(op.table_write_sequence_numbers@, w.table_batches@),
        ensures
            final(self).wf() == old(self).wf(),
            final(file).segment() == old(file).segment(),
            is_plan(
                op,
                old(file).seen(),
                old(self)@.metrics.ops_skipped_empty.value,
                plan,
                final(file).seen(),
                final(self)@.metrics.ops_skipped_empty.value,
            ),
            final(self)@ == (ReplayView {
                metrics: ReplayMetrics {
                    ops_skipped_empty: final(self)@.metrics.ops_skipped_empty,
                    ..old(self)@.metrics
                },
                ..old(self)@
            }),
    {
        file.plan_op(&mut self.metrics.ops_skipped_empty, op)
    }

    /// Takes note of what the sink answered to a write: a success is counted
    /// among the operations of the replay, a refusal fails the replay.
    /// Nothing else of the replay changes.
    pub fn op_applied(&mut self, result: Result<(), String>) -> (res: Result<(), WalReplayError>)
        ensures
            final(self).wf() == old(self).wf(),
            match result {
                Ok(_) => res is Ok && final(self)@ == (ReplayView {
                    metrics: ReplayMetrics {
                        ops_success: U64Counter {
                            value: counter_add(old(self)@.metrics.ops_success.value, 1),
                        },
                        ..old(self)@.metrics
                    },
                    ..old(self)@
                }),
                Err(reason) => res == Err::<(), WalReplayError>(WalReplayError::Apply(reason))
                    && final(self)@ == old(self)@,
            },
    {
        op_applied(&mut self.metrics.ops_success, result)
    }

    /// Takes note of the outcome of the deletion of a segment that
    /// [`Self::file_done`] asked for. A deletion that failed does not fail
    /// the replay: its error is handed back to be logged, the segment stays
    /// in the log, and the replay goes on with the next segment as it would
    /// have after a deletion that succeeded.
    pub fn segment_deleted(&self, result: Result<(), WalError>) -> (logged: Option<WalError>)
        ensures
            logged == match result {
                Ok(_) => None,
                Err(e) => Some(e),
            },
    {
        match result {
            Ok(_) => None,
            Err(e) => Some(e),
        }
    }

    /// Ends the replay: the highest sequence number seen, and the counters.
    pub fn finish(self) -> (out: (Option<SequenceNumber>, ReplayMetrics))
        ensures
            out.0 == as_sequence(self@.max_sequence),
            out.1 == self@.metrics,
    {
        let seen = match self.max_sequence {
            None => None,
            Some(n) => Some(SequenceNumber(n)),
        };
        (seen, self.metrics)
    }
}

impl ReplayMetrics {
    /// All counters at zero.
    pub fn new() -> (m: Self)
        ensures
            m.files_started.value == 0,
            m.files_finished_success.value == 0,
            m.files_finished_truncated.value == 0,
            m.ops_success.value == 0,
            m.ops_skipped_empty.value == 0,
    {
        ReplayMetrics {
            files_started: U64Counter::new(),
            files_finished_success: U64Counter::new(),
            files_finished_truncated: U64Counter::new(),
            ops_success: U64Counter::new(),
            ops_skipped_empty: U64Counter::new(),
        }
    }
}

/// The highest sequence number seen in a segment after its writes were
/// planned in turn, each write given by the sequence numbers of its tables.
pub open spec fn file_max(ops: Seq<Seq<u64>>) -> Option<u64>
    decreases ops.len(),
{
    if ops.len() == 0 {
        None
    } else {
        max_sequence(file_max(ops.drop_last()), max_over(ops.last()))
    }
}

/// The highest sequence number seen in a segment is the maximum of the
/// sequence numbers of all tables of all of its writes.
pub proof fn law_file_max_is_maximum(ops: Seq<Seq<u64>>)
    ensures
        file_max(ops) == max_over(ops.flatten()),
    decreases ops.len(),
{
    if ops.len() > 0 {
        law_file_max_is_maximum(ops.drop_last());
        ops.drop_last().lemma_flatten_push(ops.last());
        assert(ops.drop_last().push(ops.last()) =~= ops);
        lemma_max_over_concat(ops.drop_last().flatten(), ops.last());
    }
}

/// The replay after one segment after the other was started and ended with
/// the outcome given for it.
pub open spec fn replay_files(v: ReplayView, outcomes: Seq<FileOutcome>) -> ReplayView
    decreases outcomes.len(),
{
    if outcomes.len() == 0 {
        v
    } else {
        replay_files(v, outcomes.drop_last()).next_file().file_done(outcomes.last())
    }
}

/// The sequence number with which a segment counts towards the result of
/// the replay: what was seen in it when it was read to its end, or before
/// the truncated write at the tail of the last segment.
pub open spec fn counted(outcome: FileOutcome, last: bool) -> Option<u64> {
    match effect_of(outcome, last) {
        FileEffect::Persist(n) => n,
        FileEffect::Truncated(n) => n,
        _ => None,
    }
}

/// The sequence numbers with which the first `outcomes.len()` of `n_files`
/// segments count, in order.
pub open spec fn counted_numbers(outcomes: Seq<FileOutcome>, n_files: nat) -> Seq<u64>
    decreases outcomes.len(),
{
    if outcomes.len() == 0 {
        Seq::empty()
    } else {
        let init = counted_numbers(outcomes.drop_last(), n_files);
        match counted(outcomes.last(), outcomes.len() == n_files) {
            None => init,
            Some(n) => init.push(n),
        }
    }
}

/// Whether none of the first `outcomes.len()` of `n_files` segments fails
/// the replay.
pub open spec fn none_fails(outcomes: Seq<FileOutcome>, n_files: nat) -> bool {
    forall|i: int|
        0 <= i < outcomes.len() ==> effect_of(#[trigger] outcomes[i], i + 1 == n_files)
            != FileEffect::Fail
}

/// After a replay of segments in age order, the highest sequence number
/// reported is the maximum of those seen in the segments that were read to
/// their end and of the one seen before a truncated write at the tail of
/// the last segment.
pub proof fn law_replay_max_is_maximum(
    files: Seq<ClosedSegment>,
    metrics: ReplayMetrics,
    outcomes: Seq<FileOutcome>,
)
    requires
        outcomes.len() <= files.len(),
    ensures
        ({
            let start = ReplayView { files, started: 0, max_sequence: None, metrics };
            let end = replay_files(start, outcomes);
            &&& end.started == outcomes.len()
            &&& end.files == files
            &&& end.max_sequence == max_over(counted_numbers(outcomes, files.len()))
        }),
    decreases outcomes.len(),
{
    if outcomes.len() > 0 {
        law_replay_max_is_maximum(files, metrics, outcomes.drop_last());
        let init = counted_numbers(outcomes.drop_last(), files.len());
        match counted(outcomes.last(), outcomes.len() == files.len()) {
            None => {},
            Some(n) => {
                assert(init.push(n).drop_last() =~= init);
            },
        }
    }
}

/// The segments that the log still lists after the outcomes were decided
/// on, when every deletion asked for was carried out: those from the first
/// that failed the replay on.
pub open spec fn segments_left(files: Seq<ClosedSegment>, outcomes: Seq<FileOutcome>) -> Seq<
    ClosedSegment,
>
    decreases outcomes.len(),
{
    if outcomes.len() == 0 || outcomes.len() > files.len() {
        files
    } else {
        let before = segments_left(files, outcomes.drop_last());
        if before.len() + outcomes.len() - 1 == files.len() && effect_of(
            outcomes.last(),
            outcomes.len() == files.len(),
        ) != FileEffect::Fail {
            before.subrange(1, before.len() as int)
        } else {
            before
        }
    }
}

/// A replay in which no segment fails leaves no segment behind, so that a
/// second replay finds nothing to replay and applies no operation.
pub proof fn law_replay_leaves_nothing(files: Seq<ClosedSegment>, outcomes: Seq<FileOutcome>)
    requires
        outcomes.len() <= files.len(),
        none_fails(outcomes, files.len()),
    ensures
        segments_left(files, outcomes) == files.subrange(
            outcomes.len() as int,
            files.len() as int,
        ),
        outcomes.len() == files.len() ==> segments_left(files, outcomes).len() == 0,
    decreases outcomes.len(),
{
    if outcomes.len() > 0 {
        let init = outcomes.drop_last();
        law_replay_leaves_nothing(files, init);
    }
}

} // verus!
