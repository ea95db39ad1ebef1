use std::collections::{HashMap, VecDeque};

use data_lifecycle::ingester::batch::{Field, FieldValue, Row};
use data_lifecycle::ingester::buffer::MutableBatch;
use data_lifecycle::ingester::sequence::SequenceNumber;
use data_lifecycle::ingester::wal_replay::{
    is_sequenced, metric_name_files_finished, metric_name_files_started, metric_name_ops,
    op_applied, replay_gate, ClosedSegment, DecodedWrite, FileDecision, FileReplay,
    GateDecision, IngestState, IngestStateError, IoErrorKind, OpPlan, Replay, ReplayMetrics,
    SegmentId, SequencedWalOp, TableBatch, TableData, WalError, WalReplayError,
    WriteOperation, OP_REPLAY_BACKPRESSURE_WAIT_MILLIS,
};
use data_lifecycle::error::{ErrorContext, ErrorKind};
use data_lifecycle::metrics::U64Counter;

const ARBITRARY_NAMESPACE_ID: i64 = 3;
const ARBITRARY_TABLE_ID: i64 = 4;
const ARBITRARY_PARTITION_KEY: &str = "platanos";

/// A reader of one segment that yields the batches it was made with.
struct MockSegmentReader {
    id: SegmentId,
    entry_results: VecDeque<Result<Vec<SequencedWalOp>, WalError>>,
}

impl MockSegmentReader {
    fn new(id: SegmentId) -> Self {
        Self { id, entry_results: VecDeque::new() }
    }

    fn with_entry_results(
        mut self,
        entry_results: Vec<Result<Vec<SequencedWalOp>, WalError>>,
    ) -> Self {
        self.entry_results = entry_results.into_iter().collect();
        self
    }
}

/// A log that hands out the readers it was made with, one per segment,
/// and forgets the segments it is asked to delete.
struct MockWalReader {
    readers: VecDeque<MockSegmentReader>,
    closed_segment_ids: Vec<u64>,
    /// The segments whose deletion fails.
    undeletable: Vec<u64>,
}

impl MockWalReader {
    fn new(readers: Vec<MockSegmentReader>, closed_segment_ids: Vec<u64>) -> Self {
        Self { readers: readers.into_iter().collect(), closed_segment_ids, undeletable: vec![] }
    }

    fn with_undeletable(mut self, ids: Vec<u64>) -> Self {
        self.undeletable = ids;
        self
    }

    fn closed_segments(&self) -> Vec<ClosedSegment> {
        let mut ids = self.closed_segment_ids.clone();
        ids.sort();
        ids.into_iter().map(|id| ClosedSegment { id: SegmentId::new(id), size: 1 }).collect()
    }

    fn reader_for_closed_segment(&mut self, id: SegmentId) -> Result<MockSegmentReader, WalError> {
        assert!(self.closed_segment_ids.contains(&id.get()));
        let reader = self.readers.pop_front().expect("no reader");
        assert_eq!(reader.id, id);
        Ok(reader)
    }

    fn delete(&mut self, id: SegmentId) -> Result<(), WalError> {
        if self.undeletable.contains(&id.get()) {
            return Err(WalError::Other(format!("cannot delete segment {}", id.get())));
        }
        let at = self.closed_segment_ids.iter().position(|v| *v == id.get());
        self.closed_segment_ids.remove(at.expect("segment is not closed"));
        Ok(())
    }
}

/// A sink that records the writes and answers as it was told to.
struct MockDmlSink {
    returns: VecDeque<Result<(), String>>,
    calls: Vec<WriteOperation>,
}

impl MockDmlSink {
    fn with_apply_return(returns: Vec<Result<(), String>>) -> Self {
        Self { returns: returns.into_iter().collect(), calls: vec![] }
    }

    fn apply(&mut self, op: WriteOperation) -> Result<(), String> {
        self.calls.push(op);
        self.returns.pop_front().expect("no mock sink value to return")
    }
}

/// The ingest state as the replay reads it: each read takes the next state
/// of the script, the last one stays.
struct IngestStateScript {
    states: VecDeque<IngestState>,
    reads: usize,
    waited_millis: u64,
}

impl IngestStateScript {
    fn steady(state: IngestState) -> Self {
        Self { states: VecDeque::from(vec![state]), reads: 0, waited_millis: 0 }
    }

    fn read(&mut self) -> IngestState {
        self.reads += 1;
        if self.states.len() > 1 {
            self.states.pop_front().unwrap()
        } else {
            self.states[0]
        }
    }
}

/// Where the operations of a segment are counted.
enum Counting<'a> {
    /// In the counters of a replay of the whole log.
    Replay(&'a mut Replay),
    /// In two counters of their own: applied writes, skipped writes.
    Counters(&'a mut U64Counter, &'a mut U64Counter),
}

/// Replays one segment: the loop around the decisions of the library.
fn replay_file(
    mut reader: MockSegmentReader,
    sink: &mut MockDmlSink,
    mut counting: Counting<'_>,
    ingest_state: &mut IngestStateScript,
) -> Result<Option<SequenceNumber>, WalReplayError> {
    let mut file = FileReplay::new(reader.id);
    while let Some(batch) = reader.entry_results.pop_front() {
        let ops = match batch {
            Ok(ops) => ops,
            Err(e) => return Err(file.read_failed(e)),
        };
        for op in ops {
            assert!(is_sequenced(&op), "attempt to apply unsequenced wal op");
            let plan = match &mut counting {
                Counting::Replay(replay) => replay.plan_op(&mut file, op),
                Counting::Counters(_, empty) => file.plan_op(empty, op),
            };
            let write = match plan {
                OpPlan::Fail(e) => return Err(e),
                OpPlan::SkipEmpty => continue,
                OpPlan::Apply(write) => write,
            };
            loop {
                match replay_gate(ingest_state.read()) {
                    GateDecision::Proceed => break,
                    GateDecision::Wait(millis) => ingest_state.waited_millis += millis,
                }
            }
            let answer = sink.apply(write);
            match &mut counting {
                Counting::Replay(replay) => replay.op_applied(answer)?,
                Counting::Counters(ok, _) => op_applied(ok, answer)?,
            }
        }
    }
    Ok(file.finish())
}

struct ReplayRun {
    result: Result<Option<SequenceNumber>, WalReplayError>,
    metrics: ReplayMetrics,
    persist_calls: usize,
    delete_errors: Vec<WalError>,
}

/// Replays the whole log: the loop around the decisions of the library.
fn replay(
    wal: &mut MockWalReader,
    sink: &mut MockDmlSink,
    ingest_state: &mut IngestStateScript,
) -> ReplayRun {
    let mut persist_calls = 0;
    let mut delete_errors = vec![];
    let mut replay = match Replay::start(wal.closed_segments(), ReplayMetrics::new()) {
        None => {
            return ReplayRun {
                result: Ok(None),
                metrics: ReplayMetrics::new(),
                persist_calls,
                delete_errors,
            }
        }
        Some(replay) => replay,
    };
    while let Some(file) = replay.next_file() {
        let reader = match wal.reader_for_closed_segment(file.id) {
            Ok(reader) => reader,
            Err(e) => {
                return ReplayRun {
                    result: Err(replay.open_failed(e)),
                    metrics: replay.metrics(),
                    persist_calls,
                    delete_errors,
                }
            }
        };
        let result = replay_file(reader, sink, Counting::Replay(&mut replay), ingest_state);
        let id = match replay.file_done(result) {
            FileDecision::DeleteEmpty(id) => id,
            FileDecision::PersistAndDelete(id) => {
                persist_calls += 1;
                id
            }
            FileDecision::Fail(e) => {
                return ReplayRun {
                    result: Err(e),
                    metrics: replay.metrics(),
                    persist_calls,
                    delete_errors,
                }
            }
        };
        assert_eq!(id, file.id);
        // A deletion that fails is noted, and the replay goes on.
        if let Some(error) = replay.segment_deleted(wal.delete(id)) {
            delete_errors.push(error);
        }
    }
    let (max_sequence, metrics) = replay.finish();
    ReplayRun { result: Ok(max_sequence), metrics, persist_calls, delete_errors }
}

fn rows(region: &str, temp: i64) -> MutableBatch {
    MutableBatch {
        rows: vec![Row {
            time: Some(4242424242),
            fields: vec![
                Field { name: "region".to_string(), value: FieldValue::Text(region.to_string()) },
                Field { name: "temp".to_string(), value: FieldValue::Int(temp) },
            ],
        }],
    }
}

fn make_write_op(sequence: u64, region: &str, temp: i64) -> SequencedWalOp {
    SequencedWalOp {
        table_write_sequence_numbers: HashMap::from([(ARBITRARY_TABLE_ID, sequence)]),
        op: Ok(DecodedWrite {
            database_id: ARBITRARY_NAMESPACE_ID,
            partition_key: ARBITRARY_PARTITION_KEY.to_string(),
            table_batches: vec![TableBatch {
                table_id: ARBITRARY_TABLE_ID,
                batch: rows(region, temp),
            }],
        }),
    }
}

fn expected_write(sequence: u64, region: &str, temp: i64) -> WriteOperation {
    WriteOperation {
        namespace_id: ARBITRARY_NAMESPACE_ID,
        partition_key: ARBITRARY_PARTITION_KEY.to_string(),
        tables: vec![TableData {
            table_id: ARBITRARY_TABLE_ID,
            sequence_number: SequenceNumber::new(sequence),
            batch: rows(region, temp),
        }],
    }
}

fn arbitrary_sequenced_wal_op(id: u64) -> SequencedWalOp {
    make_write_op(id, "Belfast", 14)
}

fn unexpected_eof() -> WalError {
    WalError::UnableToReadData(IoErrorKind::UnexpectedEof, "gremlins in the drive".to_string())
}

fn healthy() -> IngestStateScript {
    IngestStateScript::steady(IngestState::new())
}

#[test]
fn test_replay() {
    let op1 = make_write_op(24, "Madrid", 35);
    let op2 = make_write_op(25, "Asturias", 25);

    // Add a write hitting multiple tables for good measure
    let op3 = SequencedWalOp {
        table_write_sequence_numbers: HashMap::from([
            (ARBITRARY_TABLE_ID, 42),
            (ARBITRARY_TABLE_ID + 1, 43),
        ]),
        op: Ok(DecodedWrite {
            database_id: ARBITRARY_NAMESPACE_ID,
            partition_key: ARBITRARY_PARTITION_KEY.to_string(),
            table_batches: vec![
                // Overwrite op2
                TableBatch { table_id: ARBITRARY_TABLE_ID, batch: rows("Asturias", 15) },
                TableBatch { table_id: ARBITRARY_TABLE_ID + 1, batch: rows("Mayo", 12) },
            ],
        }),
    };

    // Emulate a mid-write crash by inserting an op with no data
    let empty_op = SequencedWalOp {
        table_write_sequence_numbers: HashMap::new(),
        op: Ok(DecodedWrite {
            database_id: ARBITRARY_NAMESPACE_ID,
            partition_key: ARBITRARY_PARTITION_KEY.to_string(),
            table_batches: vec![],
        }),
    };

    // Three segments: one with two ops, an empty one, and one with a normal
    // op and a blank op.
    let mut wal = MockWalReader::new(
        vec![
            MockSegmentReader::new(SegmentId::new(1)).with_entry_results(vec![Ok(vec![op1, op2])]),
            MockSegmentReader::new(SegmentId::new(2)),
            MockSegmentReader::new(SegmentId::new(3))
                .with_entry_results(vec![Ok(vec![op3]), Ok(vec![empty_op])]),
        ],
        vec![1, 2, 3],
    );
    assert_eq!(wal.closed_segments().len(), 3);

    let mut sink = MockDmlSink::with_apply_return(vec![Ok(()), Ok(()), Ok(())]);
    let run = replay(&mut wal, &mut sink, &mut healthy());

    let max_sequence_number = run.result.expect("failed to replay WAL");
    assert_eq!(max_sequence_number, Some(SequenceNumber::new(43)));

    // Assert the ops were pushed into the sink exactly as generated,
    // barring the empty op which is skipped
    assert_eq!(sink.calls.len(), 3);
    assert_eq!(sink.calls[0], expected_write(24, "Madrid", 35));
    assert_eq!(sink.calls[1], expected_write(25, "Asturias", 25));
    assert_eq!(
        sink.calls[2],
        WriteOperation {
            namespace_id: ARBITRARY_NAMESPACE_ID,
            partition_key: ARBITRARY_PARTITION_KEY.to_string(),
            tables: vec![
                TableData {
                    table_id: ARBITRARY_TABLE_ID,
                    sequence_number: SequenceNumber::new(42),
                    batch: rows("Asturias", 15),
                },
                TableData {
                    table_id: ARBITRARY_TABLE_ID + 1,
                    sequence_number: SequenceNumber::new(43),
                    batch: rows("Mayo", 12),
                },
            ],
        }
    );

    // Ensure all partitions were persisted, once per segment that held ops
    assert_eq!(run.persist_calls, 2);

    // Ensure the replayed segments were dropped, including the empty one
    assert_eq!(wal.closed_segments().len(), 0);

    // Validate the expected metric values were populated.
    assert_eq!(metric_name_files_started(), "ingester_wal_replay_files_started");
    assert_eq!(metric_name_files_finished(), "ingester_wal_replay_files_finished");
    assert_eq!(metric_name_ops(), "ingester_wal_replay_ops");
    assert_eq!(run.metrics.files_started.fetch(), 3);
    assert_eq!(run.metrics.files_finished_success.fetch(), 3);
    assert_eq!(run.metrics.files_finished_truncated.fetch(), 0);
    assert_eq!(run.metrics.ops_success.fetch(), 3);
    assert_eq!(run.metrics.ops_skipped_empty.fetch(), 1);
}

#[test]
fn test_replay_of_truncated_write_in_last_file() {
    let mut wal = MockWalReader::new(
        vec![
            MockSegmentReader::new(SegmentId::new(1))
                .with_entry_results(vec![Ok(vec![arbitrary_sequenced_wal_op(1)])]),
            MockSegmentReader::new(SegmentId::new(2))
                .with_entry_results(vec![Ok(vec![arbitrary_sequenced_wal_op(2)])]),
            MockSegmentReader::new(SegmentId::new(3)).with_entry_results(vec![
                Ok(vec![arbitrary_sequenced_wal_op(3)]),
                Err(unexpected_eof()),
            ]),
        ],
        vec![1, 2, 3],
    );

    let mut sink = MockDmlSink::with_apply_return(vec![Ok(()), Ok(()), Ok(())]);
    let run = replay(&mut wal, &mut sink, &mut healthy());

    let max_sequence_number = run
        .result
        .expect("failed to replay WAL")
        .expect("should receive max sequence number");
    assert_eq!(max_sequence_number, SequenceNumber::new(3));
    assert!(wal.closed_segment_ids.is_empty());

    assert_eq!(run.metrics.files_finished_success.fetch(), 2);
    assert_eq!(run.metrics.files_finished_truncated.fetch(), 1);
}

#[test]
fn test_replay_error_for_unknown_corruption() {
    let mut wal = MockWalReader::new(
        vec![
            MockSegmentReader::new(SegmentId::new(1))
                .with_entry_results(vec![Ok(vec![arbitrary_sequenced_wal_op(1)])]),
            MockSegmentReader::new(SegmentId::new(2)).with_entry_results(vec![
                Ok(vec![arbitrary_sequenced_wal_op(2)]),
                Err(unexpected_eof()),
            ]),
            MockSegmentReader::new(SegmentId::new(3))
                .with_entry_results(vec![Ok(vec![arbitrary_sequenced_wal_op(4)])]),
        ],
        vec![1, 2, 3],
    );

    let mut sink = MockDmlSink::with_apply_return(vec![Ok(()), Ok(()), Ok(())]);
    let run = replay(&mut wal, &mut sink, &mut healthy());

    match run.result {
        Err(WalReplayError::ReadEntry(_, Some(id))) => {
            assert_eq!(id, SequenceNumber::new(2));
        }
        other => panic!("unexpected replay result {other:?}"),
    }
    assert_eq!(
        wal.closed_segments().into_iter().map(|s| s.id).collect::<Vec<_>>(),
        vec![SegmentId::new(2), SegmentId::new(3)]
    );
}

#[test]
fn test_replay_respects_ingest_state() {
    let reader = MockSegmentReader::new(SegmentId::new(1)).with_entry_results(vec![
        Ok(vec![arbitrary_sequenced_wal_op(1)]),
        Ok(vec![arbitrary_sequenced_wal_op(2)]),
    ]);
    let mut sink = MockDmlSink::with_apply_return(vec![Ok(()), Ok(())]);

    // Create a blocked ingest state
    let mut blocked = IngestState::new();
    assert!(blocked.set(IngestStateError::PersistSaturated));

    // While the state is blocked every write is held back.
    assert_eq!(replay_gate(blocked), GateDecision::Wait(OP_REPLAY_BACKPRESSURE_WAIT_MILLIS));
    assert_eq!(OP_REPLAY_BACKPRESSURE_WAIT_MILLIS, 500);

    // Unblock the ingest state after two reads and assert file replay
    // proceeds to complete with the sink having received the expected
    // number of calls
    let mut recovered = blocked;
    assert!(recovered.unset(IngestStateError::PersistSaturated));
    let mut ingest_state = IngestStateScript {
        states: VecDeque::from(vec![blocked, blocked, recovered]),
        reads: 0,
        waited_millis: 0,
    };

    let mut ok = U64Counter::new();
    let mut empty = U64Counter::new();
    let result =
        replay_file(reader, &mut sink, Counting::Counters(&mut ok, &mut empty), &mut ingest_state);
    match result {
        Ok(Some(id)) => assert_eq!(id, SequenceNumber::new(2)),
        other => panic!("unexpected replay result {other:?}"),
    }
    assert_eq!(sink.calls.len(), 2);
    assert_eq!(ingest_state.waited_millis, 1000);
    assert_eq!(ingest_state.reads, 4);
}

#[test]
fn test_replay_continues_when_disk_full() {
    let reader = MockSegmentReader::new(SegmentId::new(1)).with_entry_results(vec![
        Ok(vec![arbitrary_sequenced_wal_op(1)]),
        Ok(vec![arbitrary_sequenced_wal_op(2)]),
    ]);
    let mut sink = MockDmlSink::with_apply_return(vec![Ok(()), Ok(())]);

    // Construct an IngestState with `DiskFull` and ensure that the file is replayed.
    let mut state = IngestState::new();
    state.set(IngestStateError::DiskFull);
    let mut ingest_state = IngestStateScript::steady(state);

    let mut ok = U64Counter::new();
    let mut empty = U64Counter::new();
    let result =
        replay_file(reader, &mut sink, Counting::Counters(&mut ok, &mut empty), &mut ingest_state);
    match result {
        Ok(Some(id)) => assert_eq!(id, SequenceNumber::new(2)),
        other => panic!("unexpected replay result {other:?}"),
    }
    assert_eq!(sink.calls.len(), 2);
    assert_eq!(ingest_state.waited_millis, 0);
    assert_eq!(ok.fetch(), 2);
}

#[test]
fn replay_of_a_replayed_log_applies_nothing() {
    let mut wal = MockWalReader::new(
        vec![
            MockSegmentReader::new(SegmentId::new(7))
                .with_entry_results(vec![Ok(vec![arbitrary_sequenced_wal_op(1)])]),
            MockSegmentReader::new(SegmentId::new(9))
                .with_entry_results(vec![Ok(vec![arbitrary_sequenced_wal_op(5)])]),
        ],
        vec![9, 7],
    );
    let mut sink = MockDmlSink::with_apply_return(vec![Ok(()), Ok(())]);
    let run = replay(&mut wal, &mut sink, &mut healthy());
    assert_eq!(run.result, Ok(Some(SequenceNumber::new(5))));
    assert_eq!(sink.calls.len(), 2);
    assert!(wal.closed_segments().is_empty());

    // The second replay finds no segment.
    assert!(Replay::start(wal.closed_segments(), ReplayMetrics::new()).is_none());
    let mut sink = MockDmlSink::with_apply_return(vec![]);
    let run = replay(&mut wal, &mut sink, &mut healthy());
    assert_eq!(run.result, Ok(None));
    assert!(sink.calls.is_empty());
    assert_eq!(run.metrics, ReplayMetrics::new());
    assert_eq!(run.persist_calls, 0);
}

#[test]
fn replay_reports_the_maximum_not_the_last_sequence_number() {
    let mut wal = MockWalReader::new(
        vec![
            MockSegmentReader::new(SegmentId::new(1)).with_entry_results(vec![Ok(vec![
                arbitrary_sequenced_wal_op(10),
                arbitrary_sequenced_wal_op(90),
                arbitrary_sequenced_wal_op(20),
            ])]),
            MockSegmentReader::new(SegmentId::new(2))
                .with_entry_results(vec![Ok(vec![arbitrary_sequenced_wal_op(30)])]),
        ],
        vec![1, 2],
    );
    let mut sink = MockDmlSink::with_apply_return(vec![Ok(()), Ok(()), Ok(()), Ok(())]);
    let run = replay(&mut wal, &mut sink, &mut healthy());
    assert_eq!(run.result, Ok(Some(SequenceNumber::new(90))));
}

#[test]
fn replay_fails_on_each_kind_of_error() {
    // A read error that is no early end of file, in the last segment.
    let mut wal = MockWalReader::new(
        vec![MockSegmentReader::new(SegmentId::new(1)).with_entry_results(vec![
            Ok(vec![arbitrary_sequenced_wal_op(8)]),
            Err(WalError::UnableToReadData(IoErrorKind::Other, "broken".to_string())),
        ])],
        vec![1],
    );
    let mut sink = MockDmlSink::with_apply_return(vec![Ok(())]);
    let run = replay(&mut wal, &mut sink, &mut healthy());
    assert_eq!(
        run.result,
        Err(WalReplayError::ReadEntry(
            WalError::UnableToReadData(IoErrorKind::Other, "broken".to_string()),
            Some(SequenceNumber::new(8))
        ))
    );
    assert_eq!(wal.closed_segments().len(), 1);
    assert_eq!(run.metrics.files_finished_success.fetch(), 0);

    // An entry that cannot be decoded.
    let mut wal = MockWalReader::new(
        vec![MockSegmentReader::new(SegmentId::new(1)).with_entry_results(vec![Ok(vec![
            SequencedWalOp {
                table_write_sequence_numbers: HashMap::new(),
                op: Err("bad".to_string()),
            },
        ])])],
        vec![1],
    );
    let mut sink = MockDmlSink::with_apply_return(vec![]);
    let run = replay(&mut wal, &mut sink, &mut healthy());
    assert_eq!(run.result, Err(WalReplayError::MapToDml("bad".to_string())));

    // A write the sink refuses.
    let mut wal = MockWalReader::new(
        vec![MockSegmentReader::new(SegmentId::new(1))
            .with_entry_results(vec![Ok(vec![arbitrary_sequenced_wal_op(8)])])],
        vec![1],
    );
    let mut sink = MockDmlSink::with_apply_return(vec![Err("no".to_string())]);
    let run = replay(&mut wal, &mut sink, &mut healthy());
    assert_eq!(run.result, Err(WalReplayError::Apply("no".to_string())));
    assert_eq!(run.metrics.ops_success.fetch(), 0);

    // How the errors are reported at the boundary.
    let e = WalReplayError::ReadEntry(
        WalError::UnableToReadData(IoErrorKind::Other, "broken".to_string()),
        Some(SequenceNumber::new(8)),
    )
    .to_error();
    assert_eq!(e.classify(), ErrorKind::Corruption);
    assert_eq!(e.message(), "failed to read wal entry: broken");
    assert_eq!(e.context().sequence_number, Some(8));
    let e = WalReplayError::Apply("no".to_string()).to_error();
    assert_eq!(e.classify(), ErrorKind::Unknown);
    assert_eq!(e.message(), "failed to apply op: no");
    assert_eq!(e.context(), ErrorContext { partition_id: None, file_id: None, sequence_number: None });
    let e = WalReplayError::MapToDml("bad".to_string()).to_error();
    assert_eq!(e.classify(), ErrorKind::Corruption);
    assert_eq!(e.message(), "failed converting wal entry to ingest operation: bad");
    let e = WalReplayError::OpenSegment(WalError::Other("gone".to_string())).to_error();
    assert_eq!(e.classify(), ErrorKind::Corruption);
    assert_eq!(e.message(), "failed to open wal segment for replay: gone");

    // A segment that cannot be opened.
    let replay = Replay::start(
        vec![ClosedSegment { id: SegmentId::new(1), size: 1 }],
        ReplayMetrics::new(),
    )
    .unwrap();
    assert_eq!(
        replay.open_failed(WalError::Other("gone".to_string())),
        WalReplayError::OpenSegment(WalError::Other("gone".to_string()))
    );
}

#[test]
fn truncated_tail_without_a_good_op_keeps_the_earlier_maximum() {
    let mut wal = MockWalReader::new(
        vec![
            MockSegmentReader::new(SegmentId::new(1))
                .with_entry_results(vec![Ok(vec![arbitrary_sequenced_wal_op(6)])]),
            MockSegmentReader::new(SegmentId::new(2))
                .with_entry_results(vec![Err(unexpected_eof())]),
        ],
        vec![1, 2],
    );
    let mut sink = MockDmlSink::with_apply_return(vec![Ok(())]);
    let run = replay(&mut wal, &mut sink, &mut healthy());
    assert_eq!(run.result, Ok(Some(SequenceNumber::new(6))));
    assert!(wal.closed_segments().is_empty());
    assert_eq!(run.metrics.files_finished_truncated.fetch(), 1);
    assert_eq!(run.persist_calls, 2);
}

#[test]
fn unsequenced_table_is_detected() {
    let mut op = arbitrary_sequenced_wal_op(1);
    assert!(is_sequenced(&op));
    op.table_write_sequence_numbers =
        HashMap::from([(ARBITRARY_TABLE_ID + 5, 1), (ARBITRARY_TABLE_ID - 1, 2)]);
    assert!(!is_sequenced(&op));
}

#[test]
fn a_failed_deletion_does_not_fail_the_replay() {
    let segments = || {
        vec![
            // Replayed, and cannot be deleted.
            MockSegmentReader::new(SegmentId::new(1))
                .with_entry_results(vec![Ok(vec![arbitrary_sequenced_wal_op(7)])]),
            // Empty, and cannot be deleted.
            MockSegmentReader::new(SegmentId::new(2)),
            MockSegmentReader::new(SegmentId::new(3))
                .with_entry_results(vec![Ok(vec![arbitrary_sequenced_wal_op(5)])]),
        ]
    };

    // The replay in which every deletion succeeds.
    let mut wal = MockWalReader::new(segments(), vec![1, 2, 3]);
    let mut sink = MockDmlSink::with_apply_return(vec![Ok(()), Ok(())]);
    let clean = replay(&mut wal, &mut sink, &mut healthy());
    assert_eq!(clean.result, Ok(Some(SequenceNumber::new(7))));
    assert!(clean.delete_errors.is_empty());
    assert!(wal.closed_segments().is_empty());

    // The same log, with two segments that cannot be deleted.
    let mut wal = MockWalReader::new(segments(), vec![1, 2, 3]).with_undeletable(vec![1, 2]);
    let mut sink = MockDmlSink::with_apply_return(vec![Ok(()), Ok(())]);
    let run = replay(&mut wal, &mut sink, &mut healthy());

    // The result, the writes and the counters are the same.
    assert_eq!(run.result, clean.result);
    assert_eq!(sink.calls.len(), 2);
    assert_eq!(run.metrics, clean.metrics);
    assert_eq!(run.persist_calls, clean.persist_calls);

    // The errors were handed back, and the segments are still there.
    assert_eq!(
        run.delete_errors,
        vec![
            WalError::Other("cannot delete segment 1".to_string()),
            WalError::Other("cannot delete segment 2".to_string()),
        ]
    );
    assert_eq!(
        wal.closed_segments().into_iter().map(|s| s.id).collect::<Vec<_>>(),
        vec![SegmentId::new(1), SegmentId::new(2)]
    );
}
