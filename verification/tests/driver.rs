use std::sync::Arc;

use data_lifecycle::catalog::{CompactionLevel, ParquetFile, ParquetFileParams, PartitionInfo};
use data_lifecycle::compactor::changed_files::{FileState, SavedParquetFileState};
use data_lifecycle::compactor::driver::{
    branch_start, committed_files, compaction_event, files_to_delete, outcome_of_error, partition_outcome,
    runnable_plans, start_branch, take_chunk, timeout_outcome, with_object_store_ids, BranchRun,
    BranchStart,
    CompactionEvent, PermitEscalation, PlanIR, PlanOutcome, TimeoutWithProgress,
};
use data_lifecycle::compactor::file_classification::{
    CompactReason, FileClassification, FileToSplit, FilesForProgress, FilesToSplitOrCompact,
};
use data_lifecycle::compactor::file_classifier::FileClassifier;
use data_lifecycle::compactor::possible_progress::PossibleProgressFilter;
use data_lifecycle::compactor::round_info::{CompactType, RangeInfo, RoundInfo};
use data_lifecycle::compactor::round_split::RoundSplit;
use data_lifecycle::error::{ErrorContext, ErrorKind, SimpleError};

fn file(id: i64, level: CompactionLevel) -> ParquetFile {
    ParquetFile {
        id,
        partition_id: 1,
        object_store_id: id as u128,
        min_time: id,
        max_time: id + 10,
        file_size_bytes: 100,
        row_count: 5,
        compaction_level: level,
        created_at: 0,
        to_delete: None,
    }
}

fn l0(id: i64) -> ParquetFile {
    file(id, CompactionLevel::Initial)
}

fn params(size: i64) -> ParquetFileParams {
    ParquetFileParams {
        partition_id: 1,
        object_store_id: 0,
        min_time: 0,
        max_time: 10,
        file_size_bytes: size,
        row_count: 5,
        compaction_level: CompactionLevel::FileNonOverlapped,
        created_at: 0,
    }
}

fn partition() -> PartitionInfo {
    PartitionInfo { partition_id: 1, namespace_id: 2, table_id: 3 }
}

fn oom() -> SimpleError {
    SimpleError::new(ErrorKind::OutOfMemory, "out of memory".to_string())
}

/// Runs a plan as the driver does: under the permits the escalation asks
/// for, until it is done, fails, or cannot ask for more.
fn execute_plan(
    total_permits: usize,
    mut run: impl FnMut(usize) -> Result<Vec<ParquetFileParams>, SimpleError>,
) -> (Result<Vec<ParquetFileParams>, SimpleError>, Vec<usize>) {
    let mut requests = vec![];
    let mut res = Ok(vec![]);
    let mut escalation = PermitEscalation::new(total_permits);
    let mut next = escalation.request();
    while let Some(permits) = next {
        requests.push(permits);
        res = run(permits);
        let outcome = match &res {
            Ok(_) => PlanOutcome::Done,
            Err(e) => outcome_of_error(e),
        };
        next = escalation.attempted(outcome);
    }
    (res, requests)
}

#[test]
fn oom_self_tune() {
    // The plan fails with one permit and succeeds with two.
    let plan = |permits: usize| {
        if permits < 2 {
            Err(oom())
        } else {
            Ok(vec![params(10), params(20)])
        }
    };
    let (res, requests) = execute_plan(8, plan);
    assert_eq!(requests, vec![1, 2]);

    // The output is that of a run with two permits.
    assert_eq!(res.unwrap(), plan(2).unwrap());
}

#[test]
fn permits_double_up_to_the_total() {
    let always_oom = |_: usize| Err(oom());
    let (res, requests) = execute_plan(10, always_oom);
    assert_eq!(requests, vec![1, 2, 4, 8]);
    assert_eq!(res.unwrap_err().classify(), ErrorKind::OutOfMemory);

    let (_, requests) = execute_plan(8, always_oom);
    assert_eq!(requests, vec![1, 2, 4, 8]);

    let (_, requests) = execute_plan(1, always_oom);
    assert_eq!(requests, vec![1]);

    let (_, requests) = execute_plan(usize::MAX, always_oom);
    assert_eq!(requests.len(), usize::BITS as usize);
    assert_eq!(*requests.last().unwrap(), 1usize << (usize::BITS - 1));

    // Without a permit the plan is not run, and produces nothing.
    let (res, requests) = execute_plan(0, always_oom);
    assert!(requests.is_empty());
    assert_eq!(res.unwrap(), vec![]);
}

#[test]
fn any_other_error_ends_the_plan_at_once() {
    let broken = |_: usize| Err(SimpleError::new(ErrorKind::ObjectStore, "gone".to_string()));
    let (res, requests) = execute_plan(8, broken);
    assert_eq!(requests, vec![1]);
    assert_eq!(res.unwrap_err().classify(), ErrorKind::ObjectStore);
    assert_eq!(outcome_of_error(&oom()), PlanOutcome::OutOfMemory);
    assert_eq!(
        outcome_of_error(&SimpleError::new(ErrorKind::Timeout, "t".to_string())),
        PlanOutcome::Failed
    );
}

#[test]
fn partition_timeout_with_progress_is_a_soft_retry() {
    // One branch committed before the time ran out: no error is reported,
    // so the partition is not put on the skip list.
    assert!(partition_outcome(9, TimeoutWithProgress::SomeWorkTryAgain).is_ok());

    // Without any progress the partition is reported as timed out.
    let err = partition_outcome(9, TimeoutWithProgress::NoWorkTimeOutError).unwrap_err();
    assert_eq!(err.classify(), ErrorKind::Timeout);
    assert_eq!(err.message(), "timeout without making any progress");
    assert_eq!(
        err.context(),
        ErrorContext { partition_id: Some(9), file_id: None, sequence_number: None }
    );

    // The second branch ran out of time after the first had committed.
    let timed_out: Option<Result<(), SimpleError>> = None;
    assert!(matches!(timeout_outcome(timed_out, true), TimeoutWithProgress::SomeWorkTryAgain));
    assert!(partition_outcome(9, timeout_outcome(None, true)).is_ok());
    let timed_out: Option<Result<(), SimpleError>> = None;
    assert!(matches!(timeout_outcome(timed_out, false), TimeoutWithProgress::NoWorkTimeOutError));
    assert!(matches!(
        timeout_outcome(Some(Ok::<(), SimpleError>(())), false),
        TimeoutWithProgress::Completed(Ok(()))
    ));
    assert!(matches!(timeout_outcome(Some(7), true), TimeoutWithProgress::Completed(7)));

    // Work that ended in time reports its own result.
    assert!(partition_outcome(9, TimeoutWithProgress::Completed(Ok(()))).is_ok());
    let err = partition_outcome(9, TimeoutWithProgress::Completed(Err(oom()))).unwrap_err();
    assert_eq!(err.classify(), ErrorKind::OutOfMemory);
    assert_eq!(err.message(), "out of memory");
}

fn plan_ids(plans: &[PlanIR]) -> Vec<Vec<i64>> {
    plans.iter().map(|p| p.input_parquet_files().iter().map(|f| f.id).collect()).collect()
}

#[test]
fn plans_are_cut_into_chunks_of_four_times_the_permits() {
    let mut plans: Vec<PlanIR> = (0..11)
        .map(|i| PlanIR::Split(l0(i), vec![i + 5], CompactionLevel::Initial))
        .collect();

    let chunk = take_chunk(&mut plans, 1);
    assert_eq!(plan_ids(&chunk), vec![vec![0], vec![1], vec![2], vec![3]]);
    assert_eq!(plans.len(), 7);

    let chunk = take_chunk(&mut plans, 1);
    assert_eq!(plan_ids(&chunk), vec![vec![4], vec![5], vec![6], vec![7]]);

    let chunk = take_chunk(&mut plans, 1);
    assert_eq!(plan_ids(&chunk), vec![vec![8], vec![9], vec![10]]);
    assert!(plans.is_empty());

    assert!(take_chunk(&mut plans, 1).is_empty());

    let mut plans: Vec<PlanIR> = (0..3)
        .map(|i| PlanIR::Split(l0(i), vec![i + 5], CompactionLevel::Initial))
        .collect();
    assert_eq!(take_chunk(&mut plans, usize::MAX).len(), 3);
}

#[test]
fn a_chunk_deletes_the_inputs_of_its_plans() {
    let chunk = vec![
        PlanIR::Compact(
            vec![l0(1), l0(2)],
            CompactionLevel::FileNonOverlapped,
            CompactReason::TotalSizeThreshold,
        ),
        PlanIR::Nothing("nothing to do".to_string()),
        PlanIR::Split(l0(3), vec![7], CompactionLevel::Initial),
    ];
    assert_eq!(files_to_delete(&chunk), vec![l0(1), l0(2), l0(3)]);

    let runnable = runnable_plans(chunk);
    assert_eq!(plan_ids(&runnable), vec![vec![1, 2], vec![3]]);
    assert!(runnable.iter().all(|p| !p.is_nothing()));
    assert!(runnable_plans(vec![PlanIR::Nothing("a".to_string())]).is_empty());
}

#[test]
fn commit_results_are_paired_with_their_ids() {
    let (created, upgraded) = committed_files(
        vec![params(10), params(20)],
        vec![100, 101],
        vec![l0(1), file(2, CompactionLevel::FileNonOverlapped)],
        CompactionLevel::Final,
    );
    assert_eq!(
        created,
        vec![ParquetFile::from_params(params(10), 100), ParquetFile::from_params(params(20), 101)]
    );
    assert!(created.iter().all(|f| f.to_delete.is_none()));
    assert_eq!(
        upgraded,
        vec![
            ParquetFile { compaction_level: CompactionLevel::Final, ..l0(1) },
            ParquetFile { compaction_level: CompactionLevel::Final, ..l0(2) },
        ]
    );

    // As many files as there are pairs.
    let (created, _) =
        committed_files(vec![params(10), params(20)], vec![100], vec![], CompactionLevel::Final);
    assert_eq!(created.len(), 1);

    let published = with_object_store_ids(vec![params(10), params(20)], vec![77, 78]);
    assert_eq!(
        published,
        vec![
            ParquetFileParams { object_store_id: 77, ..params(10) },
            ParquetFileParams { object_store_id: 78, ..params(20) },
        ]
    );
}

#[test]
fn the_event_names_what_the_commit_did() {
    let created = vec![ParquetFile::from_params(params(10), 100)];
    let upgraded = vec![l0(1), l0(2)];
    let deleted = vec![l0(3)];
    let event = compaction_event(&created, &upgraded, &deleted, CompactionLevel::FileNonOverlapped);
    assert_eq!(
        event,
        CompactionEvent {
            new_files: created,
            updated_file_ids: vec![1, 2],
            deleted_file_ids: vec![3],
            upgraded_target_level: 1,
        }
    );
    assert_eq!(CompactionLevel::Initial.as_number(), 0);
    assert_eq!(CompactionLevel::Final.as_number(), 2);
    assert_eq!(CompactionLevel::Initial.next(), CompactionLevel::FileNonOverlapped);
    assert_eq!(CompactionLevel::Final.next(), CompactionLevel::Final);
}

#[test]
fn files_are_upgraded_with_the_first_chunk_only() {
    let mut run = BranchRun::new(vec![l0(1), l0(2)]);
    assert_eq!(run.take_upgrade(), vec![l0(1), l0(2)]);
    run.chunk_committed(vec![l0(10)], vec![l0(1), l0(2)]);
    assert_eq!(run.take_upgrade(), vec![]);
    run.chunk_committed(vec![l0(11), l0(12)], vec![]);
    assert_eq!(
        run.finish(vec![l0(20)]),
        vec![l0(10), l0(1), l0(2), l0(11), l0(12), l0(20)]
    );
}

#[test]
fn a_range_collects_the_output_of_its_branches() {
    let mut range = RangeInfo {
        min: 0,
        max: 100,
        cap: 1000,
        op: Some(CompactType::CompactToNext(CompactionLevel::Initial)),
        branches: Some(vec![vec![l0(1)], vec![l0(2), l0(3)]]),
        files_for_later: Some(vec![l0(9)]),
    };
    let branches = range.take_branches().unwrap();
    assert_eq!(branches, vec![vec![l0(1)], vec![l0(2), l0(3)]]);
    assert!(range.take_branches().is_none());

    range.add_branch_outputs(vec![vec![l0(4)], vec![], vec![l0(5), l0(6)]]);
    assert_eq!(range.files_for_later, Some(vec![l0(9), l0(4), l0(5), l0(6)]));

    let mut fresh = RangeInfo {
        min: 200,
        max: 300,
        cap: 1000,
        op: Some(CompactType::SplitManySmall),
        branches: None,
        files_for_later: None,
    };
    fresh.add_branch_outputs(vec![vec![l0(7)]]);
    assert_eq!(fresh.files_for_later, Some(vec![l0(7)]));

    let untouched = RangeInfo {
        min: 400,
        max: 500,
        cap: 1000,
        op: None,
        branches: None,
        files_for_later: None,
    };
    let round = RoundInfo { ranges: vec![range, untouched, fresh] };
    assert!(round.has_work(false));
    assert!(!round.has_work(true));
    assert_eq!(round.files_for_next_round(), vec![l0(9), l0(4), l0(5), l0(6), l0(7)]);
    assert!(!RoundInfo { ranges: vec![] }.has_work(false));
    assert_eq!(CompactType::SplitManySmall.display(), "split_many_small");
    assert_eq!(
        CompactType::CompactSameLevel(CompactionLevel::Initial).display(),
        "compact_same_level"
    );
}

/// Keeps every file, or compacts all of them.
struct MockClassifier {
    compact: bool,
}

impl FileClassifier for MockClassifier {
    fn classify(
        &self,
        _: &PartitionInfo,
        _: &CompactType,
        files: Vec<ParquetFile>,
    ) -> FileClassification {
        if self.compact {
            FileClassification {
                target_level: CompactionLevel::FileNonOverlapped,
                files_to_make_progress_on: FilesForProgress {
                    upgrade: vec![],
                    split_or_compact: FilesToSplitOrCompact::Compact(
                        files,
                        CompactReason::ManySmallFiles,
                    ),
                },
                files_to_keep: vec![],
            }
        } else {
            FileClassification {
                target_level: CompactionLevel::FileNonOverlapped,
                files_to_make_progress_on: FilesForProgress::empty(),
                files_to_keep: files,
            }
        }
    }
}

/// Takes the first file now and leaves the rest for later.
struct FirstNow;

impl RoundSplit for FirstNow {
    fn split(
        &self,
        mut files: Vec<ParquetFile>,
        _: CompactType,
        _: i64,
    ) -> (Vec<ParquetFile>, Vec<ParquetFile>) {
        let later = files.split_off(files.len().min(1));
        (files, later)
    }
}

#[test]
fn a_branch_starts_with_its_classification() {
    let filter = PossibleProgressFilter::new(50);
    let op = CompactType::CompactToNext(CompactionLevel::Initial);

    // Files to compact: there is work.
    let start =
        start_branch(&MockClassifier { compact: true }, &filter, &partition(), &op, vec![l0(1)]);
    match start.unwrap() {
        BranchStart::Work(level, progress, keep) => {
            assert_eq!(level, CompactionLevel::FileNonOverlapped);
            assert_eq!(progress.split_or_compact.files(), vec![l0(1)]);
            assert!(keep.is_empty());
        }
        other => panic!("unexpected start {other:?}"),
    }

    // Nothing to make progress on: the kept files are the output.
    let small = ParquetFile { file_size_bytes: 50, min_time: 3, max_time: 3, ..l0(1) };
    let classifier = Arc::new(MockClassifier { compact: false });
    let start = start_branch(&classifier, &filter, &partition(), &op, vec![small]);
    match start.unwrap() {
        BranchStart::NoProgress(keep) => assert_eq!(keep, vec![small]),
        other => panic!("unexpected start {other:?}"),
    }

    // An unsplittable giant file fails the partition.
    let giant = ParquetFile { file_size_bytes: 51, min_time: 3, max_time: 3, ..l0(1) };
    let err = start_branch(&classifier, &filter, &partition(), &op, vec![giant]).unwrap_err();
    assert_eq!(err.classify(), ErrorKind::OutOfMemory);
    assert_eq!(
        err.context(),
        ErrorContext { partition_id: Some(1), file_id: Some(1), sequence_number: None }
    );
    assert_eq!(
        err.message(),
        "partition 1 has overlapped files that exceed max compact size limit 50, \
         and cannot be split because they cover a single ns of time 3."
    );

    // A classifier behind a shared pointer to the trait.
    let shared: Arc<dyn FileClassifier> = Arc::new(MockClassifier { compact: true });
    let start = start_branch(&shared, &filter, &partition(), &op, vec![l0(1), l0(2)]);
    assert!(matches!(start.unwrap(), BranchStart::Work(_, _, _)));

    let (now, later) = FirstNow.split(vec![l0(1), l0(2), l0(3)], op, 1);
    assert_eq!((now, later), (vec![l0(1)], vec![l0(2), l0(3)]));
}

#[test]
fn files_of_a_rewrite() {
    assert!(FilesToSplitOrCompact::Nothing.is_none());
    assert!(FilesToSplitOrCompact::Nothing.files().is_empty());
    let split = FilesToSplitOrCompact::Split(vec![
        FileToSplit { file: l0(1), split_times: vec![3, 5] },
        FileToSplit { file: l0(2), split_times: vec![7] },
    ]);
    assert!(!split.is_none());
    assert_eq!(split.files(), vec![l0(1), l0(2)]);
    let progress = FilesForProgress { upgrade: vec![l0(3)], split_or_compact: FilesToSplitOrCompact::Nothing };
    assert!(!progress.is_empty());
    assert!(FilesForProgress::empty().is_empty());
    assert!(l0(1).overlaps(&l0(11)));
    assert!(!l0(1).overlaps(&l0(12)));
}

#[test]
fn changed_files_are_found() {
    let saved = SavedParquetFileState::from(&vec![l0(1), l0(2), l0(3)]);
    assert_eq!(
        saved.ids_and_levels,
        vec![
            FileState { id: 1, level: CompactionLevel::Initial },
            FileState { id: 2, level: CompactionLevel::Initial },
            FileState { id: 3, level: CompactionLevel::Initial },
        ]
    );

    // More files, in another order: nothing is missing.
    let current = SavedParquetFileState::from(&vec![l0(3), l0(9), l0(1), l0(2)]);
    assert!(saved.missing(&current).is_empty());
    assert!(saved.existing_files_unmodified(&current));

    // One file gone, one at another level.
    let current =
        SavedParquetFileState::from(&vec![file(3, CompactionLevel::FileNonOverlapped), l0(2)]);
    assert_eq!(
        saved.missing(&current),
        vec![
            FileState { id: 1, level: CompactionLevel::Initial },
            FileState { id: 3, level: CompactionLevel::Initial },
        ]
    );
    assert!(!saved.existing_files_unmodified(&current));
    assert!(current.contains(FileState { id: 2, level: CompactionLevel::Initial }));
}

#[test]
fn a_classification_decides_the_start_of_a_branch() {
    let filter = PossibleProgressFilter::new(50);

    // Something to upgrade is progress.
    let start = branch_start(
        &filter,
        &partition(),
        FileClassification {
            target_level: CompactionLevel::Final,
            files_to_make_progress_on: FilesForProgress {
                upgrade: vec![l0(1)],
                split_or_compact: FilesToSplitOrCompact::Nothing,
            },
            files_to_keep: vec![l0(2)],
        },
    );
    match start.unwrap() {
        BranchStart::Work(level, progress, keep) => {
            assert_eq!(level, CompactionLevel::Final);
            assert_eq!(progress.upgrade, vec![l0(1)]);
            assert!(progress.split_or_compact.is_none());
            assert_eq!(keep, vec![l0(2)]);
        }
        other => panic!("unexpected start {other:?}"),
    }

    // Nothing to make progress on.
    let start = branch_start(
        &filter,
        &partition(),
        FileClassification {
            target_level: CompactionLevel::Final,
            files_to_make_progress_on: FilesForProgress::empty(),
            files_to_keep: vec![l0(2), l0(3)],
        },
    );
    match start.unwrap() {
        BranchStart::NoProgress(keep) => assert_eq!(keep, vec![l0(2), l0(3)]),
        other => panic!("unexpected start {other:?}"),
    }
}
