use data_lifecycle::catalog::{CompactionLevel, ParquetFile, ParquetFileParams};
use data_lifecycle::ingester::partition::PartitionData;
use data_lifecycle::ingester::persist::{
    decide_cas, AfterUpload, CasDecision, CasResult, ColumnSchema, ColumnsByName, IoxMetadata,
    PersistJob, PersistPhase, UploadedFile,
};
use data_lifecycle::ingester::sort_key::{SortKey, SortKeyState, SortedColumnSet};

fn names(v: &[&str]) -> Vec<String> {
    v.iter().map(|s| s.to_string()).collect()
}

fn key(v: &[&str]) -> SortKey {
    SortKey::from_columns(names(v))
}

fn columns() -> ColumnsByName {
    ColumnsByName {
        columns: vec![
            ColumnSchema { name: "a".to_string(), id: 1 },
            ColumnSchema { name: "b".to_string(), id: 2 },
            ColumnSchema { name: "time".to_string(), id: 3 },
        ],
    }
}

/// The sort key of one partition in the catalog.
struct MockCatalog {
    sort_key: Option<Vec<String>>,
    sort_key_ids: SortedColumnSet,
}

impl MockCatalog {
    fn cas_sort_key(
        &mut self,
        old: Option<Vec<String>>,
        new: &[String],
        new_ids: &SortedColumnSet,
    ) -> CasResult {
        if self.sort_key == old {
            self.sort_key = Some(new.to_vec());
            self.sort_key_ids = new_ids.duplicate();
            CasResult::Installed
        } else {
            CasResult::ValueMismatch(self.sort_key.clone(), self.sort_key_ids.duplicate())
        }
    }
}

fn partition(state: SortKeyState) -> PartitionData {
    PartitionData::new(1, "platanos".to_string(), 3, 4, state)
}

/// Runs one persist job against the catalog. `wanted` is the sort key that
/// the data of the job asks for; the compaction proposes it while the
/// cached key lacks some of its columns.
fn run_job(catalog: &mut MockCatalog, partition: &mut PartitionData, wanted: &[&str]) -> PersistJob {
    let mut job = PersistJob::new();
    loop {
        assert_eq!(job.phase(), PersistPhase::CompactAndUpload);
        // Compact: read the cached key, and see whether it has to grow.
        let (cached, _cached_ids) = partition.sort_key().get().expect("sort key is loaded");
        let cached_names = cached.as_ref().map(|k| k.to_columns());
        let covered = match &cached_names {
            None => false,
            Some(have) => wanted.iter().all(|w| have.iter().any(|h| h == w)),
        };
        let update = if covered { None } else { Some(key(wanted)) };

        // Upload.
        match job.uploaded(update, &columns()) {
            AfterUpload::RegisterFile => break,
            AfterUpload::UpdateSortKey(proposed, ids) => {
                let result = catalog.cas_sort_key(cached_names, &proposed.to_columns(), &ids);
                match job.sort_key_answered(partition, proposed, &ids, result) {
                    Ok(true) => break,
                    Ok(false) => unreachable!("the mock catalog does not fail"),
                    Err(_observed) => continue,
                }
            }
        }
    }
    assert_eq!(job.phase(), PersistPhase::RegisterFile);
    let file = ParquetFile::from_params(
        ParquetFileParams {
            partition_id: 1,
            object_store_id: 7,
            min_time: 0,
            max_time: 1,
            file_size_bytes: 10,
            row_count: 1,
            compaction_level: CompactionLevel::Initial,
            created_at: 0,
        },
        42,
    );
    job.registered(&file);
    assert_eq!(job.phase(), PersistPhase::Notify);
    job.notified();
    assert_eq!(job.phase(), PersistPhase::Complete);
    job
}

#[test]
fn concurrent_sort_key_update_restarts_the_job_once() {
    let mut catalog = MockCatalog { sort_key: None, sort_key_ids: SortedColumnSet::from(vec![]) };

    // Both workers start from the same cached state: no sort key.
    let mut partition_a = partition(SortKeyState::Provided(None, None));
    let mut partition_b = partition(SortKeyState::Provided(None, None));

    // Worker B wins the compare-and-swap with [a, b, time].
    let job_b = run_job(&mut catalog, &mut partition_b, &["a", "b", "time"]);
    assert_eq!(job_b.uploads(), 1);
    assert_eq!(job_b.restarts(), 0);
    assert_eq!(catalog.sort_key, Some(names(&["a", "b", "time"])));

    // Worker A proposes [a, time], observes the mismatch, and starts over
    // with [a, b, time], which covers its columns.
    let job_a = run_job(&mut catalog, &mut partition_a, &["a", "time"]);
    assert_eq!(job_a.uploads(), 2);
    assert_eq!(job_a.restarts(), 1);

    // The catalog is as B left it, and A caches what it found there.
    assert_eq!(catalog.sort_key, Some(names(&["a", "b", "time"])));
    assert_eq!(catalog.sort_key_ids, SortedColumnSet::from(vec![1, 2, 3]));
    let (cached, cached_ids) = partition_a.sort_key().get().unwrap();
    assert_eq!(cached.unwrap(), key(&["a", "b", "time"]));
    assert_eq!(cached_ids.unwrap(), SortedColumnSet::from(vec![1, 2, 3]));
}

#[test]
fn a_matching_concurrent_update_is_a_success() {
    let proposed = key(&["a", "time"]);
    let ids = SortedColumnSet::from(vec![1, 3]);

    // Another job installed the very same key.
    let d = decide_cas(
        &proposed,
        &ids,
        CasResult::ValueMismatch(Some(names(&["a", "time"])), SortedColumnSet::from(vec![1, 3])),
    );
    match d {
        CasDecision::Done(got) => assert_eq!(got, ids),
        other => panic!("unexpected decision {other:?}"),
    }

    // Another key.
    let d = decide_cas(
        &proposed,
        &ids,
        CasResult::ValueMismatch(Some(names(&["b", "time"])), SortedColumnSet::from(vec![2, 3])),
    );
    match d {
        CasDecision::ConcurrentSortKeyUpdate(k, got) => {
            assert_eq!(k, Some(key(&["b", "time"])));
            assert_eq!(got, SortedColumnSet::from(vec![2, 3]));
        }
        other => panic!("unexpected decision {other:?}"),
    }

    // No key at all.
    let d = decide_cas(
        &proposed,
        &ids,
        CasResult::ValueMismatch(None, SortedColumnSet::from(vec![])),
    );
    assert!(matches!(d, CasDecision::ConcurrentSortKeyUpdate(None, _)));

    assert!(matches!(decide_cas(&proposed, &ids, CasResult::Installed), CasDecision::Done(_)));
    assert!(matches!(
        decide_cas(&proposed, &ids, CasResult::QueryError("down".to_string())),
        CasDecision::Retry
    ));
}

#[test]
fn a_failed_query_is_asked_again_without_a_new_upload() {
    let mut partition = partition(SortKeyState::Provided(None, None));
    let mut job = PersistJob::new();
    let (proposed, ids) = match job.uploaded(Some(key(&["a", "time"])), &columns()) {
        AfterUpload::UpdateSortKey(k, ids) => (k, ids),
        other => panic!("unexpected step {other:?}"),
    };
    assert_eq!(ids, SortedColumnSet::from(vec![1, 3]));
    assert_eq!(job.phase(), PersistPhase::UpdateSortKey);

    let res = job.sort_key_answered(
        &mut partition,
        proposed.duplicate(),
        &ids,
        CasResult::QueryError("down".to_string()),
    );
    assert_eq!(res, Ok(false));
    assert_eq!(job.phase(), PersistPhase::UpdateSortKey);
    assert_eq!((job.uploads(), job.restarts()), (1, 0));
    assert!(matches!(partition.sort_key(), SortKeyState::Provided(None, None)));

    let res = job.sort_key_answered(&mut partition, proposed, &ids, CasResult::Installed);
    assert_eq!(res, Ok(true));
    assert_eq!(job.phase(), PersistPhase::RegisterFile);
    let (cached, cached_ids) = partition.sort_key().get().unwrap();
    assert_eq!(cached.unwrap(), key(&["a", "time"]));
    assert_eq!(cached_ids.unwrap(), SortedColumnSet::from(vec![1, 3]));
}

#[test]
fn column_ids_follow_the_order_of_the_names() {
    let c = columns();
    assert!(c.contains_all(&names(&["time", "a"])));
    assert_eq!(c.ids_for_names(&names(&["time", "a", "b"])), SortedColumnSet::from(vec![3, 1, 2]));
    assert_eq!(c.ids_for_names(&names(&[])), SortedColumnSet::from(vec![]));
    assert!(!c.contains_all(&names(&["a", "nope"])));
    assert_eq!(c.get(&"b".to_string()), Some(2));
    assert_eq!(c.get(&"nope".to_string()), None);
}

#[test]
fn metadata_of_a_persisted_file() {
    let p = partition(SortKeyState::Deferred);
    let m = IoxMetadata::for_persist(&p, key(&["a", "time"]), 1234);
    assert_eq!(m.creation_timestamp, 1234);
    assert_eq!(m.max_l0_created_at, 1234);
    assert_eq!(m.namespace_id, 3);
    assert_eq!(m.table_id, 4);
    assert_eq!(m.partition_id, 1);
    assert_eq!(m.partition_key, "platanos");
    assert_eq!(m.compaction_level, CompactionLevel::Initial);
    assert_eq!(m.sort_key, Some(key(&["a", "time"])));

    // The object store id is a random UUID: version 4, variant 1.
    assert_eq!((m.object_store_id >> 76) & 0xf, 4);
    assert_eq!((m.object_store_id >> 62) & 0x3, 2);
    let other = IoxMetadata::for_persist(&p, key(&["a", "time"]), 1234);
    assert_ne!(m.object_store_id, other.object_store_id);

    let params = m.to_parquet_file(UploadedFile {
        file_size_bytes: 999,
        row_count: 12,
        min_time: -5,
        max_time: 50,
    });
    assert_eq!(
        params,
        ParquetFileParams {
            partition_id: 1,
            object_store_id: m.object_store_id,
            min_time: -5,
            max_time: 50,
            file_size_bytes: 999,
            row_count: 12,
            compaction_level: CompactionLevel::Initial,
            created_at: 1234,
        }
    );
    // A file made from these is not marked for deletion.
    assert_eq!(ParquetFile::from_params(params, 8).to_delete, None);
    assert_eq!(ParquetFile::from_params(params, 8).id, 8);
}
