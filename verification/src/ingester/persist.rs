//! The persist job: the decisions between compacting a snapshot, uploading
//! the file, agreeing with the catalog on the sort key, and registering the
//! file.
//!
//! Sort keys are updated by compare-and-swap. A job that loses the race
//! takes the key it observed and starts over from the compaction.

use vstd::prelude::*;
use crate::catalog::{CompactionLevel, ParquetFile, ParquetFileParams};
use crate::ingester::batch::names_view;
use crate::ingester::partition::PartitionData;
use crate::ingester::sort_key::{
    copy_key, key_view, same_names, SortKey, SortKeyStateView, SortedColumnSet,
};

verus! {

/// A column of a table: its name and its catalog id.
#[derive(Debug, Clone, PartialEq, Eq)]
pub struct ColumnSchema {
    pub name: String,
    pub id: i64,
}

/// The columns of a table, to be looked up by name.
#[derive(Debug, Clone, PartialEq, Eq)]
pub struct ColumnsByName {
    pub columns: Vec<ColumnSchema>,
}

/// The id of the first of `columns` that is called `name`.
pub open spec fn column_id(columns: Seq<ColumnSchema>, name: Seq<char>) -> Option<i64>
    decreases columns.len(),
{
    if columns.len() == 0 {
        None
    } else if columns[0].name@ == name {
        Some(columns[0].id)
    } else {
        column_id(columns.subrange(1, columns.len() as int), name)
    }
}

/// Whether each of `names` is the name of one of `columns`.
pub open spec fn all_known(columns: Seq<ColumnSchema>, names: Seq<Seq<char>>) -> bool {
    forall|i: int| 0 <= i < names.len() ==> column_id(columns, #[trigger] names[i]) is Some
}

/// The ids of `names` among `columns`, in the order of `names`.
pub open spec fn column_ids(columns: Seq<ColumnSchema>, names: Seq<Seq<char>>) -> Seq<i64> {
    names.map_values(|n: Seq<char>| column_id(columns, n).unwrap())
}

impl ColumnsByName {
    /// The id of the column called `name`, if there is one.
    pub fn get(&self, name: &String) -> (out: Option<i64>)
        ensures
            out == column_id(self.columns@, name@),
    {
        let mut i: usize = 0;
        assert(self.columns@.subrange(0, self.columns@.len() as int) =~= self.columns@);
        while i < self.columns.len()
            invariant
                i <= self.columns@.len(),
                column_id(self.columns@, name@) == column_id(
                    self.columns@.subrange(i as int, self.columns@.len() as int),
                    name@,
                ),
            decreases self.columns@.len() - i,
        {
            let ghost rest = self.columns@.subrange(i as int, self.columns@.len() as int);
            if self.columns[i].name == *name {
                return Some(self.columns[i].id);
            }
            assert(rest.subrange(1, rest.len() as int) =~= self.columns@.subrange(
                i + 1,
                self.columns@.len() as int,
            ));
            i = i + 1;
        }
        None
    }

    /// Whether every one of `names` is a column.
    pub fn contains_all(&self, names: &Vec<String>) -> (b: bool)
        ensures
            b == all_known(self.columns@, names_view(names@)),
    {
        let mut i: usize = 0;
        while i < names.len()
            invariant
                i <= names@.len(),
                forall|j: int|
                    0 <= j < i ==> column_id(self.columns@, #[trigger] names_view(names@)[j])
                        is Some,
            decreases names@.len() - i,
        {
            if self.get(&names[i]).is_none() {
                assert(column_id(self.columns@, names_view(names@)[i as int]) is None);
                return false;
            }
            i = i + 1;
        }
        true
    }

    /// The ids of the columns `names`, in the order of `names`.
    pub fn ids_for_names(&self, names: &Vec<String>) -> (ids: SortedColumnSet)
        requires
            all_known(self.columns@, names_view(names@)),
        ensures
            ids@ == column_ids(self.columns@, names_view(names@)),
    {
        let mut ids: Vec<i64> = Vec::new();
        let mut i: usize = 0;
        while i < names.len()
            invariant
                i <= names@.len(),
                all_known(self.columns@, names_view(names@)),
                ids@ == column_ids(self.columns@, names_view(names@)).subrange(0, i as int),
            decreases names@.len() - i,
        {
            let found = self.get(&names[i]);
            assert(column_id(self.columns@, names_view(names@)[i as int]) is Some);
            ids.push(found.unwrap());
            i = i + 1;
        }
        SortedColumnSet::from(ids)
    }
}

/// What the catalog answered to a compare-and-swap of the sort key.
#[derive(Debug)]
pub enum CasResult {
    /// The new key is installed.
    Installed,
    /// The query failed; nothing is known of the key.
    QueryError(String),
    /// The key in the catalog was not the one expected; with the key that
    /// was found there instead, by name and by id.
    ValueMismatch(Option<Vec<String>>, SortedColumnSet),
}

/// What a job does after a compare-and-swap of the sort key.
#[derive(Debug)]
pub enum CasDecision {
    /// The catalog holds the proposed key: go on, with these column ids.
    Done(SortedColumnSet),
    /// Ask the catalog again, after a pause.
    Retry,
    /// Another job changed the key to this one: take it and start over.
    ConcurrentSortKeyUpdate(Option<SortKey>, SortedColumnSet),
}

/// The names of an optional list of names.
pub open spec fn optional_names(names: Option<Vec<String>>) -> Option<Seq<Seq<char>>> {
    match names {
        None => None,
        Some(v) => Some(names_view(v@)),
    }
}

/// Whether the answer `result` leaves the catalog with the key `proposed`.
pub open spec fn cas_succeeded(proposed: Seq<Seq<char>>, result: CasResult) -> bool {
    match result {
        CasResult::Installed => true,
        CasResult::QueryError(_) => false,
        CasResult::ValueMismatch(observed, _) => optional_names(observed) == Some(proposed),
    }
}

/// Decides what follows from the catalog's answer to the proposal of
/// `new_sort_key`, whose columns have the ids `new_sort_key_ids`.
///
/// An installed key is a success. So is a mismatch in which the key found
/// equals the proposed one name for name: another job proposed the same.
/// A failed query is asked again. Any other mismatch is a concurrent
/// update, reported with the key that was found.
pub fn decide_cas(new_sort_key: &SortKey, new_sort_key_ids: &SortedColumnSet, result: CasResult) -> (d:
    CasDecision)
    ensures
        match result {
            CasResult::Installed => d matches CasDecision::Done(ids) && ids@ == new_sort_key_ids@,
            CasResult::QueryError(_) => d is Retry,
            CasResult::ValueMismatch(observed, observed_ids) => if optional_names(observed)
                == Some(new_sort_key@) {
                d matches CasDecision::Done(ids) && ids@ == new_sort_key_ids@
            } else {
                d matches CasDecision::ConcurrentSortKeyUpdate(key, ids) && key_view(key)
                    == optional_names(observed) && ids@ == observed_ids@
            },
        },
{
    match result {
        CasResult::Installed => CasDecision::Done(new_sort_key_ids.duplicate()),
        CasResult::QueryError(_) => CasDecision::Retry,
        CasResult::ValueMismatch(observed, observed_ids) => {
            match observed {
                None => CasDecision::ConcurrentSortKeyUpdate(None, observed_ids),
                Some(names) => {
                    if same_names(&names, &new_sort_key.columns) {
                        CasDecision::Done(new_sort_key_ids.duplicate())
                    } else {
                        CasDecision::ConcurrentSortKeyUpdate(
                            Some(SortKey::from_columns(names)),
                            observed_ids,
                        )
                    }
                },
            }
        },
    }
}

/// The sort key of a partition in the catalog, and what a compare-and-swap
/// does to it.
pub struct CatalogSortKey {
    pub names: Option<Seq<Seq<char>>>,
}

/// What the catalog answers to a compare-and-swap, as far as the key by
/// name goes.
pub enum CasAnswer {
    Installed,
    ValueMismatch(Option<Seq<Seq<char>>>),
}

impl CatalogSortKey {
    /// The answer to the proposal to replace `expected` by `proposed`.
    pub open spec fn answer(self, expected: Option<Seq<Seq<char>>>) -> CasAnswer {
        if self.names == expected {
            CasAnswer::Installed
        } else {
            CasAnswer::ValueMismatch(self.names)
        }
    }

    /// The key after the proposal to replace `expected` by `proposed`.
    pub open spec fn after(
        self,
        expected: Option<Seq<Seq<char>>>,
        proposed: Seq<Seq<char>>,
    ) -> CatalogSortKey {
        if self.names == expected {
            CatalogSortKey { names: Some(proposed) }
        } else {
            self
        }
    }
}

/// The key by name that a job caches after the decision `d` on its
/// proposal of `proposed`; `None` while the decision is to ask again.
pub open spec fn cached_after(proposed: Seq<Seq<char>>, d: CasDecision) -> Option<
    Option<Seq<Seq<char>>>,
> {
    match d {
        CasDecision::Done(_) => Some(Some(proposed)),
        CasDecision::Retry => None,
        CasDecision::ConcurrentSortKeyUpdate(key, _) => Some(key_view(key)),
    }
}

/// Whatever the catalog held, once a compare-and-swap was answered the job
/// caches the key that the catalog holds after it; and it goes on without
/// starting over exactly when that key is the one it proposed.
pub proof fn law_cached_key_is_catalog_key(
    catalog: CatalogSortKey,
    expected: Option<Seq<Seq<char>>>,
    proposed: Seq<Seq<char>>,
    result: CasResult,
    d: CasDecision,
)
    requires
        match catalog.answer(expected) {
            CasAnswer::Installed => result is Installed,
            CasAnswer::ValueMismatch(found) => result matches CasResult::ValueMismatch(
                observed,
                _,
            ) && optional_names(observed) == found,
        },
        match result {
            CasResult::Installed => d is Done,
            CasResult::QueryError(_) => d is Retry,
            CasResult::ValueMismatch(observed, _) => if optional_names(observed) == Some(
                proposed,
            ) {
                d is Done
            } else {
                d matches CasDecision::ConcurrentSortKeyUpdate(key, _) && key_view(key)
                    == optional_names(observed)
            },
        },
    ensures
        cached_after(proposed, d) == Some(catalog.after(expected, proposed).names),
        d is Done <==> catalog.after(expected, proposed).names == Some(proposed),
{
}

/// Where a persist job stands.
#[derive(Debug, Clone, Copy, PartialEq, Eq, Structural)]
pub enum PersistPhase {
    /// The snapshot is to be compacted and the file uploaded.
    CompactAndUpload,
    /// The file is uploaded; the sort key in the catalog is to be updated.
    UpdateSortKey,
    /// The file is to be registered in the catalog.
    RegisterFile,
    /// The completion is to be announced.
    Notify,
    /// Nothing is left to do.
    Complete,
}

/// A persist job as a mathematical value.
pub struct PersistJobView {
    pub phase: PersistPhase,
    /// How many files were uploaded.
    pub uploads: nat,
    /// How many times the job started over after a concurrent update.
    pub restarts: nat,
}

/// What happens to a persist job.
pub enum PersistEvent {
    /// A file was uploaded; with whether the catalog's sort key has to be
    /// updated for it.
    Uploaded(bool),
    /// The catalog's sort key is the proposed one.
    SortKeyDone,
    /// The catalog is to be asked again.
    SortKeyRetry,
    /// Another job changed the sort key.
    SortKeyConcurrent,
    /// The file was registered.
    Registered,
    /// The completion was announced.
    Notified,
}

impl PersistJobView {
    /// A job that has done nothing yet.
    pub open spec fn initial() -> PersistJobView {
        PersistJobView { phase: PersistPhase::CompactAndUpload, uploads: 0, restarts: 0 }
    }

    /// Whether `event` can happen to the job in its phase.
    pub open spec fn enabled(self, event: PersistEvent) -> bool {
        match event {
            PersistEvent::Uploaded(_) => self.phase == PersistPhase::CompactAndUpload,
            PersistEvent::SortKeyDone => self.phase == PersistPhase::UpdateSortKey,
            PersistEvent::SortKeyRetry => self.phase == PersistPhase::UpdateSortKey,
            PersistEvent::SortKeyConcurrent => self.phase == PersistPhase::UpdateSortKey,
            PersistEvent::Registered => self.phase == PersistPhase::RegisterFile,
            PersistEvent::Notified => self.phase == PersistPhase::Notify,
        }
    }

    /// The job after `event`; unchanged when the event cannot happen in
    /// its phase.
    pub open spec fn step(self, event: PersistEvent) -> PersistJobView {
        if !self.enabled(event) {
            self
        } else {
            match event {
                PersistEvent::Uploaded(needs_update) => PersistJobView {
                    phase: if needs_update {
                        PersistPhase::UpdateSortKey
                    } else {
                        PersistPhase::RegisterFile
                    },
                    uploads: self.uploads + 1,
                    ..self
                },
                PersistEvent::SortKeyDone => PersistJobView {
                    phase: PersistPhase::RegisterFile,
                    ..self
                },
                PersistEvent::SortKeyRetry => self,
                PersistEvent::SortKeyConcurrent => PersistJobView {
                    phase: PersistPhase::CompactAndUpload,
                    restarts: self.restarts + 1,
                    ..self
                },
                PersistEvent::Registered => PersistJobView { phase: PersistPhase::Notify, ..self },
                PersistEvent::Notified => PersistJobView { phase: PersistPhase::Complete, ..self },
            }
        }
    }

    /// The uploads of a job are its restarts, and one more once the file of
    /// the current attempt is uploaded.
    pub open spec fn inv(self) -> bool {
        self.uploads == self.restarts + if self.phase == PersistPhase::CompactAndUpload {
            0nat
        } else {
            1nat
        }
    }
}

/// The job after `events` happened in turn.
pub open spec fn run_job(v: PersistJobView, events: Seq<PersistEvent>) -> PersistJobView
    decreases events.len(),
{
    if events.len() == 0 {
        v
    } else {
        run_job(v, events.drop_last()).step(events.last())
    }
}

/// Whatever happens to a job, a job that started over `k` times has
/// uploaded `k + 1` files by the time it registers its file, and `k` files
/// while it compacts again.
pub proof fn law_uploads_are_restarts_plus_one(events: Seq<PersistEvent>)
    ensures
        run_job(PersistJobView::initial(), events).inv(),
        run_job(PersistJobView::initial(), events).phase != PersistPhase::CompactAndUpload
            ==> run_job(PersistJobView::initial(), events).uploads == run_job(
            PersistJobView::initial(),
            events,
        ).restarts + 1,
    decreases events.len(),
{
    if events.len() > 0 {
        law_uploads_are_restarts_plus_one(events.drop_last());
    }
}

/// What a file is stored under and with: the description that goes into
/// the file and, with the sizes known after the upload, into the catalog.
#[derive(Debug)]
pub struct IoxMetadata {
    pub object_store_id: u128,
    pub creation_timestamp: i64,
    pub namespace_id: i64,
    pub table_id: i64,
    pub partition_id: i64,
    pub partition_key: String,
    pub compaction_level: CompactionLevel,
    pub sort_key: Option<SortKey>,
    pub max_l0_created_at: i64,
}

/// Whether `id` has the version and variant bits of a random (version 4)
/// UUID.
pub open spec fn is_random_uuid(id: u128) -> bool {
    id & 0xF000_C000_0000_0000_0000u128 == 0x4000_8000_0000_0000_0000u128
}

/// A fresh random UUID, as a number. Calls `uuid::Uuid::new_v4`, which
/// draws 128 bits from the operating system and overwrites the version and
/// variant bits, and `Uuid::as_u128`. Of the result only those fixed bits
/// are claimed. The call aborts if the operating system has no randomness
/// to give.
#[verifier::external_body]
fn random_uuid() -> (id: u128)
    ensures
        is_random_uuid(id),
{
    uuid::Uuid::new_v4().as_u128()
}

/// What came back from storing a file.
#[derive(Debug, Clone, Copy, PartialEq, Eq, Structural)]
pub struct UploadedFile {
    pub file_size_bytes: u64,
    pub row_count: i64,
    pub min_time: i64,
    pub max_time: i64,
}

impl IoxMetadata {
    /// The description of a file that a persist job is about to write for
    /// the partition, sorted by `data_sort_key`: a file of the initial
    /// level, created now, under a fresh random object store id.
    pub fn for_persist(partition: &PartitionData, data_sort_key: SortKey, now: i64) -> (m: Self)
        ensures
            is_random_uuid(m.object_store_id),
            m.creation_timestamp == now,
            m.max_l0_created_at == now,
            m.namespace_id == partition.spec_namespace_id(),
            m.table_id == partition.spec_table_id(),
            m.partition_id == partition.spec_partition_id(),
            m.partition_key@ == partition.spec_partition_key(),
            m.compaction_level == CompactionLevel::Initial,
            key_view(m.sort_key) == Some(data_sort_key@),
    {
        IoxMetadata {
            object_store_id: random_uuid(),
            creation_timestamp: now,
            namespace_id: partition.namespace_id(),
            table_id: partition.table_id(),
            partition_id: partition.partition_id(),
            partition_key: partition.partition_key().clone(),
            compaction_level: CompactionLevel::Initial,
            sort_key: Some(data_sort_key),
            max_l0_created_at: now,
        }
    }

    /// The row to insert into the catalog for the file, once it is stored.
    pub fn to_parquet_file(&self, uploaded: UploadedFile) -> (p: ParquetFileParams)
        requires
            uploaded.file_size_bytes <= i64::MAX,
        ensures
            p == (ParquetFileParams {
                partition_id: self.partition_id,
                object_store_id: self.object_store_id,
                min_time: uploaded.min_time,
                max_time: uploaded.max_time,
                file_size_bytes: uploaded.file_size_bytes as i64,
                row_count: uploaded.row_count,
                compaction_level: self.compaction_level,
                created_at: self.creation_timestamp,
            }),
    {
        ParquetFileParams {
            partition_id: self.partition_id,
            object_store_id: self.object_store_id,
            min_time: uploaded.min_time,
            max_time: uploaded.max_time,
            file_size_bytes: uploaded.file_size_bytes as i64,
            row_count: uploaded.row_count,
            compaction_level: self.compaction_level,
            created_at: self.creation_timestamp,
        }
    }
}

/// What a job does after an upload.
#[derive(Debug)]
pub enum AfterUpload {
    /// Propose this key to the catalog, with these column ids, in place of
    /// the key the job compacted with.
    UpdateSortKey(SortKey, SortedColumnSet),
    /// Register the file.
    RegisterFile,
}

/// One persist job: its phase, and how often it uploaded and started over.
#[derive(Debug)]
pub struct PersistJob {
    phase: PersistPhase,
    uploads: u64,
    restarts: u64,
}

impl View for PersistJob {
    type V = PersistJobView;

    closed spec fn view(&self) -> PersistJobView {
        PersistJobView {
            phase: self.phase,
            uploads: self.uploads as nat,
            restarts: self.restarts as nat,
        }
    }
}

impl PersistJob {
    /// A job that has done nothing yet.
    pub fn new() -> (j: Self)
        ensures
            j@ == PersistJobView::initial(),
    {
        PersistJob { phase: PersistPhase::CompactAndUpload, uploads: 0, restarts: 0 }
    }

    /// Where the job stands.
    pub fn phase(&self) -> (p: PersistPhase)
        ensures
            p == self@.phase,
    {
        self.phase
    }

    /// How many files the job uploaded.
    pub fn uploads(&self) -> (n: u64)
        ensures
            n == self@.uploads,
    {
        self.uploads
    }

    /// How many times the job started over.
    pub fn restarts(&self) -> (n: u64)
        ensures
            n == self@.restarts,
    {
        self.restarts
    }

    /// Takes note of an upload. When the compaction found that the sort key
    /// has to grow to `sort_key_update`, the catalog comes next, with the
    /// ids that `columns` gives to the columns of the new key; otherwise
    /// the file is registered.
    pub fn uploaded(&mut self, sort_key_update: Option<SortKey>, columns: &ColumnsByName) -> (next:
        AfterUpload)
        requires
            old(self)@.phase == PersistPhase::CompactAndUpload,
            old(self)@.uploads < u64::MAX,
            sort_key_update matches Some(key) ==> all_known(columns.columns@, key@),
        ensures
            final(self)@ == old(self)@.step(PersistEvent::Uploaded(sort_key_update is Some)),
            match sort_key_update {
                None => next is RegisterFile,
                Some(key) => next matches AfterUpload::UpdateSortKey(proposed, ids) && proposed@
                    == key@ && ids@ == column_ids(columns.columns@, key@),
            },
    {
        self.uploads = self.uploads + 1;
        match sort_key_update {
            None => {
                self.phase = PersistPhase::RegisterFile;
                AfterUpload::RegisterFile
            },
            Some(key) => {
                self.phase = PersistPhase::UpdateSortKey;
                let ids = columns.ids_for_names(&key.columns);
                AfterUpload::UpdateSortKey(key, ids)
            },
        }
    }

    /// Acts on the catalog's answer to the proposal of `new_sort_key`.
    ///
    /// On success the partition caches the proposed key and the file is
    /// registered next. On a concurrent update the partition caches the key
    /// that was found, the error names it, and the job starts over from the
    /// compaction. While the catalog has to be asked again nothing changes
    /// and `Ok(false)` is returned.
    pub fn sort_key_answered(
        &mut self,
        partition: &mut PartitionData,
        new_sort_key: SortKey,
        new_sort_key_ids: &SortedColumnSet,
        result: CasResult,
    ) -> (res: Result<bool, (Option<SortKey>, SortedColumnSet)>)
        requires
            old(self)@.phase == PersistPhase::UpdateSortKey,
            old(self)@.restarts < u64::MAX,
            new_sort_key@.len() == new_sort_key_ids@.len(),
            result matches CasResult::ValueMismatch(observed, ids) ==> optional_names(observed)
                != Some(new_sort_key@) ==> observed is Some && names_view(observed->0@).len()
                == ids@.len(),
        ensures
            final(partition)@ == old(partition)@,
            final(partition).wf() == old(partition).wf(),
            final(partition).spec_partition_id() == old(partition).spec_partition_id(),
            final(partition).spec_partition_key() == old(partition).spec_partition_key(),
            final(partition).spec_namespace_id() == old(partition).spec_namespace_id(),
            final(partition).spec_table_id() == old(partition).spec_table_id(),
            match result {
                CasResult::QueryError(_) => {
                    &&& res == Ok::<bool, (Option<SortKey>, SortedColumnSet)>(false)
                    &&& final(self)@ == old(self)@.step(PersistEvent::SortKeyRetry)
                    &&& final(partition).spec_sort_key() == old(partition).spec_sort_key()
                },
                _ => if cas_succeeded(new_sort_key@, result) {
                    &&& res == Ok::<bool, (Option<SortKey>, SortedColumnSet)>(true)
                    &&& final(self)@ == old(self)@.step(PersistEvent::SortKeyDone)
                    &&& final(partition).spec_sort_key() == SortKeyStateView::Provided(
                        Some(new_sort_key@),
                        Some(new_sort_key_ids@),
                    )
                } else {
                    &&& res matches Err(found)
                    &&& result matches CasResult::ValueMismatch(observed, ids)
                    &&& key_view(found.0) == optional_names(observed)
                    &&& found.1@ == ids@
                    &&& final(self)@ == old(self)@.step(PersistEvent::SortKeyConcurrent)
                    &&& final(partition).spec_sort_key() == SortKeyStateView::Provided(
                        optional_names(observed),
                        Some(ids@),
                    )
                },
            },
    {
        match decide_cas(&new_sort_key, new_sort_key_ids, result) {
            CasDecision::Done(ids) => {
                partition.update_sort_key(Some(new_sort_key), ids);
                self.phase = PersistPhase::RegisterFile;
                Ok(true)
            },
            CasDecision::Retry => Ok(false),
            CasDecision::ConcurrentSortKeyUpdate(key, ids) => {
                let cached_key = copy_key(&key);
                let cached_ids = ids.duplicate();
                partition.update_sort_key(cached_key, cached_ids);
                self.phase = PersistPhase::CompactAndUpload;
                self.restarts = self.restarts + 1;
                Err((key, ids))
            },
        }
    }

    /// Takes note of the row the catalog made for the file. A file that was
    /// just created is never marked for deletion.
    pub fn registered(&mut self, file: &ParquetFile)
        requires
            old(self)@.phase == PersistPhase::RegisterFile,
            file.to_delete is None,
        ensures
            final(self)@ == old(self)@.step(PersistEvent::Registered),
    {
        self.phase = PersistPhase::Notify;
    }

    /// Takes note that the completion was announced.
    pub fn notified(&mut self)
        requires
            old(self)@.phase == PersistPhase::Notify,
        ensures
            final(self)@ == old(self)@.step(PersistEvent::Notified),
    {
        self.phase = PersistPhase::Complete;
    }
}

} // verus!
