//! The decisions of the compaction driver: whether a partition is worked
//! on, how the plans of a branch are cut into chunks, how many permits a
//! plan asks for after it ran out of memory, and what the files of a branch
//! are once the catalog has committed a chunk.
//!
//! Running plans, moving objects and committing to the catalog is the
//! caller's part.

use vstd::prelude::*;
use vstd::string::StringExecFns;
use crate::catalog::{CompactionLevel, ParquetFile, ParquetFileParams, PartitionInfo};
use crate::compactor::file_classification::{
    CompactReason, FileClassification, FilesForProgress,
};
use crate::compactor::file_classifier::FileClassifier;
use crate::compactor::partition_filter::PartitionFilter;
use crate::compactor::possible_progress::{
    first_unsplittable, lemma_first_unsplittable, unsplittable_message, PossibleProgressFilter,
};
use crate::compactor::round_info::CompactType;
use crate::error::{ErrorContext, ErrorKind, SimpleError};

verus! {

/// How the work on a partition ended under its timeout.
#[derive(Debug)]
pub enum TimeoutWithProgress<R> {
    /// The time ran out and nothing was committed.
    NoWorkTimeOutError,
    /// The time ran out, but something was committed.
    SomeWorkTryAgain,
    /// The work ended in time, with this result.
    Completed(R),
}

/// How the work on a partition ended: `result` is what the work returned
/// if it ended in time, and `made_progress` says whether anything was
/// committed. Work that ended in time is complete, whatever it committed;
/// work that ran out of time is tried again if it committed something, and
/// is a timeout if it did not.
pub fn timeout_outcome<R>(result: Option<R>, made_progress: bool) -> (out: TimeoutWithProgress<R>)
    ensures
        out == match result {
            Some(r) => TimeoutWithProgress::Completed(r),
            None => if made_progress {
                TimeoutWithProgress::SomeWorkTryAgain
            } else {
                TimeoutWithProgress::NoWorkTimeOutError
            },
        },
{
    match result {
        Some(r) => TimeoutWithProgress::Completed(r),
        None => if made_progress {
            TimeoutWithProgress::SomeWorkTryAgain
        } else {
            TimeoutWithProgress::NoWorkTimeOutError
        },
    }
}

/// The message of a timeout without progress.
pub open spec fn timeout_message() -> Seq<char> {
    "timeout without making any progress"@
}

/// What is reported of the partition `partition_id` to the sink that
/// decides on skip-listing. A timeout without progress is an error of kind
/// [`ErrorKind::Timeout`] about the partition; a timeout after progress is
/// no error, the partition is tried again; work that ended in time reports
/// its own result.
pub fn partition_outcome(partition_id: i64, res: TimeoutWithProgress<Result<(), SimpleError>>) -> (out:
    Result<(), SimpleError>)
    ensures
        match res {
            TimeoutWithProgress::NoWorkTimeOutError => out matches Err(e) && e.spec_kind()
                == ErrorKind::Timeout && e.spec_message() == timeout_message()
                && e.spec_context() == (ErrorContext {
                partition_id: Some(partition_id),
                file_id: None,
                sequence_number: None,
            }),
            TimeoutWithProgress::SomeWorkTryAgain => out is Ok,
            TimeoutWithProgress::Completed(r) => out == r,
        },
{
    match res {
        TimeoutWithProgress::NoWorkTimeOutError => Err(
            SimpleError::new(
                ErrorKind::Timeout,
                String::from_str("timeout without making any progress"),
            ).with_context(
                ErrorContext { partition_id: Some(partition_id), file_id: None, sequence_number: None },
            ),
        ),
        TimeoutWithProgress::SomeWorkTryAgain => Ok(()),
        TimeoutWithProgress::Completed(r) => r,
    }
}

/// Decides whether a partition with these files is compacted at all. A
/// partition without files is not, and the filter is not asked; otherwise
/// the answer is the one the filter gives for the partition and its files.
pub fn should_compact<F: PartitionFilter>(
    filter: &F,
    partition_info: &PartitionInfo,
    files: &Vec<ParquetFile>,
) -> (res: Result<bool, SimpleError>)
    ensures
        files@.len() == 0 ==> res == Ok::<bool, SimpleError>(false),
        files@.len() > 0 ==> call_ensures(F::apply, (filter, partition_info, files), res),
{
    if files.len() == 0 {
        return Ok(false);
    }
    filter.apply(partition_info, files)
}

/// What a branch has to do after classification.
#[derive(Debug)]
pub enum BranchStart {
    /// Nothing: these files, which the classifier kept, are the output of
    /// the branch.
    NoProgress(Vec<ParquetFile>),
    /// The files to upgrade and to rewrite towards the target level, and
    /// the files to keep.
    Work(CompactionLevel, FilesForProgress, Vec<ParquetFile>),
}

/// Decides whether a branch has work, given what the classifier said of
/// its files. A branch with files to make progress on has work on exactly
/// those files. One without has none, and the files it keeps are its
/// output; unless one of them is too large to compact and covers a single
/// instant, in which case the partition fails as out of memory, with the
/// error of the filter.
pub fn branch_start(
    filter: &PossibleProgressFilter,
    partition_info: &PartitionInfo,
    classification: FileClassification,
) -> (res: Result<BranchStart, SimpleError>)
    ensures
        !classification.files_to_make_progress_on.spec_is_empty() ==> res == Ok::<
            BranchStart,
            SimpleError,
        >(
            BranchStart::Work(
                classification.target_level,
                classification.files_to_make_progress_on,
                classification.files_to_keep,
            ),
        ),
        classification.files_to_make_progress_on.spec_is_empty() && first_unsplittable(
            classification.files_to_keep@,
            filter.limit() as int,
        ) == classification.files_to_keep@.len() ==> res == Ok::<BranchStart, SimpleError>(
            BranchStart::NoProgress(classification.files_to_keep),
        ),
        classification.files_to_make_progress_on.spec_is_empty() && first_unsplittable(
            classification.files_to_keep@,
            filter.limit() as int,
        ) < classification.files_to_keep@.len() ==> res is Err && res->Err_0.spec_kind()
            == ErrorKind::OutOfMemory && res->Err_0.spec_message() == unsplittable_message(
            partition_info.partition_id as int,
            filter.limit(),
            classification.files_to_keep@[first_unsplittable(
                classification.files_to_keep@,
                filter.limit() as int,
            )].min_time as int,
        ),
{
    let target_level = classification.target_level;
    let progress = classification.files_to_make_progress_on;
    let keep = classification.files_to_keep;
    match filter.apply(partition_info, &progress, &keep) {
        Err(e) => Err(e),
        Ok(false) => Ok(BranchStart::NoProgress(keep)),
        Ok(true) => Ok(BranchStart::Work(target_level, progress, keep)),
    }
}

/// Classifies the files of a branch and decides whether the branch has
/// work: the result is what [`branch_start`] makes of the answer that the
/// classifier gives for the partition, the operation and the files of the
/// branch. Whatever the classifier answers: a branch that is given work has
/// files to make progress on, the files of a branch without work hold none
/// that is too large to compact and too narrow to split, and a failure is
/// out of memory.
pub fn start_branch<C: FileClassifier>(
    classifier: &C,
    filter: &PossibleProgressFilter,
    partition_info: &PartitionInfo,
    op: &CompactType,
    branch: Vec<ParquetFile>,
) -> (res: Result<BranchStart, SimpleError>)
    ensures
        exists|classification: FileClassification|
            #[trigger] call_ensures(
                C::classify,
                (classifier, partition_info, op, branch),
                classification,
            ) && is_branch_start(
                filter.limit(),
                partition_info.partition_id,
                classification,
                res,
            ),
        match res {
            Ok(BranchStart::Work(_, progress, _)) => !progress.spec_is_empty(),
            Ok(BranchStart::NoProgress(keep)) => first_unsplittable(keep@, filter.limit() as int)
                == keep@.len(),
            Err(e) => e.spec_kind() == ErrorKind::OutOfMemory,
        },
{
    let classification = classifier.classify(partition_info, op, branch);
    proof {
        lemma_first_unsplittable(classification.files_to_keep@, filter.limit() as int);
    }
    branch_start(filter, partition_info, classification)
}

/// Whether `res` is what [`branch_start`] makes of `classification` for
/// the partition `partition_id` under a filter with the limit `limit`.
pub open spec fn is_branch_start(
    limit: nat,
    partition_id: i64,
    classification: FileClassification,
    res: Result<BranchStart, SimpleError>,
) -> bool {
    let keep = classification.files_to_keep;
    if !classification.files_to_make_progress_on.spec_is_empty() {
        res == Ok::<BranchStart, SimpleError>(
            BranchStart::Work(
                classification.target_level,
                classification.files_to_make_progress_on,
                keep,
            ),
        )
    } else if first_unsplittable(keep@, limit as int) == keep@.len() {
        res == Ok::<BranchStart, SimpleError>(BranchStart::NoProgress(keep))
    } else {
        res is Err && res->Err_0.spec_kind() == ErrorKind::OutOfMemory
            && res->Err_0.spec_message() == unsplittable_message(
            partition_id as int,
            limit,
            keep@[first_unsplittable(keep@, limit as int)].min_time as int,
        )
    }
}

/// One unit of work of a branch.
#[derive(Debug)]
pub enum PlanIR {
    /// Nothing to do, and why.
    Nothing(String),
    /// Merge the files into files of the target level.
    Compact(Vec<ParquetFile>, CompactionLevel, CompactReason),
    /// Rewrite the file into several of the target level, cut at the times
    /// given.
    Split(ParquetFile, Vec<i64>, CompactionLevel),
}

impl PlanIR {
    /// The files the plan reads.
    pub open spec fn spec_input_files(&self) -> Seq<ParquetFile> {
        match self {
            PlanIR::Nothing(_) => Seq::empty(),
            PlanIR::Compact(files, _, _) => files@,
            PlanIR::Split(file, _, _) => seq![*file],
        }
    }

    /// The files the plan reads.
    pub fn input_parquet_files(&self) -> (out: Vec<ParquetFile>)
        ensures
            out@ == self.spec_input_files(),
    {
        match self {
            PlanIR::Nothing(_) => Vec::new(),
            PlanIR::Compact(files, _, _) => {
                files.clone()
            },
            PlanIR::Split(file, _, _) => {
                let mut out: Vec<ParquetFile> = Vec::new();
                out.push(*file);
                out
            },
        }
    }

    /// Whether the plan is to do nothing.
    pub fn is_nothing(&self) -> (b: bool)
        ensures
            b == (self is Nothing),
    {
        match self {
            PlanIR::Nothing(_) => true,
            _ => false,
        }
    }
}

/// The files that `plans` read, plan after plan.
pub open spec fn plan_inputs(plans: Seq<PlanIR>) -> Seq<ParquetFile>
    decreases plans.len(),
{
    if plans.len() == 0 {
        Seq::empty()
    } else {
        plan_inputs(plans.drop_last()) + plans.last().spec_input_files()
    }
}

/// The files that the plans of a chunk read, plan after plan: the files
/// that the commit of the chunk deletes.
pub fn files_to_delete(chunk: &Vec<PlanIR>) -> (out: Vec<ParquetFile>)
    ensures
        out@ == plan_inputs(chunk@),
{
    let mut out: Vec<ParquetFile> = Vec::new();
    let mut i: usize = 0;
    while i < chunk.len()
        invariant
            i <= chunk@.len(),
            out@ == plan_inputs(chunk@.subrange(0, i as int)),
        decreases chunk@.len() - i,
    {
        let mut inputs = chunk[i].input_parquet_files();
        proof {
            assert(chunk@.subrange(0, i + 1).drop_last() =~= chunk@.subrange(0, i as int));
        }
        out.append(&mut inputs);
        i = i + 1;
    }
    assert(chunk@.subrange(0, i as int) =~= chunk@);
    out
}

/// How many plans go into one chunk when `total_permits` plans may run at
/// a time: four times as many.
pub open spec fn chunk_len(total_permits: nat, plans: nat) -> nat {
    if 4 * total_permits < plans {
        4 * total_permits
    } else {
        plans
    }
}

/// Takes the next chunk off the front of `plans`: the first
/// `4 * total_permits` of them, or all if there are fewer. The chunk is
/// empty only when no plan is left.
pub fn take_chunk(plans: &mut Vec<PlanIR>, total_permits: usize) -> (chunk: Vec<PlanIR>)
    requires
        total_permits > 0,
    ensures
        chunk@ == old(plans)@.subrange(
            0,
            chunk_len(total_permits as nat, old(plans)@.len()) as int,
        ),
        final(plans)@ == old(plans)@.subrange(
            chunk_len(total_permits as nat, old(plans)@.len()) as int,
            old(plans)@.len() as int,
        ),
        old(plans)@.len() > 0 ==> chunk@.len() > 0,
{
    let wanted: usize = match total_permits.checked_mul(4) {
        Some(n) => n,
        None => usize::MAX,
    };
    let k = if wanted < plans.len() {
        wanted
    } else {
        plans.len()
    };
    let mut rest = plans.split_off(k);
    core::mem::swap(plans, &mut rest);
    rest
}

/// The chunks into which `plans` are cut when `total_permits` plans may
/// run at a time, in the order in which they are taken.
pub open spec fn chunks_of(plans: Seq<PlanIR>, total_permits: nat) -> Seq<Seq<PlanIR>>
    decreases plans.len(),
{
    if plans.len() == 0 || total_permits == 0 {
        Seq::empty()
    } else {
        let k = chunk_len(total_permits, plans.len()) as int;
        seq![plans.subrange(0, k)] + chunks_of(
            plans.subrange(k, plans.len() as int),
            total_permits,
        )
    }
}

/// The files that the commits of `chunks` delete, chunk after chunk.
pub open spec fn deleted_by(chunks: Seq<Seq<PlanIR>>) -> Seq<ParquetFile>
    decreases chunks.len(),
{
    if chunks.len() == 0 {
        Seq::empty()
    } else {
        plan_inputs(chunks[0]) + deleted_by(chunks.subrange(1, chunks.len() as int))
    }
}

/// The inputs of plans in a row are the inputs of the first plans, then
/// those of the others.
pub proof fn lemma_plan_inputs_concat(a: Seq<PlanIR>, b: Seq<PlanIR>)
    ensures
        plan_inputs(a + b) == plan_inputs(a) + plan_inputs(b),
    decreases b.len(),
{
    if b.len() > 0 {
        assert((a + b).drop_last() =~= a + b.drop_last());
        lemma_plan_inputs_concat(a, b.drop_last());
    }
}

/// However the plans of a branch are cut into chunks, the commits of the
/// chunks together delete the inputs of every plan, each once and in the
/// order of the plans: no input is left behind, and none is deleted twice.
pub proof fn law_chunks_delete_every_input_once(plans: Seq<PlanIR>, total_permits: nat)
    requires
        total_permits > 0,
    ensures
        deleted_by(chunks_of(plans, total_permits)) == plan_inputs(plans),
    decreases plans.len(),
{
    if plans.len() > 0 {
        let k = chunk_len(total_permits, plans.len()) as int;
        let head = plans.subrange(0, k);
        let rest = plans.subrange(k, plans.len() as int);
        let chunks = chunks_of(plans, total_permits);
        law_chunks_delete_every_input_once(rest, total_permits);
        assert(chunks.subrange(1, chunks.len() as int) =~= chunks_of(rest, total_permits));
        assert(head + rest =~= plans);
        lemma_plan_inputs_concat(head, rest);
    }
}

/// The plans among `plans` that have something to do, in order.
pub open spec fn runnable(plans: Seq<PlanIR>) -> Seq<PlanIR> {
    plans.filter(|p: PlanIR| !(p is Nothing))
}

/// Drops the plans that have nothing to do; the others stay in order.
pub fn runnable_plans(plans: Vec<PlanIR>) -> (out: Vec<PlanIR>)
    ensures
        out@ == runnable(plans@),
{
    let ghost all = plans@;
    let ghost keep = |p: PlanIR| !(p is Nothing);
    let mut plans = plans;
    let mut reversed: Vec<PlanIR> = Vec::new();
    // The plans are taken from the back, then put in their order.
    while plans.len() > 0
        invariant
            plans@.len() <= all.len(),
            plans@ == all.subrange(0, plans@.len() as int),
            keep == (|p: PlanIR| !(p is Nothing)),
            reversed@.reverse() == all.subrange(plans@.len() as int, all.len() as int).filter(keep),
        decreases plans@.len(),
    {
        let ghost k = plans@.len() - 1;
        let ghost tail = all.subrange(k + 1, all.len() as int);
        let p = plans.pop().unwrap();
        proof {
            assert(all.subrange(k, all.len() as int) =~= seq![p] + tail);
            tail.lemma_filter_prepend(p, keep);
        }
        if !p.is_nothing() {
            reversed.push(p);
        }
    }
    let mut out: Vec<PlanIR> = Vec::new();
    let ghost target = reversed@.reverse();
    while reversed.len() > 0
        invariant
            out@ + reversed@.reverse() == target,
        decreases reversed@.len(),
    {
        let p = reversed.pop().unwrap();
        out.push(p);
    }
    out
}

/// What the attempt to run a plan came to.
#[derive(Debug, Clone, Copy, PartialEq, Eq, Structural)]
pub enum PlanOutcome {
    /// The plan produced its files.
    Done,
    /// The plan ran out of memory.
    OutOfMemory,
    /// The plan failed otherwise.
    Failed,
}

/// The outcome that the kind of an error stands for.
pub fn outcome_of_error(error: &SimpleError) -> (o: PlanOutcome)
    ensures
        o == if error.spec_kind() == ErrorKind::OutOfMemory {
            PlanOutcome::OutOfMemory
        } else {
            PlanOutcome::Failed
        },
{
    match error.classify() {
        ErrorKind::OutOfMemory => PlanOutcome::OutOfMemory,
        _ => PlanOutcome::Failed,
    }
}

/// How many permits a plan asks for next, after it asked for `requested`
/// of `total` and ended with `outcome`: twice as many after it ran out of
/// memory, if there are that many; otherwise it is not run again.
pub open spec fn next_permits(requested: nat, total: nat, outcome: PlanOutcome) -> Option<nat> {
    if outcome == PlanOutcome::OutOfMemory && 2 * requested <= total {
        Some(2 * requested)
    } else {
        None
    }
}

/// Two to the power of `k`.
pub open spec fn pow2(k: nat) -> nat
    decreases k,
{
    if k == 0 {
        1
    } else {
        2 * pow2((k - 1) as nat)
    }
}

/// The permits a plan asks for at its attempt number `k`, counted from
/// zero, when every attempt before ran out of memory: two to the power of
/// `k` if there are that many, and no attempt is made otherwise.
pub open spec fn permits_at(k: nat, total: nat) -> Option<nat>
    decreases k,
{
    if k == 0 {
        if 1 <= total {
            Some(1)
        } else {
            None
        }
    } else {
        match permits_at((k - 1) as nat, total) {
            None => None,
            Some(r) => next_permits(r, total, PlanOutcome::OutOfMemory),
        }
    }
}

/// A plan that keeps running out of memory asks for one permit, then two,
/// then four, and so on, and never for more than there are.
pub proof fn law_permits_double(k: nat, total: nat)
    ensures
        permits_at(k, total) == if pow2(k) <= total {
            Some(pow2(k))
        } else {
            None::<nat>
        },
    decreases k,
{
    if k > 0 {
        law_permits_double((k - 1) as nat, total);
        lemma_pow2_grows((k - 1) as nat);
    }
}

/// Powers of two grow.
pub proof fn lemma_pow2_grows(k: nat)
    ensures
        pow2(k) >= 1,
        pow2(k + 1) == 2 * pow2(k),
    decreases k,
{
    if k > 0 {
        lemma_pow2_grows((k - 1) as nat);
    }
}

/// The permits a plan asks for, from one attempt to the next.
#[derive(Debug)]
pub struct PermitEscalation {
    requested: usize,
    total: usize,
}

impl PermitEscalation {
    /// The permits asked for at the current attempt; `None` when no
    /// attempt is to be made.
    pub closed spec fn current(&self) -> Option<nat> {
        if 1 <= self.requested <= self.total {
            Some(self.requested as nat)
        } else {
            None
        }
    }

    /// The permits there are.
    pub closed spec fn total(&self) -> nat {
        self.total as nat
    }

    /// The escalation of a plan under a semaphore of `total_permits`: the
    /// first attempt asks for one permit.
    pub fn new(total_permits: usize) -> (e: Self)
        ensures
            e.total() == total_permits,
            e.current() == permits_at(0, total_permits as nat),
    {
        PermitEscalation { requested: 1, total: total_permits }
    }

    /// The permits to ask for now; `None` when the plan is not to be run.
    pub fn request(&self) -> (r: Option<usize>)
        ensures
            match r {
                None => self.current() is None,
                Some(n) => self.current() == Some(n as nat),
            },
    {
        if 1 <= self.requested && self.requested <= self.total {
            Some(self.requested)
        } else {
            None
        }
    }

    /// Takes note of the outcome of the attempt, and says how many permits
    /// to ask for next; `None` when the plan is not run again, whether it
    /// is done, failed, or would need more permits than there are.
    pub fn attempted(&mut self, outcome: PlanOutcome) -> (r: Option<usize>)
        requires
            old(self).current() is Some,
        ensures
            final(self).total() == old(self).total(),
            final(self).current() == next_permits(
                old(self).current()->0,
                old(self).total(),
                outcome,
            ),
            match r {
                None => final(self).current() is None,
                Some(n) => final(self).current() == Some(n as nat),
            },
    {
        match outcome {
            PlanOutcome::OutOfMemory => {
                if self.requested <= self.total / 2 {
                    self.requested = self.requested * 2;
                    Some(self.requested)
                } else {
                    self.requested = 0;
                    None
                }
            },
            _ => {
                self.requested = 0;
                None
            },
        }
    }
}

/// The files that the catalog made of `params` under the ids it assigned,
/// pair by pair; as many as there are pairs.
pub open spec fn spec_created_files(params: Seq<ParquetFileParams>, ids: Seq<i64>) -> Seq<
    ParquetFile,
> {
    Seq::new(
        if params.len() <= ids.len() {
            params.len()
        } else {
            ids.len()
        },
        |i: int| ParquetFile::spec_from_params(params[i], ids[i]),
    )
}

/// `files` at the level `target_level`, otherwise unchanged.
pub open spec fn spec_upgraded_files(files: Seq<ParquetFile>, target_level: CompactionLevel) -> Seq<
    ParquetFile,
> {
    files.map_values(|f: ParquetFile| ParquetFile { compaction_level: target_level, ..f })
}

/// An upgrade changes the level of a file and nothing else: its id, its
/// object, its time range, its size and its rows stay. Where no file is
/// above the target level, no level goes down.
pub proof fn law_upgrade_changes_the_level_only(files: Seq<ParquetFile>, target_level: CompactionLevel)
    ensures
        spec_upgraded_files(files, target_level).len() == files.len(),
        forall|i: int|
            0 <= i < files.len() ==> (#[trigger] spec_upgraded_files(files, target_level)[i])
                == (ParquetFile { compaction_level: target_level, ..files[i] }),
        (forall|i: int|
            0 <= i < files.len() ==> (#[trigger] files[i]).compaction_level.rank()
                <= target_level.rank()) ==> forall|i: int|
            0 <= i < files.len() ==> (#[trigger] spec_upgraded_files(
                files,
                target_level,
            )[i]).compaction_level.rank() >= files[i].compaction_level.rank(),
{
}

/// `params` under the object store ids `uuids`, pair by pair; as many as
/// there are pairs.
pub open spec fn spec_with_object_store_ids(params: Seq<ParquetFileParams>, uuids: Seq<u128>) -> Seq<
    ParquetFileParams,
> {
    Seq::new(
        if params.len() <= uuids.len() {
            params.len()
        } else {
            uuids.len()
        },
        |i: int| ParquetFileParams { object_store_id: uuids[i], ..params[i] },
    )
}

/// Gives each of the files that were made public the object store id it
/// was published under.
pub fn with_object_store_ids(params: Vec<ParquetFileParams>, uuids: Vec<u128>) -> (out: Vec<
    ParquetFileParams,
>)
    ensures
        out@ == spec_with_object_store_ids(params@, uuids@),
{
    let n = if params.len() <= uuids.len() {
        params.len()
    } else {
        uuids.len()
    };
    let mut out: Vec<ParquetFileParams> = Vec::new();
    let mut i: usize = 0;
    while i < n
        invariant
            i <= n,
            n <= params@.len(),
            n <= uuids@.len(),
            out@.len() == i,
            forall|j: int|
                0 <= j < i ==> out@[j] == (ParquetFileParams {
                    object_store_id: uuids@[j],
                    ..params@[j]
                }),
        decreases n - i,
    {
        let p = params[i];
        out.push(
            ParquetFileParams {
                partition_id: p.partition_id,
                object_store_id: uuids[i],
                min_time: p.min_time,
                max_time: p.max_time,
                file_size_bytes: p.file_size_bytes,
                row_count: p.row_count,
                compaction_level: p.compaction_level,
                created_at: p.created_at,
            },
        );
        i = i + 1;
    }
    out
}

/// What a commit leaves in the catalog: the files created, each under the
/// id the commit returned for it, and the files upgraded, each at the
/// target level and otherwise as it was.
pub fn committed_files(
    file_params_to_create: Vec<ParquetFileParams>,
    created_ids: Vec<i64>,
    files_to_upgrade: Vec<ParquetFile>,
    target_level: CompactionLevel,
) -> (out: (Vec<ParquetFile>, Vec<ParquetFile>))
    ensures
        out.0@ == spec_created_files(file_params_to_create@, created_ids@),
        out.1@ == spec_upgraded_files(files_to_upgrade@, target_level),
{
    let n = if file_params_to_create.len() <= created_ids.len() {
        file_params_to_create.len()
    } else {
        created_ids.len()
    };
    let mut created: Vec<ParquetFile> = Vec::new();
    let mut i: usize = 0;
    while i < n
        invariant
            i <= n,
            n <= file_params_to_create@.len(),
            n <= created_ids@.len(),
            created@.len() == i,
            forall|j: int|
                0 <= j < i ==> created@[j] == ParquetFile::spec_from_params(
                    file_params_to_create@[j],
                    created_ids@[j],
                ),
        decreases n - i,
    {
        created.push(ParquetFile::from_params(file_params_to_create[i], created_ids[i]));
        i = i + 1;
    }
    let mut upgraded: Vec<ParquetFile> = Vec::new();
    let mut k: usize = 0;
    while k < files_to_upgrade.len()
        invariant
            k <= files_to_upgrade@.len(),
            upgraded@.len() == k,
            forall|j: int|
                0 <= j < k ==> upgraded@[j] == (ParquetFile {
                    compaction_level: target_level,
                    ..files_to_upgrade@[j]
                }),
        decreases files_to_upgrade@.len() - k,
    {
        let f = files_to_upgrade[k];
        upgraded.push(
            ParquetFile {
                id: f.id,
                partition_id: f.partition_id,
                object_store_id: f.object_store_id,
                min_time: f.min_time,
                max_time: f.max_time,
                file_size_bytes: f.file_size_bytes,
                row_count: f.row_count,
                compaction_level: target_level,
                created_at: f.created_at,
                to_delete: f.to_delete,
            },
        );
        k = k + 1;
    }
    (created, upgraded)
}

/// The ids of `files`, in order.
pub open spec fn file_ids(files: Seq<ParquetFile>) -> Seq<i64> {
    files.map_values(|f: ParquetFile| f.id)
}

/// The ids of `files`, in order.
pub fn ids_of(files: &Vec<ParquetFile>) -> (out: Vec<i64>)
    ensures
        out@ == file_ids(files@),
{
    let mut out: Vec<i64> = Vec::new();
    let mut i: usize = 0;
    while i < files.len()
        invariant
            i <= files@.len(),
            out@.len() == i,
            forall|j: int| 0 <= j < i ==> out@[j] == files@[j].id,
        decreases files@.len() - i,
    {
        out.push(files[i].id);
        i = i + 1;
    }
    out
}

/// What peers are told of a committed chunk.
#[derive(Debug, Clone, PartialEq, Eq)]
pub struct CompactionEvent {
    pub new_files: Vec<ParquetFile>,
    pub updated_file_ids: Vec<i64>,
    pub deleted_file_ids: Vec<i64>,
    pub upgraded_target_level: i32,
}

/// The event that announces a committed chunk: the files created, the ids
/// of the files upgraded and of the files deleted, and the level the
/// upgraded files now have.
pub fn compaction_event(
    created_files: &Vec<ParquetFile>,
    upgraded_files: &Vec<ParquetFile>,
    deleted_files: &Vec<ParquetFile>,
    target_level: CompactionLevel,
) -> (event: CompactionEvent)
    ensures
        event.new_files@ == created_files@,
        event.updated_file_ids@ == file_ids(upgraded_files@),
        event.deleted_file_ids@ == file_ids(deleted_files@),
        event.upgraded_target_level == target_level.rank(),
{
    let new_files = created_files.clone();
    CompactionEvent {
        new_files,
        updated_file_ids: ids_of(upgraded_files),
        deleted_file_ids: ids_of(deleted_files),
        upgraded_target_level: target_level.as_number(),
    }
}

/// The run of one branch with work: the files still to upgrade, and the
/// files the branch has produced so far.
#[derive(Debug)]
pub struct BranchRun {
    upgrade: Vec<ParquetFile>,
    files_next: Vec<ParquetFile>,
}

impl BranchRun {
    /// The files that the next commit upgrades.
    pub closed spec fn pending_upgrade(&self) -> Seq<ParquetFile> {
        self.upgrade@
    }

    /// The files produced so far.
    pub closed spec fn produced(&self) -> Seq<ParquetFile> {
        self.files_next@
    }

    /// The run of a branch that is to upgrade `upgrade`.
    pub fn new(upgrade: Vec<ParquetFile>) -> (r: Self)
        ensures
            r.pending_upgrade() == upgrade@,
            r.produced() == Seq::<ParquetFile>::empty(),
    {
        BranchRun { upgrade, files_next: Vec::new() }
    }

    /// The files to upgrade with the commit of the next chunk: all of them
    /// with the first chunk, none after.
    pub fn take_upgrade(&mut self) -> (out: Vec<ParquetFile>)
        ensures
            out@ == old(self).pending_upgrade(),
            final(self).pending_upgrade() == Seq::<ParquetFile>::empty(),
            final(self).produced() == old(self).produced(),
    {
        let mut out: Vec<ParquetFile> = Vec::new();
        core::mem::swap(&mut self.upgrade, &mut out);
        out
    }

    /// Takes note of a committed chunk: the files it created and the files
    /// it upgraded are output of the branch, in that order.
    pub fn chunk_committed(&mut self, created_files: Vec<ParquetFile>, upgraded_files: Vec<ParquetFile>)
        ensures
            final(self).produced() == old(self).produced() + created_files@ + upgraded_files@,
            final(self).pending_upgrade() == old(self).pending_upgrade(),
    {
        let mut created = created_files;
        let mut upgraded = upgraded_files;
        self.files_next.append(&mut created);
        self.files_next.append(&mut upgraded);
    }

    /// The output of the branch: what its chunks produced, then the files
    /// it kept.
    pub fn finish(self, files_to_keep: Vec<ParquetFile>) -> (out: Vec<ParquetFile>)
        ensures
            out@ == self.produced() + files_to_keep@,
    {
        let mut out = self.files_next;
        let mut keep = files_to_keep;
        out.append(&mut keep);
        out
    }
}

} // verus!
