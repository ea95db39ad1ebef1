//! What a query receives from a partition: its batches in write order.

use vstd::prelude::*;
use crate::ingester::batch::{
    lemma_projected_range, merge_ranges, merge_timestamp_ranges, project_rows, projection_keeps,
    time_column, timestamp_range, RowView, TimestampMinMax,
};
use crate::ingester::buffer::{rows_timestamp_range, RecordBatch};

verus! {

/// The views of `data`, in order.
pub open spec fn batches_view(data: Seq<RecordBatch>) -> Seq<Seq<RowView>> {
    data.map_values(|b: RecordBatch| b@)
}

/// The number of rows in all of `batches`.
pub open spec fn total_rows(batches: Seq<Seq<RowView>>) -> nat
    decreases batches.len(),
{
    if batches.len() == 0 {
        0
    } else {
        total_rows(batches.drop_last()) + batches.last().len()
    }
}

/// The range of the timestamps in all of `batches`.
pub open spec fn batches_range(batches: Seq<Seq<RowView>>) -> Option<TimestampMinMax>
    decreases batches.len(),
{
    if batches.len() == 0 {
        None
    } else {
        merge_ranges(batches_range(batches.drop_last()), timestamp_range(batches.last()))
    }
}

/// Each of `batches` as read through a projection onto `columns`.
pub open spec fn project_batches(
    batches: Seq<Seq<RowView>>,
    columns: Option<Seq<Seq<char>>>,
) -> Seq<Seq<RowView>> {
    batches.map_values(|rows: Seq<RowView>| project_rows(rows, columns))
}

/// A projection changes no row count.
pub proof fn lemma_projected_total_rows(
    batches: Seq<Seq<RowView>>,
    columns: Option<Seq<Seq<char>>>,
)
    ensures
        total_rows(project_batches(batches, columns)) == total_rows(batches),
    decreases batches.len(),
{
    if batches.len() > 0 {
        assert(project_batches(batches, columns).drop_last() =~= project_batches(
            batches.drop_last(),
            columns,
        ));
        lemma_projected_total_rows(batches.drop_last(), columns);
    }
}

/// A projection that keeps the time column keeps the range of the
/// timestamps; one that drops it leaves no range.
pub proof fn lemma_projected_batches_range(
    batches: Seq<Seq<RowView>>,
    columns: Option<Seq<Seq<char>>>,
)
    ensures
        batches_range(project_batches(batches, columns)) == if projection_keeps(
            columns,
            time_column(),
        ) {
            batches_range(batches)
        } else {
            None
        },
    decreases batches.len(),
{
    if batches.len() > 0 {
        assert(project_batches(batches, columns).drop_last() =~= project_batches(
            batches.drop_last(),
            columns,
        ));
        lemma_projected_batches_range(batches.drop_last(), columns);
        lemma_projected_range(batches.last(), columns);
    }
}

/// Row counts add up over a pushed batch.
pub proof fn lemma_total_rows_push(batches: Seq<Seq<RowView>>, rows: Seq<RowView>)
    ensures
        total_rows(batches.push(rows)) == total_rows(batches) + rows.len(),
{
    assert(batches.push(rows).drop_last() =~= batches);
}

/// Ranges merge over a pushed batch.
pub proof fn lemma_batches_range_push(batches: Seq<Seq<RowView>>, rows: Seq<RowView>)
    ensures
        batches_range(batches.push(rows)) == merge_ranges(
            batches_range(batches),
            timestamp_range(rows),
        ),
{
    assert(batches.push(rows).drop_last() =~= batches);
}

/// The data of one partition as a query sees it: at least one batch, the
/// batches in the order in which their rows were written.
#[derive(Debug)]
pub struct QueryAdaptor {
    partition_id: i64,
    data: Vec<RecordBatch>,
}

impl View for QueryAdaptor {
    type V = Seq<Seq<RowView>>;

    closed spec fn view(&self) -> Seq<Seq<RowView>> {
        batches_view(self.data@)
    }
}

impl QueryAdaptor {
    #[verifier::type_invariant]
    spec fn inv(self) -> bool {
        self.data@.len() > 0 && total_rows(batches_view(self.data@)) <= usize::MAX
    }

    /// The partition the data belongs to.
    pub closed spec fn spec_partition_id(&self) -> i64 {
        self.partition_id
    }

    /// Wraps the batches of a partition.
    pub fn new(partition_id: i64, data: Vec<RecordBatch>) -> (q: Self)
        requires
            data@.len() > 0,
            total_rows(batches_view(data@)) <= usize::MAX,
        ensures
            q@ == batches_view(data@),
            q.spec_partition_id() == partition_id,
    {
        QueryAdaptor { partition_id, data }
    }

    /// The partition the data belongs to.
    pub fn partition_id(&self) -> (id: i64)
        ensures
            id == self.spec_partition_id(),
    {
        self.partition_id
    }

    /// The batches, oldest rows first.
    pub fn record_batches(&self) -> (data: &Vec<RecordBatch>)
        ensures
            batches_view(data@) == self@,
            data@.len() > 0,
    {
        proof {
            use_type_invariant(self);
        }
        &self.data
    }

    /// The number of rows in all batches.
    pub fn num_rows(&self) -> (n: usize)
        ensures
            n == total_rows(self@),
    {
        proof {
            use_type_invariant(self);
        }
        count_rows(&self.data)
    }

    /// The range of the timestamps in all batches; `None` when the batches
    /// were read without the time column.
    pub fn ts_min_max(&self) -> (r: Option<TimestampMinMax>)
        ensures
            r == batches_range(self@),
    {
        range_of_batches(&self.data)
    }
}

/// Row counts grow with the number of batches counted.
pub proof fn lemma_total_rows_prefix(batches: Seq<Seq<RowView>>, k: int)
    requires
        0 <= k <= batches.len(),
    ensures
        total_rows(batches.subrange(0, k)) <= total_rows(batches),
    decreases batches.len() - k,
{
    if k < batches.len() {
        lemma_total_rows_prefix(batches, k + 1);
        assert(batches.subrange(0, k + 1).drop_last() =~= batches.subrange(0, k));
    } else {
        assert(batches.subrange(0, k) =~= batches);
    }
}

/// The number of rows in all of `data`.
pub fn count_rows(data: &Vec<RecordBatch>) -> (n: usize)
    requires
        total_rows(batches_view(data@)) <= usize::MAX,
    ensures
        n == total_rows(batches_view(data@)),
{
    let mut n: usize = 0;
    let mut i: usize = 0;
    while i < data.len()
        invariant
            i <= data@.len(),
            n == total_rows(batches_view(data@).subrange(0, i as int)),
            total_rows(batches_view(data@)) <= usize::MAX,
        decreases data@.len() - i,
    {
        proof {
            let all = batches_view(data@);
            assert(all.subrange(0, i + 1).drop_last() =~= all.subrange(0, i as int));
            lemma_total_rows_prefix(all, i + 1);
        }
        n = n + data[i].rows.len();
        i = i + 1;
    }
    assert(batches_view(data@).subrange(0, i as int) =~= batches_view(data@));
    n
}

/// The range of the timestamps in all of `data`.
pub fn range_of_batches(data: &Vec<RecordBatch>) -> (r: Option<TimestampMinMax>)
    ensures
        r == batches_range(batches_view(data@)),
{
    let mut acc: Option<TimestampMinMax> = None;
    let mut i: usize = 0;
    while i < data.len()
        invariant
            i <= data@.len(),
            acc == batches_range(batches_view(data@).subrange(0, i as int)),
        decreases data@.len() - i,
    {
        proof {
            let all = batches_view(data@);
            assert(all.subrange(0, i + 1).drop_last() =~= all.subrange(0, i as int));
        }
        acc = merge_timestamp_ranges(acc, rows_timestamp_range(&data[i].rows));
        i = i + 1;
    }
    assert(batches_view(data@).subrange(0, i as int) =~= batches_view(data@));
    acc
}

} // verus!
