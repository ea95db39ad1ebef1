//! The live buffer of a partition: the rows written since the last
//! snapshot, with the sequence numbers of the writes that brought them.

use vstd::prelude::*;
use crate::ingester::batch::{
    merge_timestamp_ranges, project_row, project_rows, projection_keeps, rows_view,
    timestamp_range, FieldView, OwnedProjection, Row, RowView, TimestampMinMax,
};
use crate::ingester::schema::{add_rows_columns, rows_columns};
use crate::name_set::NameSet;
use crate::ingester::sequence::{SequenceNumber, SequenceNumberSet};

verus! {

/// The rows of one write.
#[derive(Debug, Clone, PartialEq, Eq)]
pub struct MutableBatch {
    pub rows: Vec<Row>,
}

impl View for MutableBatch {
    type V = Seq<RowView>;

    open spec fn view(&self) -> Seq<RowView> {
        rows_view(self.rows@)
    }
}

/// Rows as a reader receives them: immutable, and possibly projected.
#[derive(Debug, Clone, PartialEq, Eq)]
pub struct RecordBatch {
    pub rows: Vec<Row>,
}

impl View for RecordBatch {
    type V = Seq<RowView>;

    open spec fn view(&self) -> Seq<RowView> {
        rows_view(self.rows@)
    }
}

/// Whether every row has a timestamp, as every written row must.
pub open spec fn all_timed(rows: Seq<RowView>) -> bool {
    forall|i: int| 0 <= i < rows.len() ==> (#[trigger] rows[i]).time is Some
}

impl MutableBatch {
    /// Whether every row of the batch has a timestamp.
    pub fn is_timed(&self) -> (b: bool)
        ensures
            b == all_timed(self@),
    {
        let mut i: usize = 0;
        while i < self.rows.len()
            invariant
                i <= self.rows@.len(),
                forall|j: int| 0 <= j < i ==> (#[trigger] self@[j]).time is Some,
            decreases self.rows@.len() - i,
        {
            if self.rows[i].time.is_none() {
                assert(self@[i as int].time is None);
                return false;
            }
            i = i + 1;
        }
        true
    }
}

/// A projection onto every column changes nothing.
pub proof fn lemma_project_all(rows: Seq<RowView>)
    ensures
        project_rows(rows, None) == rows,
{
    assert forall|i: int| 0 <= i < rows.len() implies project_row(#[trigger] rows[i], None)
        == rows[i] by {
        lemma_filter_everything(rows[i].fields, |f: FieldView| projection_keeps(None, f.name));
    }
}

/// A filter that every element passes keeps the sequence as it is.
pub proof fn lemma_filter_everything<A>(s: Seq<A>, pred: spec_fn(A) -> bool)
    requires
        forall|i: int| 0 <= i < s.len() ==> pred(#[trigger] s[i]),
    ensures
        s.filter(pred) == s,
    decreases s.len(),
{
    reveal(Seq::filter);
    if s.len() > 0 {
        lemma_filter_everything(s.drop_last(), pred);
    }
}

/// The rows of `rows` as read through `projection`, in the same order.
pub fn copy_rows(rows: &Vec<Row>, projection: &OwnedProjection) -> (out: Vec<Row>)
    ensures
        rows_view(out@) == project_rows(rows_view(rows@), projection@),
{
    let mut out: Vec<Row> = Vec::new();
    let mut i: usize = 0;
    while i < rows.len()
        invariant
            i <= rows@.len(),
            rows_view(out@) == project_rows(rows_view(rows@.subrange(0, i as int)), projection@),
        decreases rows@.len() - i,
    {
        out.push(projection.project(&rows[i]));
        proof {
            assert(project_rows(rows_view(rows@.subrange(0, i + 1)), projection@) =~= project_rows(
                rows_view(rows@.subrange(0, i as int)),
                projection@,
            ).push(project_row(rows@[i as int]@, projection@)));
        }
        i = i + 1;
    }
    out
}

/// The range of the timestamps of `rows`.
pub fn rows_timestamp_range(rows: &Vec<Row>) -> (r: Option<TimestampMinMax>)
    ensures
        r == timestamp_range(rows_view(rows@)),
{
    let mut acc: Option<TimestampMinMax> = None;
    let mut i: usize = 0;
    while i < rows.len()
        invariant
            i <= rows@.len(),
            acc == timestamp_range(rows_view(rows@.subrange(0, i as int))),
        decreases rows@.len() - i,
    {
        let point = match rows[i].time {
            None => None,
            Some(t) => Some(TimestampMinMax { min: t, max: t }),
        };
        proof {
            let next = rows_view(rows@.subrange(0, i + 1));
            assert(next.drop_last() =~= rows_view(rows@.subrange(0, i as int)));
        }
        acc = merge_timestamp_ranges(acc, point);
        i = i + 1;
    }
    assert(rows@.subrange(0, i as int) =~= rows@);
    acc
}

/// Rows together with the sequence numbers of the writes they came from.
#[derive(Debug)]
pub struct BufferedData {
    pub rows: Vec<Row>,
    pub sequence_numbers: SequenceNumberSet,
}

/// [`BufferedData`] as a mathematical value.
pub struct BufferedDataView {
    pub rows: Seq<RowView>,
    pub sequence_numbers: Set<u64>,
}

impl View for BufferedData {
    type V = BufferedDataView;

    open spec fn view(&self) -> BufferedDataView {
        BufferedDataView {
            rows: rows_view(self.rows@),
            sequence_numbers: self.sequence_numbers@,
        }
    }
}

/// The live buffer: nothing yet, or the rows of the writes so far.
#[derive(Debug)]
pub enum DataBuffer {
    Empty,
    Buffering(BufferedData),
}

impl View for DataBuffer {
    type V = BufferedDataView;

    open spec fn view(&self) -> BufferedDataView {
        match self {
            DataBuffer::Empty => BufferedDataView {
                rows: Seq::empty(),
                sequence_numbers: Set::empty(),
            },
            DataBuffer::Buffering(d) => d@,
        }
    }
}

impl DataBuffer {
    /// A buffer that holds rows is in the buffering state.
    pub open spec fn wf(&self) -> bool {
        self matches DataBuffer::Buffering(d) ==> d.rows@.len() > 0
    }

    /// The empty buffer.
    pub fn new() -> (b: Self)
        ensures
            b.wf(),
            b@.rows.len() == 0,
            b@.sequence_numbers == Set::<u64>::empty(),
    {
        DataBuffer::Empty
    }

    /// Appends the rows of `mb`, written under `sequence_number`.
    pub fn buffer_write(&mut self, mb: MutableBatch, sequence_number: SequenceNumber)
        requires
            old(self).wf(),
            mb@.len() > 0,
        ensures
            final(self).wf(),
            final(self)@.rows == old(self)@.rows + mb@,
            final(self)@.sequence_numbers == old(self)@.sequence_numbers.insert(
                sequence_number.0,
            ),
    {
        let mut current = DataBuffer::Empty;
        core::mem::swap(self, &mut current);
        let mut incoming = mb.rows;
        match current {
            DataBuffer::Empty => {
                let mut sequence_numbers = SequenceNumberSet::new();
                sequence_numbers.add(sequence_number);
                *self = DataBuffer::Buffering(BufferedData { rows: incoming, sequence_numbers });
            },
            DataBuffer::Buffering(d) => {
                let mut rows = d.rows;
                let mut sequence_numbers = d.sequence_numbers;
                rows.append(&mut incoming);
                sequence_numbers.add(sequence_number);
                *self = DataBuffer::Buffering(BufferedData { rows, sequence_numbers });
            },
        }
    }

    /// The number of rows buffered.
    pub fn rows(&self) -> (n: usize)
        ensures
            n == self@.rows.len(),
    {
        match self {
            DataBuffer::Empty => 0,
            DataBuffer::Buffering(d) => d.rows.len(),
        }
    }

    /// The range of the timestamps buffered.
    pub fn timestamp_stats(&self) -> (r: Option<TimestampMinMax>)
        ensures
            r == timestamp_range(self@.rows),
    {
        match self {
            DataBuffer::Empty => None,
            DataBuffer::Buffering(d) => rows_timestamp_range(&d.rows),
        }
    }

    /// Adds the columns of the buffered rows to `columns`.
    pub fn add_columns(&self, columns: &mut NameSet)
        ensures
            final(columns)@ == old(columns)@.union(rows_columns(self@.rows)),
    {
        match self {
            DataBuffer::Empty => {},
            DataBuffer::Buffering(d) => {
                add_rows_columns(columns, &d.rows);
            },
        }
    }

    /// The buffered rows as read through `projection`; `None` when there
    /// are none.
    pub fn get_query_data(&self, projection: &OwnedProjection) -> (out: Option<RecordBatch>)
        requires
            self.wf(),
        ensures
            out is None <==> self@.rows.len() == 0,
            out matches Some(b) ==> b@ == project_rows(self@.rows, projection@),
    {
        match self {
            DataBuffer::Empty => None,
            DataBuffer::Buffering(d) => Some(RecordBatch { rows: copy_rows(&d.rows, projection) }),
        }
    }

    /// Freezes the buffer; `None` when it holds nothing.
    pub fn into_persisting(self) -> (out: Option<BufferedData>)
        requires
            self.wf(),
        ensures
            out is None <==> self@.rows.len() == 0,
            out matches Some(d) ==> d@ == self@,
    {
        match self {
            DataBuffer::Empty => None,
            DataBuffer::Buffering(d) => Some(d),
        }
    }
}

} // verus!
