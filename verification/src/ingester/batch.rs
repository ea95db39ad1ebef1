//! Rows, batches of rows, and the column projection applied when a batch is
//! read.

use vstd::prelude::*;

verus! {

/// The value of one field of a row.
#[derive(Debug, Clone, PartialEq, Eq)]
pub enum FieldValue {
    Int(i64),
    Bool(bool),
    Text(String),
}

/// A [`FieldValue`] as a mathematical value.
pub enum FieldValueView {
    Int(i64),
    Bool(bool),
    Text(Seq<char>),
}

impl View for FieldValue {
    type V = FieldValueView;

    open spec fn view(&self) -> FieldValueView {
        match self {
            FieldValue::Int(i) => FieldValueView::Int(*i),
            FieldValue::Bool(b) => FieldValueView::Bool(*b),
            FieldValue::Text(s) => FieldValueView::Text(s@),
        }
    }
}

impl FieldValue {
    /// A copy of this value.
    pub fn duplicate(&self) -> (v: Self)
        ensures
            v@ == self@,
    {
        match self {
            FieldValue::Int(i) => FieldValue::Int(*i),
            FieldValue::Bool(b) => FieldValue::Bool(*b),
            FieldValue::Text(s) => FieldValue::Text(s.clone()),
        }
    }
}

/// A named value of a row: a tag or a field of the write.
#[derive(Debug, Clone, PartialEq, Eq)]
pub struct Field {
    pub name: String,
    pub value: FieldValue,
}

/// A [`Field`] as a mathematical value.
pub struct FieldView {
    pub name: Seq<char>,
    pub value: FieldValueView,
}

impl View for Field {
    type V = FieldView;

    open spec fn view(&self) -> FieldView {
        FieldView { name: self.name@, value: self.value@ }
    }
}

impl Field {
    /// A copy of this field.
    pub fn duplicate(&self) -> (f: Self)
        ensures
            f@ == self@,
    {
        Field { name: self.name.clone(), value: self.value.duplicate() }
    }
}

/// One row: a timestamp and the values written at it. The timestamp is
/// absent only from a row that was read through a projection without the
/// time column.
#[derive(Debug, Clone, PartialEq, Eq)]
pub struct Row {
    pub time: Option<i64>,
    pub fields: Vec<Field>,
}

/// A [`Row`] as a mathematical value.
pub struct RowView {
    pub time: Option<i64>,
    pub fields: Seq<FieldView>,
}

/// The views of `fields`, in order.
pub open spec fn fields_view(fields: Seq<Field>) -> Seq<FieldView> {
    fields.map_values(|f: Field| f@)
}

/// The views of `rows`, in order.
pub open spec fn rows_view(rows: Seq<Row>) -> Seq<RowView> {
    rows.map_values(|r: Row| r@)
}

impl View for Row {
    type V = RowView;

    open spec fn view(&self) -> RowView {
        RowView { time: self.time, fields: fields_view(self.fields@) }
    }
}

/// The name of the column that holds the timestamp of a row.
pub open spec fn time_column() -> Seq<char> {
    "time"@
}

/// The least and the greatest timestamp of some rows.
#[derive(Debug, Clone, Copy, PartialEq, Eq, Structural)]
pub struct TimestampMinMax {
    pub min: i64,
    pub max: i64,
}

/// The range that covers both `a` and `b`, where an absent range covers
/// nothing.
pub open spec fn merge_ranges(
    a: Option<TimestampMinMax>,
    b: Option<TimestampMinMax>,
) -> Option<TimestampMinMax> {
    match (a, b) {
        (None, _) => b,
        (_, None) => a,
        (Some(x), Some(y)) => Some(
            TimestampMinMax {
                min: if x.min <= y.min {
                    x.min
                } else {
                    y.min
                },
                max: if x.max >= y.max {
                    x.max
                } else {
                    y.max
                },
            },
        ),
    }
}

/// The range of a single optional timestamp.
pub open spec fn point_range(time: Option<i64>) -> Option<TimestampMinMax> {
    match time {
        None => None,
        Some(t) => Some(TimestampMinMax { min: t, max: t }),
    }
}

/// The range of the timestamps of `rows`; `None` when no row has one.
pub open spec fn timestamp_range(rows: Seq<RowView>) -> Option<TimestampMinMax>
    decreases rows.len(),
{
    if rows.len() == 0 {
        None
    } else {
        merge_ranges(timestamp_range(rows.drop_last()), point_range(rows.last().time))
    }
}

/// The range that covers both `a` and `b`.
pub fn merge_timestamp_ranges(a: Option<TimestampMinMax>, b: Option<TimestampMinMax>) -> (r:
    Option<TimestampMinMax>)
    ensures
        r == merge_ranges(a, b),
{
    match (a, b) {
        (None, _) => b,
        (_, None) => a,
        (Some(x), Some(y)) => Some(
            TimestampMinMax {
                min: if x.min <= y.min {
                    x.min
                } else {
                    y.min
                },
                max: if x.max >= y.max {
                    x.max
                } else {
                    y.max
                },
            },
        ),
    }
}

/// The columns a reader asks for: all of them, or those named.
#[derive(Debug)]
pub struct OwnedProjection {
    columns: Option<Vec<String>>,
}

/// Whether a projection onto `columns` keeps the column `name`.
pub open spec fn projection_keeps(columns: Option<Seq<Seq<char>>>, name: Seq<char>) -> bool {
    match columns {
        None => true,
        Some(names) => names.contains(name),
    }
}

/// `row` as read through a projection onto `columns`.
pub open spec fn project_row(row: RowView, columns: Option<Seq<Seq<char>>>) -> RowView {
    RowView {
        time: if projection_keeps(columns, time_column()) {
            row.time
        } else {
            None
        },
        fields: row.fields.filter(|f: FieldView| projection_keeps(columns, f.name)),
    }
}

/// `rows` as read through a projection onto `columns`: as many rows, in
/// the same order.
pub open spec fn project_rows(rows: Seq<RowView>, columns: Option<Seq<Seq<char>>>) -> Seq<
    RowView,
> {
    rows.map_values(|r: RowView| project_row(r, columns))
}

/// A projection that keeps the time column keeps the range of the
/// timestamps; one that drops it leaves no range.
pub proof fn lemma_projected_range(rows: Seq<RowView>, columns: Option<Seq<Seq<char>>>)
    ensures
        timestamp_range(project_rows(rows, columns)) == if projection_keeps(
            columns,
            time_column(),
        ) {
            timestamp_range(rows)
        } else {
            None
        },
    decreases rows.len(),
{
    if rows.len() > 0 {
        assert(project_rows(rows, columns).drop_last() =~= project_rows(
            rows.drop_last(),
            columns,
        ));
        lemma_projected_range(rows.drop_last(), columns);
    }
}

/// The views of `names`, in order.
pub open spec fn names_view(names: Seq<String>) -> Seq<Seq<char>> {
    names.map_values(|s: String| s@)
}

impl View for OwnedProjection {
    type V = Option<Seq<Seq<char>>>;

    closed spec fn view(&self) -> Option<Seq<Seq<char>>> {
        match self.columns {
            None => None,
            Some(names) => Some(names_view(names@)),
        }
    }
}

impl OwnedProjection {
    /// The projection that keeps every column.
    pub fn all() -> (p: Self)
        ensures
            p@ == None::<Seq<Seq<char>>>,
    {
        OwnedProjection { columns: None }
    }

    /// The projection that keeps the columns named, and no other.
    pub fn of(columns: Vec<String>) -> (p: Self)
        ensures
            p@ == Some(names_view(columns@)),
    {
        OwnedProjection { columns: Some(columns) }
    }

    /// Whether this projection keeps the column `name`.
    pub fn keeps(&self, name: &String) -> (b: bool)
        ensures
            b == projection_keeps(self@, name@),
    {
        match &self.columns {
            None => true,
            Some(names) => {
                let mut i: usize = 0;
                while i < names.len()
                    invariant
                        i <= names@.len(),
                        self@ == Some(names_view(names@)),
                        forall|j: int| 0 <= j < i ==> names_view(names@)[j] != name@,
                    decreases names@.len() - i,
                {
                    if names[i] == *name {
                        assert(names_view(names@)[i as int] == name@);
                        return true;
                    }
                    i = i + 1;
                }
                false
            },
        }
    }

    /// Whether this projection keeps the time column.
    pub fn keeps_time(&self) -> (b: bool)
        ensures
            b == projection_keeps(self@, time_column()),
    {
        let time = "time".to_owned();
        self.keeps(&time)
    }

    /// `row` as read through this projection.
    pub fn project(&self, row: &Row) -> (out: Row)
        ensures
            out@ == project_row(row@, self@),
    {
        let ghost keep = |f: FieldView| projection_keeps(self@, f.name);
        let mut fields: Vec<Field> = Vec::new();
        let mut i: usize = 0;
        while i < row.fields.len()
            invariant
                i <= row.fields@.len(),
                keep == (|f: FieldView| projection_keeps(self@, f.name)),
                fields_view(fields@) == fields_view(row.fields@.subrange(0, i as int)).filter(keep),
            decreases row.fields@.len() - i,
        {
            let ghost before = fields_view(row.fields@.subrange(0, i as int));
            proof {
                assert(fields_view(row.fields@.subrange(0, i + 1)) =~= before.push(
                    row.fields@[i as int]@,
                ));
                before.lemma_filter_push(row.fields@[i as int]@, keep);
            }
            if self.keeps(&row.fields[i].name) {
                fields.push(row.fields[i].duplicate());
            }
            i = i + 1;
        }
        assert(row.fields@.subrange(0, i as int) =~= row.fields@);
        let time = if self.keeps_time() {
            row.time
        } else {
            None
        };
        Row { time, fields }
    }
}

} // verus!
