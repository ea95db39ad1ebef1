//! The statistics of a chunk, as the query planner wants them: a row count
//! and, for each column of the schema, what is known of its values.

use vstd::prelude::*;
use crate::ingester::batch::TimestampMinMax;

verus! {

/// A single value of a column.
#[derive(Debug, Clone, PartialEq, Eq)]
pub enum ScalarValue {
    Null,
    Boolean(Option<bool>),
    Int64(Option<i64>),
    UInt64(Option<u64>),
    Utf8(Option<String>),
    /// Nanoseconds since the epoch, with the time zone of the column.
    TimestampNanosecond(Option<i64>, Option<String>),
}

/// An optional string as a mathematical value.
pub open spec fn text_view(s: Option<String>) -> Option<Seq<char>> {
    match s {
        None => None,
        Some(s) => Some(s@),
    }
}

/// A [`ScalarValue`] as a mathematical value.
pub enum ScalarValueView {
    Null,
    Boolean(Option<bool>),
    Int64(Option<i64>),
    UInt64(Option<u64>),
    Utf8(Option<Seq<char>>),
    TimestampNanosecond(Option<i64>, Option<Seq<char>>),
}

impl View for ScalarValue {
    type V = ScalarValueView;

    open spec fn view(&self) -> ScalarValueView {
        match self {
            ScalarValue::Null => ScalarValueView::Null,
            ScalarValue::Boolean(b) => ScalarValueView::Boolean(*b),
            ScalarValue::Int64(i) => ScalarValueView::Int64(*i),
            ScalarValue::UInt64(u) => ScalarValueView::UInt64(*u),
            ScalarValue::Utf8(s) => ScalarValueView::Utf8(text_view(*s)),
            ScalarValue::TimestampNanosecond(t, zone) => ScalarValueView::TimestampNanosecond(
                *t,
                text_view(*zone),
            ),
        }
    }
}

fn copy_text(s: &Option<String>) -> (out: Option<String>)
    ensures
        text_view(out) == text_view(*s),
{
    match s {
        None => None,
        Some(s) => Some(s.clone()),
    }
}

impl ScalarValue {
    /// A copy of this value.
    pub fn duplicate(&self) -> (v: Self)
        ensures
            v@ == self@,
    {
        match self {
            ScalarValue::Null => ScalarValue::Null,
            ScalarValue::Boolean(b) => ScalarValue::Boolean(*b),
            ScalarValue::Int64(i) => ScalarValue::Int64(*i),
            ScalarValue::UInt64(u) => ScalarValue::UInt64(*u),
            ScalarValue::Utf8(s) => ScalarValue::Utf8(copy_text(s)),
            ScalarValue::TimestampNanosecond(t, zone) => ScalarValue::TimestampNanosecond(
                *t,
                copy_text(zone),
            ),
        }
    }
}

/// The time zone of the values of the time column: none, the timestamps
/// are plain nanoseconds since the epoch.
pub fn time_data_timezone() -> (zone: Option<String>)
    ensures
        zone is None,
{
    None
}

/// The known least and greatest value of one column. The values need not
/// occur in any row.
#[derive(Debug, Clone, PartialEq, Eq)]
pub struct ColumnRange {
    pub min_value: ScalarValue,
    pub max_value: ScalarValue,
}

/// The range known for the column `name`.
#[derive(Debug, Clone, PartialEq, Eq)]
pub struct NamedColumnRange {
    pub name: String,
    pub range: ColumnRange,
}

/// The ranges known for some of the columns of a partition, by name.
#[derive(Debug, Clone, PartialEq, Eq)]
pub struct ColumnRanges {
    pub ranges: Vec<NamedColumnRange>,
}

/// The type of the values of a field.
#[derive(Debug, Clone, Copy, PartialEq, Eq, Structural)]
pub enum InfluxFieldType {
    Float,
    Integer,
    UInteger,
    String,
    Boolean,
}

/// The role of a column.
#[derive(Debug, Clone, Copy, PartialEq, Eq, Structural)]
pub enum InfluxColumnType {
    Tag,
    Field(InfluxFieldType),
    Timestamp,
}

/// One column of a schema.
#[derive(Debug, Clone, PartialEq, Eq)]
pub struct SchemaColumn {
    pub name: String,
    pub column_type: InfluxColumnType,
}

/// The columns of a table, in order.
#[derive(Debug, Clone, PartialEq, Eq)]
pub struct Schema {
    pub columns: Vec<SchemaColumn>,
}

/// What is known of the values of one column.
#[derive(Debug, Clone, PartialEq, Eq)]
pub struct ColumnStatistics {
    pub null_count: Option<usize>,
    pub max_value: Option<ScalarValue>,
    pub min_value: Option<ScalarValue>,
    pub distinct_count: Option<usize>,
}

/// An optional [`ScalarValue`] as a mathematical value.
pub open spec fn value_view(v: Option<ScalarValue>) -> Option<ScalarValueView> {
    match v {
        None => None,
        Some(v) => Some(v@),
    }
}

/// [`ColumnStatistics`] as a mathematical value.
pub struct ColumnStatisticsView {
    pub null_count: Option<usize>,
    pub max_value: Option<ScalarValueView>,
    pub min_value: Option<ScalarValueView>,
    pub distinct_count: Option<usize>,
}

impl View for ColumnStatistics {
    type V = ColumnStatisticsView;

    open spec fn view(&self) -> ColumnStatisticsView {
        ColumnStatisticsView {
            null_count: self.null_count,
            max_value: value_view(self.max_value),
            min_value: value_view(self.min_value),
            distinct_count: self.distinct_count,
        }
    }
}

impl ColumnStatistics {
    /// Nothing is known.
    pub open spec fn unknown() -> ColumnStatisticsView {
        ColumnStatisticsView {
            null_count: None,
            max_value: None,
            min_value: None,
            distinct_count: None,
        }
    }

    /// Nothing is known.
    pub fn default() -> (s: Self)
        ensures
            s@ == Self::unknown(),
    {
        ColumnStatistics { null_count: None, max_value: None, min_value: None, distinct_count: None }
    }
}

/// The statistics of a chunk.
#[derive(Debug, Clone, PartialEq, Eq)]
pub struct Statistics {
    pub num_rows: Option<usize>,
    pub total_byte_size: Option<usize>,
    pub column_statistics: Option<Vec<ColumnStatistics>>,
    pub is_exact: bool,
}

/// The range that `ranges` holds for the column `name`: that of the first
/// entry under the name.
pub open spec fn range_of(ranges: Seq<NamedColumnRange>, name: Seq<char>) -> Option<ColumnRange>
    decreases ranges.len(),
{
    if ranges.len() == 0 {
        None
    } else if ranges[0].name@ == name {
        Some(ranges[0].range)
    } else {
        range_of(ranges.subrange(1, ranges.len() as int), name)
    }
}

/// The range that optional `ranges` hold for the column `name`.
pub open spec fn optional_range_of(ranges: Option<ColumnRanges>, name: Seq<char>) -> Option<
    ColumnRange,
> {
    match ranges {
        None => None,
        Some(r) => range_of(r.ranges@, name),
    }
}

/// What is known of `column`, given the range of the timestamps of the
/// chunk and the ranges known of the columns of its partition.
///
/// The time column has no nulls. Its range is the range of the timestamps
/// if that is given, and else the range known for the column. Of any other
/// column the known range is reported, and nothing more.
pub open spec fn column_statistics_of(
    column: SchemaColumn,
    ts_min_max: Option<TimestampMinMax>,
    ranges: Option<ColumnRanges>,
) -> ColumnStatisticsView {
    let range = optional_range_of(ranges, column.name@);
    match column.column_type {
        InfluxColumnType::Timestamp => match ts_min_max {
            Some(ts) => ColumnStatisticsView {
                null_count: Some(0),
                max_value: Some(ScalarValueView::TimestampNanosecond(Some(ts.max), None)),
                min_value: Some(ScalarValueView::TimestampNanosecond(Some(ts.min), None)),
                distinct_count: None,
            },
            None => ColumnStatisticsView {
                null_count: Some(0),
                max_value: match range {
                    None => None,
                    Some(r) => Some(r.max_value@),
                },
                min_value: match range {
                    None => None,
                    Some(r) => Some(r.min_value@),
                },
                distinct_count: None,
            },
        },
        _ => match range {
            None => ColumnStatistics::unknown(),
            Some(r) => ColumnStatisticsView {
                null_count: None,
                max_value: Some(r.max_value@),
                min_value: Some(r.min_value@),
                distinct_count: None,
            },
        },
    }
}

impl ColumnRanges {
    /// The range known for the column `name`, if any.
    pub fn get(&self, name: &String) -> (out: Option<&ColumnRange>)
        ensures
            match out {
                None => range_of(self.ranges@, name@) is None,
                Some(r) => range_of(self.ranges@, name@) == Some(*r),
            },
    {
        let mut i: usize = 0;
        assert(self.ranges@.subrange(0, self.ranges@.len() as int) =~= self.ranges@);
        while i < self.ranges.len()
            invariant
                i <= self.ranges@.len(),
                range_of(self.ranges@, name@) == range_of(
                    self.ranges@.subrange(i as int, self.ranges@.len() as int),
                    name@,
                ),
            decreases self.ranges@.len() - i,
        {
            let ghost rest = self.ranges@.subrange(i as int, self.ranges@.len() as int);
            if self.ranges[i].name == *name {
                return Some(&self.ranges[i].range);
            }
            assert(rest.subrange(1, rest.len() as int) =~= self.ranges@.subrange(
                i + 1,
                self.ranges@.len() as int,
            ));
            i = i + 1;
        }
        None
    }
}

/// The statistics of the columns of `schema`, column by column.
pub open spec fn all_column_statistics(
    schema: Schema,
    ts_min_max: Option<TimestampMinMax>,
    ranges: Option<ColumnRanges>,
) -> Seq<ColumnStatisticsView> {
    schema.columns@.map_values(|c: SchemaColumn| column_statistics_of(c, ts_min_max, ranges))
}

/// The views of `stats`, in order.
pub open spec fn statistics_view(stats: Seq<ColumnStatistics>) -> Seq<ColumnStatisticsView> {
    stats.map_values(|s: ColumnStatistics| s@)
}

fn statistics_of_column(
    column: &SchemaColumn,
    ts_min_max: Option<TimestampMinMax>,
    ranges: Option<&ColumnRanges>,
) -> (out: ColumnStatistics)
    ensures
        out@ == column_statistics_of(
            *column,
            ts_min_max,
            match ranges {
                None => None,
                Some(r) => Some(*r),
            },
        ),
{
    let range = match ranges {
        None => None,
        Some(r) => r.get(&column.name),
    };
    match column.column_type {
        InfluxColumnType::Timestamp => {
            // The range of the timestamps is preferred over the range
            // known for the column.
            let (min_value, max_value) = match ts_min_max {
                Some(ts) => (
                    Some(ScalarValue::TimestampNanosecond(Some(ts.min), time_data_timezone())),
                    Some(ScalarValue::TimestampNanosecond(Some(ts.max), time_data_timezone())),
                ),
                None => match range {
                    None => (None, None),
                    Some(r) => (Some(r.min_value.duplicate()), Some(r.max_value.duplicate())),
                },
            };
            ColumnStatistics { null_count: Some(0), max_value, min_value, distinct_count: None }
        },
        _ => match range {
            None => ColumnStatistics::default(),
            Some(r) => ColumnStatistics {
                null_count: None,
                max_value: Some(r.max_value.duplicate()),
                min_value: Some(r.min_value.duplicate()),
                distinct_count: None,
            },
        },
    }
}

/// The statistics of a chunk of `row_count` rows with the columns of
/// `schema`: exact, of unknown size in bytes, and with the statistics of
/// each column in the order of the schema.
pub fn create_chunk_statistics(
    row_count: Option<usize>,
    schema: &Schema,
    ts_min_max: Option<TimestampMinMax>,
    ranges: Option<&ColumnRanges>,
) -> (stats: Statistics)
    ensures
        stats.num_rows == row_count,
        stats.total_byte_size is None,
        stats.is_exact,
        stats.column_statistics matches Some(columns) && statistics_view(columns@)
            == all_column_statistics(
            *schema,
            ts_min_max,
            match ranges {
                None => None,
                Some(r) => Some(*r),
            },
        ),
{
    let ghost known = match ranges {
        None => None,
        Some(r) => Some(*r),
    };
    let mut columns: Vec<ColumnStatistics> = Vec::new();
    let mut i: usize = 0;
    while i < schema.columns.len()
        invariant
            i <= schema.columns@.len(),
            known == match ranges {
                None => None,
                Some(r) => Some(*r),
            },
            columns@.len() == i,
            forall|j: int|
                0 <= j < i ==> (#[trigger] columns@[j])@ == column_statistics_of(
                    schema.columns@[j],
                    ts_min_max,
                    known,
                ),
        decreases schema.columns@.len() - i,
    {
        columns.push(statistics_of_column(&schema.columns[i], ts_min_max, ranges));
        i = i + 1;
    }
    Statistics {
        num_rows: row_count,
        total_byte_size: None,
        column_statistics: Some(columns),
        is_exact: true,
    }
}

} // verus!
