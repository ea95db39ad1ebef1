//! The columns that buffered rows have.

use vstd::prelude::*;
use crate::ingester::batch::{fields_view, rows_view, time_column, FieldView, Row, RowView};
use crate::name_set::NameSet;

verus! {

/// The names of `fields`.
pub open spec fn fields_columns(fields: Seq<FieldView>) -> Set<Seq<char>>
    decreases fields.len(),
{
    if fields.len() == 0 {
        Set::empty()
    } else {
        fields_columns(fields.drop_last()).insert(fields.last().name)
    }
}

/// The columns of `row`: the names of its fields, and the time column if
/// the row has a timestamp.
pub open spec fn row_columns(row: RowView) -> Set<Seq<char>> {
    if row.time is Some {
        fields_columns(row.fields).insert(time_column())
    } else {
        fields_columns(row.fields)
    }
}

/// The columns that any of `rows` has.
pub open spec fn rows_columns(rows: Seq<RowView>) -> Set<Seq<char>>
    decreases rows.len(),
{
    if rows.len() == 0 {
        Set::empty()
    } else {
        rows_columns(rows.drop_last()).union(row_columns(rows.last()))
    }
}

/// The columns that any row of any of `batches` has.
pub open spec fn batches_columns(batches: Seq<Seq<RowView>>) -> Set<Seq<char>>
    decreases batches.len(),
{
    if batches.len() == 0 {
        Set::empty()
    } else {
        batches_columns(batches.drop_last()).union(rows_columns(batches.last()))
    }
}

/// The columns of pushed batches add up.
pub proof fn lemma_batches_columns_push(batches: Seq<Seq<RowView>>, rows: Seq<RowView>)
    ensures
        batches_columns(batches.push(rows)) == batches_columns(batches).union(rows_columns(rows)),
{
    assert(batches.push(rows).drop_last() =~= batches);
}

/// Adds the columns of `row` to `columns`.
pub fn add_row_columns(columns: &mut NameSet, row: &Row)
    ensures
        final(columns)@ == old(columns)@.union(row_columns(row@)),
{
    let ghost fields = fields_view(row.fields@);
    let mut i: usize = 0;
    while i < row.fields.len()
        invariant
            i <= row.fields@.len(),
            fields == fields_view(row.fields@),
            columns@ == old(columns)@.union(fields_columns(fields.subrange(0, i as int))),
        decreases row.fields@.len() - i,
    {
        proof {
            assert(fields.subrange(0, i + 1).drop_last() =~= fields.subrange(0, i as int));
        }
        columns.insert(row.fields[i].name.clone());
        i = i + 1;
    }
    assert(fields.subrange(0, i as int) =~= fields);
    match row.time {
        None => {},
        Some(_) => {
            columns.insert("time".to_owned());
        },
    }
}

/// Adds the columns of `rows` to `columns`.
pub fn add_rows_columns(columns: &mut NameSet, rows: &Vec<Row>)
    ensures
        final(columns)@ == old(columns)@.union(rows_columns(rows_view(rows@))),
{
    let ghost all = rows_view(rows@);
    let mut i: usize = 0;
    while i < rows.len()
        invariant
            i <= rows@.len(),
            all == rows_view(rows@),
            columns@ == old(columns)@.union(rows_columns(all.subrange(0, i as int))),
        decreases rows@.len() - i,
    {
        proof {
            assert(all.subrange(0, i + 1).drop_last() =~= all.subrange(0, i as int));
        }
        add_row_columns(columns, &rows[i]);
        i = i + 1;
    }
    assert(all.subrange(0, i as int) =~= all);
}

} // verus!
