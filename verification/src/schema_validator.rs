//! The service limits of a namespace: how many tables it may have, and how
//! many columns each table, checked against the schema as it is cached.

use vstd::prelude::*;
use vstd::string::StringExecFns;
use crate::error::ErrorKind;
use crate::metrics::{counter_add, U64Counter};
use crate::name_set::NameSet;
use crate::text::{decimal_nat, push_decimal};

verus! {

/// A table of a namespace, as cached.
#[derive(Debug, PartialEq, Eq)]
pub struct TableSchema {
    pub name: String,
    pub columns: NameSet,
}

/// A namespace, as cached: its tables and its limits.
#[derive(Debug, PartialEq, Eq)]
pub struct NamespaceSchema {
    pub id: i64,
    /// The tables; each name occurs once.
    pub tables: Vec<TableSchema>,
    /// How many tables the namespace may have.
    pub max_tables: usize,
    /// How many columns each table may have.
    pub max_columns_per_table: usize,
}

/// The columns that a write names for one table.
#[derive(Debug, PartialEq, Eq)]
pub struct TableColumns {
    pub table_name: String,
    pub column_names: NameSet,
}

/// A limit of a namespace that a write would exceed.
#[derive(Debug, Clone, PartialEq, Eq)]
pub enum CachedServiceProtectionLimit {
    /// The table would have more columns than a table may have.
    Column {
        /// The table that exceeds the column limit.
        table_name: String,
        /// Number of columns already in the table.
        existing_column_count: usize,
        /// Number of columns after the write.
        merged_column_count: usize,
        /// The configured limit.
        max_columns_per_table: usize,
    },
    /// The namespace would have more tables than it may have.
    Table {
        /// Number of tables already in the namespace.
        existing_table_count: usize,
        /// Number of tables after the write.
        merged_table_count: usize,
        /// The configured limit.
        table_count_limit: usize,
    },
}

/// A [`CachedServiceProtectionLimit`] as a mathematical value.
pub enum LimitView {
    Column(Seq<char>, nat, nat, nat),
    Table(nat, nat, nat),
}

impl View for CachedServiceProtectionLimit {
    type V = LimitView;

    open spec fn view(&self) -> LimitView {
        match self {
            CachedServiceProtectionLimit::Column {
                table_name,
                existing_column_count,
                merged_column_count,
                max_columns_per_table,
            } => LimitView::Column(
                table_name@,
                *existing_column_count as nat,
                *merged_column_count as nat,
                *max_columns_per_table as nat,
            ),
            CachedServiceProtectionLimit::Table {
                existing_table_count,
                merged_table_count,
                table_count_limit,
            } => LimitView::Table(
                *existing_table_count as nat,
                *merged_table_count as nat,
                *table_count_limit as nat,
            ),
        }
    }
}

/// The message that reports `limit`.
pub open spec fn limit_message(limit: LimitView) -> Seq<char> {
    match limit {
        LimitView::Column(table, existing, merged, max) => "couldn't create columns in table `"@
            + table + "`; table contains "@ + decimal_nat(existing)
            + " existing columns, applying this write would result in "@ + decimal_nat(merged)
            + " columns, limit is "@ + decimal_nat(max),
        LimitView::Table(existing, merged, max) => "couldn't create new table; namespace contains "@
            + decimal_nat(existing)
            + " existing tables, applying this write would result in "@ + decimal_nat(merged)
            + " tables, limit is "@ + decimal_nat(max),
    }
}

impl CachedServiceProtectionLimit {
    /// The message that reports this limit.
    pub fn message(&self) -> (s: String)
        ensures
            s@ == limit_message(self@),
    {
        match self {
            CachedServiceProtectionLimit::Column {
                table_name,
                existing_column_count,
                merged_column_count,
                max_columns_per_table,
            } => {
                let mut s = String::from_str("couldn't create columns in table `");
                s.append(table_name.as_str());
                s.append("`; table contains ");
                push_decimal(&mut s, *existing_column_count as u64);
                s.append(" existing columns, applying this write would result in ");
                push_decimal(&mut s, *merged_column_count as u64);
                s.append(" columns, limit is ");
                push_decimal(&mut s, *max_columns_per_table as u64);
                s
            },
            CachedServiceProtectionLimit::Table {
                existing_table_count,
                merged_table_count,
                table_count_limit,
            } => {
                let mut s = String::from_str("couldn't create new table; namespace contains ");
                push_decimal(&mut s, *existing_table_count as u64);
                s.append(" existing tables, applying this write would result in ");
                push_decimal(&mut s, *merged_table_count as u64);
                s.append(" tables, limit is ");
                push_decimal(&mut s, *table_count_limit as u64);
                s
            },
        }
    }
}

/// Why a schema was not accepted.
#[derive(Debug, Clone, PartialEq, Eq)]
pub enum SchemaError {
    /// The write would exceed a limit of the namespace.
    ServiceLimit(CachedServiceProtectionLimit),
    /// The schema of the write conflicts with that of the namespace.
    Conflict(String),
    /// The catalog failed.
    UnexpectedCatalogError(String),
}

impl SchemaError {
    /// The kind under which this error is reported.
    pub fn kind(&self) -> (k: ErrorKind)
        ensures
            k == match self {
                SchemaError::ServiceLimit(_) => ErrorKind::Limit,
                SchemaError::Conflict(_) => ErrorKind::SchemaConflict,
                SchemaError::UnexpectedCatalogError(_) => ErrorKind::Unknown,
            },
    {
        match self {
            SchemaError::ServiceLimit(_) => ErrorKind::Limit,
            SchemaError::Conflict(_) => ErrorKind::SchemaConflict,
            SchemaError::UnexpectedCatalogError(_) => ErrorKind::Unknown,
        }
    }

    /// The message that reports this error.
    pub fn message(&self) -> (s: String)
        ensures
            s@ == match self {
                SchemaError::ServiceLimit(limit) => "service limit reached: "@ + limit_message(
                    limit@,
                ),
                SchemaError::Conflict(reason) => "schema conflict: "@ + reason@,
                SchemaError::UnexpectedCatalogError(reason) => reason@,
            },
    {
        match self {
            SchemaError::ServiceLimit(limit) => {
                let mut s = String::from_str("service limit reached: ");
                let m = limit.message();
                s.append(m.as_str());
                s
            },
            SchemaError::Conflict(reason) => {
                let mut s = String::from_str("schema conflict: ");
                s.append(reason.as_str());
                s
            },
            SchemaError::UnexpectedCatalogError(reason) => reason.clone(),
        }
    }
}

/// The first of `tables` that is called `name`.
pub open spec fn table_named(tables: Seq<TableSchema>, name: Seq<char>) -> Option<TableSchema>
    decreases tables.len(),
{
    if tables.len() == 0 {
        None
    } else if tables[0].name@ == name {
        Some(tables[0])
    } else {
        table_named(tables.subrange(1, tables.len() as int), name)
    }
}

/// The limit that a write of the columns `added` to a table with the
/// columns `existing` exceeds, if any: the table would have more than
/// `max` columns, and at least one of them would be new. A write that only
/// names columns the table has is let through even when the table is over
/// the limit.
pub open spec fn column_limit(
    table_name: Seq<char>,
    existing: Set<Seq<char>>,
    added: Set<Seq<char>>,
    max: nat,
) -> Option<LimitView> {
    let merged = existing.union(added).len();
    if merged > existing.len() && merged > max {
        Some(LimitView::Column(table_name, existing.len(), merged, max))
    } else {
        None
    }
}

/// The limit that the writes `items` exceed, if any, checked one table
/// after the other; `new_tables` is the number of tables that the items
/// checked before would create.
///
/// A table the namespace has is checked for its columns. A table it does
/// not have must not bring more columns than a table may have, and must
/// not raise the number of tables over the limit of the namespace.
pub open spec fn schema_limit(
    items: Seq<TableColumns>,
    schema: NamespaceSchema,
    new_tables: nat,
) -> Option<LimitView>
    decreases items.len(),
{
    if items.len() == 0 {
        None
    } else {
        let item = items[0];
        let rest = items.subrange(1, items.len() as int);
        match table_named(schema.tables@, item.table_name@) {
            Some(table) => match column_limit(
                item.table_name@,
                table.columns@,
                item.column_names@,
                schema.max_columns_per_table as nat,
            ) {
                Some(limit) => Some(limit),
                None => schema_limit(rest, schema, new_tables),
            },
            None => if item.column_names@.len() > schema.max_columns_per_table {
                Some(
                    LimitView::Column(
                        item.table_name@,
                        0,
                        item.column_names@.len(),
                        schema.max_columns_per_table as nat,
                    ),
                )
            } else if schema.tables@.len() + new_tables + 1 > schema.max_tables {
                Some(
                    LimitView::Table(
                        schema.tables@.len(),
                        schema.tables@.len() + new_tables + 1,
                        schema.max_tables as nat,
                    ),
                )
            } else {
                schema_limit(rest, schema, new_tables + 1)
            },
        }
    }
}

/// Whether the counts that the check of `items` against `schema` computes
/// fit the machine's integers.
pub open spec fn counts_fit(items: Seq<TableColumns>, schema: NamespaceSchema) -> bool {
    &&& schema.tables@.len() + items.len() <= usize::MAX
    &&& forall|i: int, j: int|
        0 <= i < items.len() && 0 <= j < schema.tables@.len() ==> (
        #[trigger] schema.tables@[j]).columns@.len() + (#[trigger] items[i]).column_names@.len()
            <= usize::MAX
}

/// Whether the counts that the check of the writes against `schema`
/// computes fit the machine's integers.
pub fn check_counts_fit(column_names_by_table: &Vec<TableColumns>, schema: &NamespaceSchema) -> (b:
    bool)
    ensures
        b == counts_fit(column_names_by_table@, *schema),
{
    if schema.tables.len() > usize::MAX - column_names_by_table.len() {
        return false;
    }
    let mut i: usize = 0;
    while i < column_names_by_table.len()
        invariant
            i <= column_names_by_table@.len(),
            schema.tables@.len() + column_names_by_table@.len() <= usize::MAX,
            forall|a: int, j: int|
                0 <= a < i && 0 <= j < schema.tables@.len() ==> (
                #[trigger] schema.tables@[j]).columns@.len() + (
                #[trigger] column_names_by_table@[a]).column_names@.len() <= usize::MAX,
        decreases column_names_by_table@.len() - i,
    {
        let added = column_names_by_table[i].column_names.len();
        let mut j: usize = 0;
        while j < schema.tables.len()
            invariant
                j <= schema.tables@.len(),
                i < column_names_by_table@.len(),
                added == column_names_by_table@[i as int].column_names@.len(),
                forall|k: int|
                    0 <= k < j ==> (#[trigger] schema.tables@[k]).columns@.len() + added
                        <= usize::MAX,
            decreases schema.tables@.len() - j,
        {
            if schema.tables[j].columns.len() > usize::MAX - added {
                return false;
            }
            j = j + 1;
        }
        i = i + 1;
    }
    true
}

/// What is found by name is one of the tables.
pub proof fn lemma_table_named(tables: Seq<TableSchema>, name: Seq<char>)
    ensures
        table_named(tables, name) matches Some(t) ==> exists|j: int|
            0 <= j < tables.len() && tables[j] == t,
    decreases tables.len(),
{
    if tables.len() > 0 && tables[0].name@ != name {
        let rest = tables.subrange(1, tables.len() as int);
        lemma_table_named(rest, name);
    }
}

impl NamespaceSchema {
    /// The table called `name`, if the namespace has one.
    pub fn table(&self, name: &String) -> (out: Option<&TableSchema>)
        ensures
            match out {
                None => table_named(self.tables@, name@) is None,
                Some(t) => table_named(self.tables@, name@) == Some(*t),
            },
    {
        let mut i: usize = 0;
        assert(self.tables@.subrange(0, self.tables@.len() as int) =~= self.tables@);
        while i < self.tables.len()
            invariant
                i <= self.tables@.len(),
                table_named(self.tables@, name@) == table_named(
                    self.tables@.subrange(i as int, self.tables@.len() as int),
                    name@,
                ),
            decreases self.tables@.len() - i,
        {
            let ghost rest = self.tables@.subrange(i as int, self.tables@.len() as int);
            if self.tables[i].name == *name {
                return Some(&self.tables[i]);
            }
            assert(rest.subrange(1, rest.len() as int) =~= self.tables@.subrange(
                i + 1,
                self.tables@.len() as int,
            ));
            i = i + 1;
        }
        None
    }
}

/// Checks the write of the columns `column_names` to a table that has the
/// columns `existing_columns` against the limit of columns per table.
pub fn validate_column_limit(
    table_name: &String,
    existing_columns: &NameSet,
    column_names: &NameSet,
    max_columns_per_table: usize,
) -> (res: Result<(), CachedServiceProtectionLimit>)
    requires
        existing_columns@.len() + column_names@.len() <= usize::MAX,
    ensures
        match res {
            Ok(_) => column_limit(
                table_name@,
                existing_columns@,
                column_names@,
                max_columns_per_table as nat,
            ) is None,
            Err(e) => column_limit(
                table_name@,
                existing_columns@,
                column_names@,
                max_columns_per_table as nat,
            ) == Some(e@),
        },
{
    // The union of the existing columns and the columns of the write is
    // what the table would hold after the write.
    let existing_column_count = existing_columns.len();
    let merged_column_count = existing_columns.union_len(column_names);

    // A table that is over the limit still takes a write that names only
    // columns it has.
    let columns_were_added_in_this_batch = merged_column_count > existing_column_count;
    let column_limit_exceeded = merged_column_count > max_columns_per_table;

    if columns_were_added_in_this_batch && column_limit_exceeded {
        return Err(
            CachedServiceProtectionLimit::Column {
                table_name: table_name.clone(),
                merged_column_count,
                existing_column_count,
                max_columns_per_table,
            },
        );
    }
    Ok(())
}

/// Checks that the writes `column_names_by_table` leave the namespace
/// within its limits of tables and of columns per table, table after
/// table, and reports the first limit that is exceeded.
pub fn validate_schema_limits(column_names_by_table: &Vec<TableColumns>, schema: &NamespaceSchema) -> (res:
    Result<(), CachedServiceProtectionLimit>)
    requires
        counts_fit(column_names_by_table@, *schema),
    ensures
        match res {
            Ok(_) => schema_limit(column_names_by_table@, *schema, 0) is None,
            Err(e) => schema_limit(column_names_by_table@, *schema, 0) == Some(e@),
        },
{
    let ghost items = column_names_by_table@;
    // The number of tables of the write that the namespace does not have.
    let mut new_tables: usize = 0;
    let mut i: usize = 0;
    assert(items.subrange(0, items.len() as int) =~= items);
    while i < column_names_by_table.len()
        invariant
            i <= items.len(),
            items == column_names_by_table@,
            counts_fit(items, *schema),
            new_tables <= i,
            schema_limit(items, *schema, 0) == schema_limit(
                items.subrange(i as int, items.len() as int),
                *schema,
                new_tables as nat,
            ),
        decreases items.len() - i,
    {
        let ghost here = items.subrange(i as int, items.len() as int);
        proof {
            assert(here.subrange(1, here.len() as int) =~= items.subrange(
                i + 1,
                items.len() as int,
            ));
        }
        let item = &column_names_by_table[i];
        match schema.table(&item.table_name) {
            Some(table) => {
                proof {
                    lemma_table_named(schema.tables@, item.table_name@);
                }
                match validate_column_limit(
                    &item.table_name,
                    &table.columns,
                    &item.column_names,
                    schema.max_columns_per_table,
                ) {
                    Ok(_) => {},
                    Err(e) => {
                        return Err(e);
                    },
                }
            },
            None => {
                let column_count = item.column_names.len();
                if column_count > schema.max_columns_per_table {
                    // The table does not exist, so every column of the
                    // write is new.
                    return Err(
                        CachedServiceProtectionLimit::Column {
                            table_name: item.table_name.clone(),
                            merged_column_count: column_count,
                            existing_column_count: 0,
                            max_columns_per_table: schema.max_columns_per_table,
                        },
                    );
                }
                // The table must be created. The limit of tables is
                // checked only here, so that the tables the namespace has
                // stay usable when the limit is lowered under their number.
                new_tables = new_tables + 1;
                let merged_table_count = schema.tables.len() + new_tables;
                if merged_table_count > schema.max_tables {
                    return Err(
                        CachedServiceProtectionLimit::Table {
                            existing_table_count: schema.tables.len(),
                            merged_table_count,
                            table_count_limit: schema.max_tables,
                        },
                    );
                }
            },
        }
        i = i + 1;
    }
    Ok(())
}

/// Checks writes against the limits of their namespace, and counts the
/// writes that hit one.
#[derive(Debug)]
pub struct SchemaValidator {
    service_limit_hit_tables: U64Counter,
    service_limit_hit_columns: U64Counter,
    schema_conflict: U64Counter,
}

impl SchemaValidator {
    /// How many writes hit the limit of tables.
    pub closed spec fn table_hits(&self) -> u64 {
        self.service_limit_hit_tables.value
    }

    /// How many writes hit the limit of columns.
    pub closed spec fn column_hits(&self) -> u64 {
        self.service_limit_hit_columns.value
    }

    /// How many writes conflicted with the schema.
    pub closed spec fn conflicts(&self) -> u64 {
        self.schema_conflict.value
    }

    /// A validator that has counted nothing.
    pub fn new() -> (v: Self)
        ensures
            v.table_hits() == 0,
            v.column_hits() == 0,
            v.conflicts() == 0,
    {
        SchemaValidator {
            service_limit_hit_tables: U64Counter::new(),
            service_limit_hit_columns: U64Counter::new(),
            schema_conflict: U64Counter::new(),
        }
    }

    /// How many writes hit the limit of tables.
    pub fn service_limit_hit_tables(&self) -> (n: u64)
        ensures
            n == self.table_hits(),
    {
        self.service_limit_hit_tables.fetch()
    }

    /// How many writes hit the limit of columns.
    pub fn service_limit_hit_columns(&self) -> (n: u64)
        ensures
            n == self.column_hits(),
    {
        self.service_limit_hit_columns.fetch()
    }

    /// Checks that the writes leave the namespace within its limits. The
    /// check fails as a whole on the first table that exceeds a limit, and
    /// the limit that was hit is counted.
    pub fn validate_service_limits(
        &mut self,
        namespace_schema: &NamespaceSchema,
        column_names_by_table: &Vec<TableColumns>,
    ) -> (res: Result<(), SchemaError>)
        requires
            counts_fit(column_names_by_table@, *namespace_schema),
        ensures
            final(self).conflicts() == old(self).conflicts(),
            match schema_limit(column_names_by_table@, *namespace_schema, 0) {
                None => {
                    &&& res is Ok
                    &&& final(self).table_hits() == old(self).table_hits()
                    &&& final(self).column_hits() == old(self).column_hits()
                },
                Some(limit) => {
                    &&& res matches Err(SchemaError::ServiceLimit(e)) && e@ == limit
                    &&& final(self).table_hits() == if limit is Table {
                        counter_add(old(self).table_hits(), 1)
                    } else {
                        old(self).table_hits()
                    }
                    &&& final(self).column_hits() == if limit is Column {
                        counter_add(old(self).column_hits(), 1)
                    } else {
                        old(self).column_hits()
                    }
                },
            },
    {
        match validate_schema_limits(column_names_by_table, namespace_schema) {
            Ok(_) => Ok(()),
            Err(e) => Err(self.record_service_protection_limit_error(e)),
        }
    }

    fn record_service_protection_limit_error(&mut self, e: CachedServiceProtectionLimit) -> (out:
        SchemaError)
        ensures
            out == SchemaError::ServiceLimit(e),
            final(self).conflicts() == old(self).conflicts(),
            final(self).table_hits() == if e is Table {
                counter_add(old(self).table_hits(), 1)
            } else {
                old(self).table_hits()
            },
            final(self).column_hits() == if e is Column {
                counter_add(old(self).column_hits(), 1)
            } else {
                old(self).column_hits()
            },
    {
        match &e {
            CachedServiceProtectionLimit::Column { .. } => {
                self.service_limit_hit_columns.inc(1);
            },
            CachedServiceProtectionLimit::Table { .. } => {
                self.service_limit_hit_tables.inc(1);
            },
        }
        SchemaError::ServiceLimit(e)
    }
}

} // verus!
