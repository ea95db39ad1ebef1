//! Filters that decide whether a partition is compacted at all, and the
//! wrapper that counts their verdicts.

use vstd::prelude::*;
use vstd::string::StringExecFns;
use crate::catalog::{ParquetFile, PartitionInfo};
use crate::error::SimpleError;
use crate::metrics::{counter_add, U64Counter};

verus! {

/// The name of the metric under which the verdicts of the partition
/// filters are counted.
pub fn metric_name_partition_filter_count() -> (s: &'static str)
    ensures
        s@ == "iox_compactor_partition_filter_count"@,
{
    "iox_compactor_partition_filter_count"
}

/// A filter on partitions: `Ok(true)` lets the partition through,
/// `Ok(false)` filters it out.
pub trait PartitionFilter {
    /// The name of the filter, as logs and metrics show it.
    fn display(&self) -> String;

    /// The verdict on the partition with these files.
    fn apply(&self, partition_info: &PartitionInfo, files: &Vec<ParquetFile>) -> Result<
        bool,
        SimpleError,
    >;
}

/// Lets a partition through if and only if it has a file.
#[derive(Debug)]
pub struct HasFilesPartitionFilter {}

impl HasFilesPartitionFilter {
    pub fn new() -> Self {
        HasFilesPartitionFilter {  }
    }
}

impl PartitionFilter for HasFilesPartitionFilter {
    fn display(&self) -> (s: String)
        ensures
            s@ == "has_files"@,
    {
        String::from_str("has_files")
    }

    fn apply(&self, partition_info: &PartitionInfo, files: &Vec<ParquetFile>) -> (res: Result<
        bool,
        SimpleError,
    >)
        ensures
            res == Ok::<bool, SimpleError>(files@.len() > 0),
    {
        Ok(files.len() > 0)
    }
}

/// The three counters of a filter, by verdict.
#[derive(Debug, Clone, Copy, PartialEq, Eq, Structural)]
pub struct FilterCounters {
    /// How often the filter let a partition through.
    pub pass: u64,
    /// How often the filter filtered a partition out.
    pub filter: u64,
    /// How often the filter failed.
    pub error: u64,
}

impl FilterCounters {
    /// The counters after the verdict `res` was counted: the one counter
    /// that stands for the verdict is one higher, the others are as before.
    pub open spec fn count(self, res: Result<bool, SimpleError>) -> FilterCounters {
        match res {
            Ok(true) => FilterCounters { pass: counter_add(self.pass, 1), ..self },
            Ok(false) => FilterCounters { filter: counter_add(self.filter, 1), ..self },
            Err(_) => FilterCounters { error: counter_add(self.error, 1), ..self },
        }
    }
}

/// The counters of the verdicts of one filter.
#[derive(Debug, Clone, Copy, PartialEq, Eq, Structural)]
pub struct FilterMetrics {
    pub pass_counter: U64Counter,
    pub filter_counter: U64Counter,
    pub error_counter: U64Counter,
}

impl FilterMetrics {
    /// The counters as they stand.
    pub open spec fn counters(&self) -> FilterCounters {
        FilterCounters {
            pass: self.pass_counter.value,
            filter: self.filter_counter.value,
            error: self.error_counter.value,
        }
    }

    /// The counters at zero.
    pub fn new() -> (m: Self)
        ensures
            m.counters() == (FilterCounters { pass: 0, filter: 0, error: 0 }),
    {
        FilterMetrics {
            pass_counter: U64Counter::new(),
            filter_counter: U64Counter::new(),
            error_counter: U64Counter::new(),
        }
    }

    /// Counts the verdict `res` and hands it back as it came: exactly one
    /// of the three counters rises, by one.
    pub fn record(&mut self, res: Result<bool, SimpleError>) -> (out: Result<bool, SimpleError>)
        ensures
            out == res,
            final(self).counters() == old(self).counters().count(res),
    {
        match &res {
            Ok(true) => {
                self.pass_counter.inc(1);
            },
            Ok(false) => {
                self.filter_counter.inc(1);
            },
            Err(_) => {
                self.error_counter.inc(1);
            },
        }
        res
    }
}

/// A filter that counts the verdicts of another filter, and passes them on
/// as they are.
#[derive(Debug)]
pub struct MetricsPartitionFilterWrapper<T: PartitionFilter> {
    metrics: FilterMetrics,
    inner: T,
    inner_name: String,
    filter_type: String,
}

impl<T: PartitionFilter> MetricsPartitionFilterWrapper<T> {
    /// The counters as they stand.
    pub closed spec fn counters(&self) -> FilterCounters {
        self.metrics.counters()
    }

    /// The filter whose verdicts are counted.
    pub closed spec fn inner(&self) -> T {
        self.inner
    }

    /// The tag under which the verdicts are counted.
    pub closed spec fn filter_type(&self) -> Seq<char> {
        self.filter_type@
    }

    /// The name that the inner filter gave of itself when it was wrapped.
    pub closed spec fn inner_name(&self) -> Seq<char> {
        self.inner_name@
    }

    /// Wraps `inner`; the verdicts are counted from zero, tagged with
    /// `filter_type`. The name of the inner filter is the one it displays
    /// now.
    pub fn new(inner: T, filter_type: String) -> (w: Self)
        ensures
            w.counters() == (FilterCounters { pass: 0, filter: 0, error: 0 }),
            w.inner() == inner,
            w.filter_type() == filter_type@,
            exists|s: String|
                #[trigger] call_ensures(T::display, (&inner,), s) && w.inner_name() == s@,
    {
        let inner_name = inner.display();
        MetricsPartitionFilterWrapper { metrics: FilterMetrics::new(), inner, inner_name, filter_type }
    }

    /// The name of the wrapper: `metrics(`, the name of the inner filter,
    /// a comma and a space, the tag, `)`.
    pub fn display(&self) -> (s: String)
        ensures
            s@ == "metrics("@ + self.inner_name() + ", "@ + self.filter_type() + ")"@,
    {
        let mut s = String::from_str("metrics(");
        s.append(self.inner_name.as_str());
        s.append(", ");
        s.append(self.filter_type.as_str());
        s.append(")");
        s
    }

    /// How often the inner filter let a partition through.
    pub fn pass_count(&self) -> (n: u64)
        ensures
            n == self.counters().pass,
    {
        self.metrics.pass_counter.fetch()
    }

    /// How often the inner filter filtered a partition out.
    pub fn filter_count(&self) -> (n: u64)
        ensures
            n == self.counters().filter,
    {
        self.metrics.filter_counter.fetch()
    }

    /// How often the inner filter failed.
    pub fn error_count(&self) -> (n: u64)
        ensures
            n == self.counters().error,
    {
        self.metrics.error_counter.fetch()
    }

    /// Counts the verdict `res` and hands it back as it came: exactly one
    /// of the three counters rises, by one.
    pub fn record(&mut self, res: Result<bool, SimpleError>) -> (out: Result<bool, SimpleError>)
        ensures
            out == res,
            final(self).counters() == old(self).counters().count(res),
            final(self).inner() == old(self).inner(),
            final(self).inner_name() == old(self).inner_name(),
            final(self).filter_type() == old(self).filter_type(),
    {
        self.metrics.record(res)
    }

    /// Asks the inner filter for its verdict on the partition and its
    /// files, counts the verdict, and hands it on as it came.
    pub fn apply(&mut self, partition_info: &PartitionInfo, files: &Vec<ParquetFile>) -> (res:
        Result<bool, SimpleError>)
        ensures
            call_ensures(T::apply, (&old(self).inner(), partition_info, files), res),
            final(self).counters() == old(self).counters().count(res),
            final(self).inner() == old(self).inner(),
            final(self).inner_name() == old(self).inner_name(),
            final(self).filter_type() == old(self).filter_type(),
    {
        let res = self.inner.apply(partition_info, files);
        self.record(res)
    }
}

} // verus!
