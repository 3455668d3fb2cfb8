//! The records that go in and the report that comes out.
//!
//! Amounts are whole numbers of millionths (see [`crate::fixed`]). Totals
//! over many records are kept in `i128`, which no sum of `i64` amounts over
//! a `Vec` can leave.

use crate::fixed::{change_percentage, keeps_sign, percent_change};
use crate::name_map::NameMap;
use vstd::prelude::*;

verus! {

/// One observation of a named business measurement.
#[derive(Debug, Clone, PartialEq, Eq)]
pub struct BusinessData {
    pub id: String,
    pub timestamp: String,
    pub category: String,
    pub metric_name: String,
    pub value: i64,
    pub region: String,
    pub department: String,
}

/// What a set of records is transformed into.
#[derive(Debug, Clone)]
pub struct TransformedData {
    pub summary: DataSummary,
    pub trends: Vec<DataTrend>,
    pub comparisons: NameMap<ComparisonData>,
}

/// The aggregate view of the records.
#[derive(Debug, Clone)]
pub struct DataSummary {
    pub total_metrics: usize,
    pub average_value: i64,
    pub top_performing_category: String,
    pub regional_breakdown: NameMap<i128>,
}

/// The movement of one period.
#[derive(Debug, Clone, PartialEq, Eq)]
pub struct DataTrend {
    pub period: String,
    pub value: i64,
    pub trend_direction: TrendDirection,
}

/// A current amount held against a previous one.
#[derive(Debug, Clone, Copy, PartialEq, Eq, Structural)]
pub struct ComparisonData {
    pub current: i64,
    pub previous: i64,
    pub change_percentage: i128,
}

#[derive(Debug, Clone, Copy, PartialEq, Eq, Structural)]
pub enum TrendDirection {
    Increasing,
    Decreasing,
    Stable,
}

/// What a caller asks a report to cover.
#[derive(Debug, Clone, PartialEq, Eq)]
pub struct ReportRequest {
    pub start_date: String,
    pub end_date: String,
    pub categories: Vec<String>,
    pub regions: Vec<String>,
    pub metrics: Vec<String>,
    pub report_type: ReportType,
}

#[derive(Debug, Clone, Copy, PartialEq, Eq, Structural)]
pub enum ReportType {
    Summary,
    Detailed,
    Comparative,
    Custom,
}

impl ComparisonData {
    /// The change in percent follows from the two amounts.
    pub open spec fn consistent(self) -> bool {
        self.previous != 0 && self.change_percentage == percent_change(
            self.current as int,
            self.previous as int,
        )
    }

    /// The change in percent has the sign of the ratio of the difference to
    /// the previous amount, and is 0 only where the two amounts are equal.
    pub open spec fn shows_direction(self) -> bool {
        keeps_sign(self.current as int, self.previous as int, self.change_percentage as int)
    }

    /// Holds `current` against `previous` and works out the change in
    /// percent; `None` where `previous` is 0.
    pub fn new(current: i64, previous: i64) -> (made: Option<ComparisonData>)
        ensures
            previous == 0 <==> made is None,
            previous != 0 ==> made->0.current == current && made->0.previous == previous
                && made->0.consistent() && made->0.shows_direction(),
    {
        match change_percentage(current, previous) {
            Some(change) => Some(ComparisonData { current, previous, change_percentage: change }),
            None => None,
        }
    }
}

} // verus!
