//! From records to a report: sample records, and the transformation of
//! records into a summary, trends and comparisons.

use crate::data_models::{BusinessData, ComparisonData, DataTrend, TransformedData};
use crate::draws::{
    comparisons_from, is_comparison_set, is_comparisons_of, is_trend_series, is_trends_of,
    lemma_valid_draws_give_comparison_set, trends_from, ComparisonDraw, Draws, TrendDraw, CURRENT_HIGH, CURRENT_LOW, PREVIOUS_HIGH,
    PREVIOUS_LOW, TREND_HIGH, TREND_LOW,
};
use crate::entropy::{gen_range, new_id, thread_rng};
use crate::name_map::NameMap;
use crate::sample::{date_text, is_sample_record, sample_range, sample_record};
use crate::summary::{is_summary_of, summarize};
use vstd::prelude::*;

verus! {

/// Makes sample records and transforms records into reports.
pub struct DataProcessor;

/// Why a set of records could not be transformed.
#[derive(Debug, Clone, Copy, PartialEq, Eq, Structural)]
pub enum TransformError {
    /// There is no record, and so no mean.
    EmptyInput,
}

/// The records column by column: the identifiers, categories, metrics,
/// amounts and regions, each in the order of the records.
#[derive(Debug, Clone, PartialEq, Eq)]
pub struct RecordColumns {
    pub id: Vec<String>,
    pub category: Vec<String>,
    pub metric: Vec<String>,
    pub value: Vec<i64>,
    pub region: Vec<String>,
}

impl RecordColumns {
    /// The columns are those of the records.
    pub open spec fn holds(self, records: Seq<BusinessData>) -> bool {
        &&& self.id@.len() == records.len()
        &&& self.category@.len() == records.len()
        &&& self.metric@.len() == records.len()
        &&& self.value@.len() == records.len()
        &&& self.region@.len() == records.len()
        &&& forall|i: int|
            0 <= i < records.len() ==> {
                &&& self.id@[i]@ == (#[trigger] records[i]).id@
                &&& self.category@[i]@ == records[i].category@
                &&& self.metric@[i]@ == records[i].metric_name@
                &&& self.value@[i] == records[i].value
                &&& self.region@[i]@ == records[i].region@
            }
    }
}

fn draw_trend(rng: &mut rand::rngs::ThreadRng) -> (draw: TrendDraw)
    ensures
        draw.valid(),
{
    let value = gen_range(rng, TREND_LOW, TREND_HIGH);
    let direction = gen_range(rng, 0, 3);
    TrendDraw { value, direction }
}

fn draw_comparison(rng: &mut rand::rngs::ThreadRng) -> (draw: ComparisonDraw)
    ensures
        draw.valid(),
{
    let current = gen_range(rng, CURRENT_LOW, CURRENT_HIGH);
    let previous = gen_range(rng, PREVIOUS_LOW, PREVIOUS_HIGH);
    ComparisonDraw { current, previous }
}

impl DataProcessor {
    /// A processor. It holds nothing.
    pub fn new() -> (made: Self) {
        DataProcessor
    }

    /// A hundred sample records: categories, regions and departments in
    /// turn, each record with a metric of its category, an amount drawn
    /// from that metric's range, a fresh identifier and a date drawn from
    /// the first 28 days of the months of 2024.
    pub fn generate_sample_data(&self) -> (data: Vec<BusinessData>)
        ensures
            data.len() == 100,
            forall|i: int| 0 <= i < 100 ==> is_sample_record(#[trigger] data[i], i),
    {
        let mut rng = thread_rng();
        let mut data: Vec<BusinessData> = Vec::new();
        let mut i: usize = 0;
        while i < 100
            invariant
                i <= 100,
                data.len() == i,
                forall|k: int| 0 <= k < i ==> is_sample_record(#[trigger] data[k], k),
            decreases 100 - i,
        {
            let range = sample_range(i);
            let value = gen_range(&mut rng, range.0, range.1);
            let id = new_id();
            let month = gen_range(&mut rng, 1, 13);
            let day = gen_range(&mut rng, 1, 29);
            let record = sample_record(i, id, value, month as u8, day as u8);
            assert(record.timestamp@ == date_text(month as int, day as int));
            assert(is_sample_record(record, i as int));
            data.push(record);
            i += 1;
        }
        data
    }

    /// The trend points of a report: for each of the four periods an amount
    /// and a direction, both drawn at random. They stand in for an analysis
    /// of the records over time and do not depend on the records.
    pub fn generate_trends(&self) -> (trends: Vec<DataTrend>)
        ensures
            is_trend_series(trends@),
    {
        let mut rng = thread_rng();
        let first = draw_trend(&mut rng);
        let second = draw_trend(&mut rng);
        let third = draw_trend(&mut rng);
        let fourth = draw_trend(&mut rng);
        let draws = [first, second, third, fourth];
        trends_from(&draws)
    }

    /// The comparisons of a report: for each of the three metrics a current
    /// and a previous amount, both drawn at random, and the change between
    /// them. They do not depend on the records.
    pub fn generate_comparisons(&self) -> (comparisons: NameMap<ComparisonData>)
        ensures
            is_comparison_set(comparisons@),
            comparisons.entries().len() == 3,
    {
        let mut rng = thread_rng();
        let first = draw_comparison(&mut rng);
        let second = draw_comparison(&mut rng);
        let third = draw_comparison(&mut rng);
        let draws = [first, second, third];
        let comparisons = comparisons_from(&draws);
        proof {
            lemma_valid_draws_give_comparison_set(comparisons@, draws@);
        }
        comparisons
    }

    /// The records laid out column by column, the form in which a polars
    /// data frame takes them.
    pub fn analyze_with_polars(&self, data: &[BusinessData]) -> (columns: RecordColumns)
        ensures
            columns.holds(data@),
    {
        let mut id: Vec<String> = Vec::new();
        let mut category: Vec<String> = Vec::new();
        let mut metric: Vec<String> = Vec::new();
        let mut value: Vec<i64> = Vec::new();
        let mut region: Vec<String> = Vec::new();
        let mut i: usize = 0;
        while i < data.len()
            invariant
                i <= data.len(),
                id.len() == i,
                category.len() == i,
                metric.len() == i,
                value.len() == i,
                region.len() == i,
                forall|k: int|
                    0 <= k < i ==> {
                        &&& id@[k]@ == (#[trigger] data@[k]).id@
                        &&& category@[k]@ == data@[k].category@
                        &&& metric@[k]@ == data@[k].metric_name@
                        &&& value@[k] == data@[k].value
                        &&& region@[k]@ == data@[k].region@
                    },
            decreases data.len() - i,
        {
            let r = &data[i];
            id.push(r.id.clone());
            category.push(r.category.clone());
            metric.push(r.metric_name.clone());
            value.push(r.value);
            region.push(r.region.clone());
            i += 1;
        }
        RecordColumns { id, category, metric, value, region }
    }

    /// Transforms the records into a report: the summary of the records,
    /// with trend points and comparisons drawn at random. Without records
    /// there is no report.
    pub fn transform_data(&self, raw_data: Vec<BusinessData>) -> (report: Result<
        TransformedData,
        TransformError,
    >)
        ensures
            raw_data.len() == 0 <==> report is Err,
            report is Err ==> report->Err_0 == TransformError::EmptyInput,
            report is Ok ==> {
                &&& is_summary_of(report->Ok_0.summary, raw_data@)
                &&& is_trend_series(report->Ok_0.trends@)
                &&& is_comparison_set(report->Ok_0.comparisons@)
                &&& report->Ok_0.comparisons.entries().len() == 3
            },
    {
        match summarize(&raw_data) {
            Ok(summary) => {
                let trends = self.generate_trends();
                let comparisons = self.generate_comparisons();
                Ok(TransformedData { summary, trends, comparisons })
            },
            Err(e) => Err(e),
        }
    }

    /// Transforms the records into a report, with the trend points and
    /// comparisons that `draws` gives in place of chance. Without records
    /// there is no report. No previous amount of the draws may be 0: from
    /// nothing there is no change in percent.
    pub fn transform_with(&self, records: &Vec<BusinessData>, draws: &Draws) -> (report: Result<
        TransformedData,
        TransformError,
    >)
        requires
            forall|i: int| 0 <= i < 3 ==> (#[trigger] draws.comparisons@[i]).previous != 0,
        ensures
            records.len() == 0 <==> report is Err,
            report is Err ==> report->Err_0 == TransformError::EmptyInput,
            report is Ok ==> {
                &&& is_summary_of(report->Ok_0.summary, records@)
                &&& is_trends_of(report->Ok_0.trends@, draws.trends@)
                &&& is_comparisons_of(report->Ok_0.comparisons@, draws.comparisons@)
                &&& report->Ok_0.comparisons.entries().len() == 3
            },
    {
        match summarize(records) {
            Ok(summary) => {
                let trends = trends_from(&draws.trends);
                let comparisons = comparisons_from(&draws.comparisons);
                Ok(TransformedData { summary, trends, comparisons })
            },
            Err(e) => Err(e),
        }
    }
}

} // verus!
