//! From a report to the workbook that shows it: three sheets, each with a
//! title, a header line and a line for every entry. Entries keyed by name
//! come in ascending order of names.

use crate::data_models::{ComparisonData, DataSummary, DataTrend, TransformedData, TrendDirection};
use crate::fixed::UNIT;
use crate::name_map::{lemma_listing_map_line, line_of, lists, NameMap};
use crate::sheet::{
    cells_view, number_cell, text_cell, Cell, CellView, Sheet, SheetView, WorkbookLayout, ROW_LIMIT,
};
use vstd::prelude::*;

verus! {

/// Lays out the workbook that shows a report.
pub struct ReportGenerator;

/// Why a report could not be laid out.
#[derive(Debug, Clone, Copy, PartialEq, Eq, Structural)]
pub enum ExportError {
    /// A sheet would need more rows than it has room for.
    RowLimit,
}

/// The text that shows a direction.
pub open spec fn direction_label(direction: TrendDirection) -> Seq<char> {
    match direction {
        TrendDirection::Increasing => "Increasing"@,
        TrendDirection::Decreasing => "Decreasing"@,
        TrendDirection::Stable => "Stable"@,
    }
}

/// The text that shows how a change in percent is to be read.
pub open spec fn status_label(change: int) -> Seq<char> {
    if change > 0 {
        "Improving"@
    } else if change < 0 {
        "Declining"@
    } else {
        "Stable"@
    }
}

/// The first lines of the summary sheet: the title, the header, the three
/// figures, and the title and header of the regional breakdown.
pub open spec fn summary_head(summary: DataSummary) -> Seq<CellView> {
    seq![
        text_cell(0, 0, "Business Performance Summary"@, true),
        text_cell(1, 0, "Metric"@, true),
        text_cell(1, 1, "Value"@, true),
        text_cell(2, 0, "Total Metrics Tracked"@, false),
        number_cell(2, 1, summary.total_metrics * UNIT),
        text_cell(3, 0, "Average Metric Value"@, false),
        number_cell(3, 1, summary.average_value as int),
        text_cell(4, 0, "Top Performing Category"@, false),
        text_cell(4, 1, summary.top_performing_category@, false),
        text_cell(6, 0, "Regional Breakdown"@, true),
        text_cell(7, 0, "Region"@, true),
        text_cell(7, 1, "Total Value"@, true),
    ]
}

/// The lines of the regional breakdown: from row 8 on, a region and its
/// total on each line.
pub open spec fn region_rows(entries: Seq<(Seq<char>, i128)>) -> Seq<CellView> {
    Seq::new(
        2 * entries.len(),
        |j: int|
            if j % 2 == 0 {
                text_cell(8 + j / 2, 0, entries[j / 2].0, false)
            } else {
                number_cell(8 + j / 2, 1, entries[j / 2].1 as int)
            },
    )
}

/// The cells of the summary sheet.
pub open spec fn summary_cells(summary: DataSummary) -> Seq<CellView> {
    summary_head(summary) + region_rows(summary.regional_breakdown.entries())
}

/// The first lines of the trends sheet: the title and the header.
pub open spec fn trends_head() -> Seq<CellView> {
    seq![
        text_cell(0, 0, "Business Trends Over Time"@, true),
        text_cell(1, 0, "Period"@, true),
        text_cell(1, 1, "Value"@, true),
        text_cell(1, 2, "Trend Direction"@, true),
    ]
}

/// The lines of the trend points: from row 2 on, a period, its amount and
/// its direction on each line.
pub open spec fn trend_rows(trends: Seq<DataTrend>) -> Seq<CellView> {
    Seq::new(
        3 * trends.len(),
        |j: int|
            if j % 3 == 0 {
                text_cell(2 + j / 3, 0, trends[j / 3].period@, false)
            } else if j % 3 == 1 {
                number_cell(2 + j / 3, 1, trends[j / 3].value as int)
            } else {
                text_cell(2 + j / 3, 2, direction_label(trends[j / 3].trend_direction), false)
            },
    )
}

/// The cells of the trends sheet.
pub open spec fn trends_cells(trends: Seq<DataTrend>) -> Seq<CellView> {
    trends_head() + trend_rows(trends)
}

/// The first lines of the comparisons sheet: the title and the header.
pub open spec fn comparisons_head() -> Seq<CellView> {
    seq![
        text_cell(0, 0, "Performance Comparisons"@, true),
        text_cell(1, 0, "Metric"@, true),
        text_cell(1, 1, "Current"@, true),
        text_cell(1, 2, "Previous"@, true),
        text_cell(1, 3, "Change %"@, true),
        text_cell(1, 4, "Status"@, true),
    ]
}

/// The lines of the comparisons: from row 2 on, a metric, its two amounts,
/// the change in percent and how to read it on each line.
pub open spec fn comparison_rows(entries: Seq<(Seq<char>, ComparisonData)>) -> Seq<CellView> {
    Seq::new(
        5 * entries.len(),
        |j: int|
            if j % 5 == 0 {
                text_cell(2 + j / 5, 0, entries[j / 5].0, false)
            } else if j % 5 == 1 {
                number_cell(2 + j / 5, 1, entries[j / 5].1.current as int)
            } else if j % 5 == 2 {
                number_cell(2 + j / 5, 2, entries[j / 5].1.previous as int)
            } else if j % 5 == 3 {
                number_cell(2 + j / 5, 3, entries[j / 5].1.change_percentage as int)
            } else {
                text_cell(2 + j / 5, 4, status_label(entries[j / 5].1.change_percentage as int), false)
            },
    )
}

/// The cells of the comparisons sheet.
pub open spec fn comparisons_cells(entries: Seq<(Seq<char>, ComparisonData)>) -> Seq<CellView> {
    comparisons_head() + comparison_rows(entries)
}

/// Every sheet of the report has room for its lines.
pub open spec fn fits(data: TransformedData) -> bool {
    &&& 8 + data.summary.regional_breakdown.entries().len() <= ROW_LIMIT
    &&& 2 + data.trends@.len() <= ROW_LIMIT
    &&& 2 + data.comparisons.entries().len() <= ROW_LIMIT
}

/// The workbook that shows a report: the sheets "Summary", "Trends" and
/// "Comparisons", in this order.
pub open spec fn workbook_of(data: TransformedData) -> Seq<SheetView> {
    seq![
        SheetView { name: "Summary"@, cells: summary_cells(data.summary) },
        SheetView { name: "Trends"@, cells: trends_cells(data.trends@) },
        SheetView { name: "Comparisons"@, cells: comparisons_cells(data.comparisons.entries()) },
    ]
}

/// Without trend points the trends sheet holds its title and its header
/// and nothing else.
pub proof fn lemma_empty_trends_sheet(trends: Seq<DataTrend>)
    requires
        trends.len() == 0,
    ensures
        trends_cells(trends) == trends_head(),
        forall|j: int| 0 <= j < trends_cells(trends).len() ==> (#[trigger] trends_cells(trends)[j]).row < 2,
{
    assert(trends_cells(trends) =~= trends_head());
}

/// Every region of the breakdown has a line of the summary sheet, below
/// the breakdown's header, that holds its name and beside it its total.
pub proof fn lemma_regions_are_shown(summary: DataSummary, name: Seq<char>)
    requires
        summary.regional_breakdown.wf(),
        summary.regional_breakdown@.contains_key(name),
    ensures
        exists|row: int|
            8 <= row < 8 + summary.regional_breakdown.entries().len() && summary_cells(
                summary,
            ).contains(#[trigger] text_cell(row, 0, name, false)) && summary_cells(summary).contains(
                number_cell(row, 1, summary.regional_breakdown@[name] as int),
            ),
{
    let entries = summary.regional_breakdown.entries();
    let cells = summary_cells(summary);
    assert(lists(entries, name));
    let k = line_of(entries, name);
    lemma_listing_map_line(entries, k);
    assert(cells[12 + 2 * k] == text_cell(8 + k, 0, name, false));
    assert(cells[12 + 2 * k + 1] == number_cell(8 + k, 1, summary.regional_breakdown@[name] as int));
}

/// The text that shows a direction.
pub fn direction_name(direction: TrendDirection) -> (label: &'static str)
    ensures
        label@ == direction_label(direction),
{
    match direction {
        TrendDirection::Increasing => "Increasing",
        TrendDirection::Decreasing => "Decreasing",
        TrendDirection::Stable => "Stable",
    }
}

/// The text that shows how a change in percent is to be read: a rise as
/// improving, a fall as declining, no change as stable.
pub fn status_name(change: i128) -> (label: &'static str)
    ensures
        label@ == status_label(change as int),
{
    if change > 0 {
        "Improving"
    } else if change < 0 {
        "Declining"
    } else {
        "Stable"
    }
}

impl ReportGenerator {
    /// A generator. It holds nothing.
    pub fn new() -> (made: Self) {
        ReportGenerator
    }

    /// Lays out the summary sheet.
    pub fn create_summary_sheet(&self, summary: &DataSummary) -> (sheet: Result<
        Sheet,
        ExportError,
    >)
        ensures
            sheet is Ok <==> 8 + summary.regional_breakdown.entries().len() <= ROW_LIMIT,
            sheet is Ok ==> sheet->Ok_0@ == (SheetView {
                name: "Summary"@,
                cells: summary_cells(*summary),
            }),
            sheet is Err ==> sheet->Err_0 == ExportError::RowLimit,
    {
        let regions = &summary.regional_breakdown;
        let n = regions.len();
        if n > (ROW_LIMIT - 8) as usize {
            return Err(ExportError::RowLimit);
        }
        let ghost target = summary_cells(*summary);
        let mut cells: Vec<Cell> = Vec::new();
        cells.push(Cell::text(0, 0, "Business Performance Summary", true));
        cells.push(Cell::text(1, 0, "Metric", true));
        cells.push(Cell::text(1, 1, "Value", true));
        cells.push(Cell::text(2, 0, "Total Metrics Tracked", false));
        cells.push(Cell::number(2, 1, (summary.total_metrics as i128) * 1_000_000));
        cells.push(Cell::text(3, 0, "Average Metric Value", false));
        cells.push(Cell::number(3, 1, summary.average_value as i128));
        cells.push(Cell::text(4, 0, "Top Performing Category", false));
        cells.push(Cell::text(4, 1, summary.top_performing_category.as_str(), false));
        cells.push(Cell::text(6, 0, "Regional Breakdown", true));
        cells.push(Cell::text(7, 0, "Region", true));
        cells.push(Cell::text(7, 1, "Total Value", true));
        let mut i: usize = 0;
        while i < n
            invariant
                n == regions.entries().len(),
                n + 8 <= ROW_LIMIT,
                i <= n,
                target == summary_cells(*summary),
                regions == &summary.regional_breakdown,
                cells.len() == 12 + 2 * i,
                forall|j: int| 0 <= j < cells.len() ==> (#[trigger] cells[j])@ == target[j],
            decreases n - i,
        {
            let row: u32 = 8 + (i as u32);
            cells.push(Cell::text(row, 0, regions.name_at(i), false));
            cells.push(Cell::number(row, 1, regions.value_at(i)));
            i += 1;
        }
        assert(cells_view(cells@) =~= target);
        Ok(Sheet { name: String::from_str("Summary"), cells })
    }

    /// Lays out the trends sheet.
    pub fn create_trends_sheet(&self, trends: &[DataTrend]) -> (sheet: Result<Sheet, ExportError>)
        ensures
            sheet is Ok <==> 2 + trends@.len() <= ROW_LIMIT,
            sheet is Ok ==> sheet->Ok_0@ == (SheetView {
                name: "Trends"@,
                cells: trends_cells(trends@),
            }),
            sheet is Err ==> sheet->Err_0 == ExportError::RowLimit,
    {
        let n = trends.len();
        if n > (ROW_LIMIT - 2) as usize {
            return Err(ExportError::RowLimit);
        }
        let ghost target = trends_cells(trends@);
        let mut cells: Vec<Cell> = Vec::new();
        cells.push(Cell::text(0, 0, "Business Trends Over Time", true));
        cells.push(Cell::text(1, 0, "Period", true));
        cells.push(Cell::text(1, 1, "Value", true));
        cells.push(Cell::text(1, 2, "Trend Direction", true));
        let mut i: usize = 0;
        while i < n
            invariant
                n == trends@.len(),
                n + 2 <= ROW_LIMIT,
                i <= n,
                target == trends_cells(trends@),
                cells.len() == 4 + 3 * i,
                forall|j: int| 0 <= j < cells.len() ==> (#[trigger] cells[j])@ == target[j],
            decreases n - i,
        {
            let row: u32 = 2 + (i as u32);
            let trend = &trends[i];
            cells.push(Cell::text(row, 0, trend.period.as_str(), false));
            cells.push(Cell::number(row, 1, trend.value as i128));
            cells.push(Cell::text(row, 2, direction_name(trend.trend_direction), false));
            i += 1;
        }
        assert(cells_view(cells@) =~= target);
        Ok(Sheet { name: String::from_str("Trends"), cells })
    }

    /// Lays out the comparisons sheet.
    pub fn create_comparisons_sheet(&self, comparisons: &NameMap<ComparisonData>) -> (sheet: Result<
        Sheet,
        ExportError,
    >)
        ensures
            sheet is Ok <==> 2 + comparisons.entries().len() <= ROW_LIMIT,
            sheet is Ok ==> sheet->Ok_0@ == (SheetView {
                name: "Comparisons"@,
                cells: comparisons_cells(comparisons.entries()),
            }),
            sheet is Err ==> sheet->Err_0 == ExportError::RowLimit,
    {
        let n = comparisons.len();
        if n > (ROW_LIMIT - 2) as usize {
            return Err(ExportError::RowLimit);
        }
        let ghost target = comparisons_cells(comparisons.entries());
        let mut cells: Vec<Cell> = Vec::new();
        cells.push(Cell::text(0, 0, "Performance Comparisons", true));
        cells.push(Cell::text(1, 0, "Metric", true));
        cells.push(Cell::text(1, 1, "Current", true));
        cells.push(Cell::text(1, 2, "Previous", true));
        cells.push(Cell::text(1, 3, "Change %", true));
        cells.push(Cell::text(1, 4, "Status", true));
        let mut i: usize = 0;
        while i < n
            invariant
                n == comparisons.entries().len(),
                n + 2 <= ROW_LIMIT,
                i <= n,
                target == comparisons_cells(comparisons.entries()),
                cells.len() == 6 + 5 * i,
                forall|j: int| 0 <= j < cells.len() ==> (#[trigger] cells[j])@ == target[j],
            decreases n - i,
        {
            let row: u32 = 2 + (i as u32);
            let comparison = comparisons.value_at(i);
            cells.push(Cell::text(row, 0, comparisons.name_at(i), false));
            cells.push(Cell::number(row, 1, comparison.current as i128));
            cells.push(Cell::number(row, 2, comparison.previous as i128));
            cells.push(Cell::number(row, 3, comparison.change_percentage));
            cells.push(Cell::text(row, 4, status_name(comparison.change_percentage), false));
            i += 1;
        }
        assert(cells_view(cells@) =~= target);
        Ok(Sheet { name: String::from_str("Comparisons"), cells })
    }

    /// Lays out the workbook that shows a report. A report with more lines
    /// than a sheet has room for is not laid out.
    pub fn generate_excel_report(&self, data: &TransformedData) -> (layout: Result<
        WorkbookLayout,
        ExportError,
    >)
        ensures
            layout is Ok <==> fits(*data),
            layout is Ok ==> layout->Ok_0@ == workbook_of(*data),
            layout is Err ==> layout->Err_0 == ExportError::RowLimit,
    {
        let summary = match self.create_summary_sheet(&data.summary) {
            Ok(sheet) => sheet,
            Err(e) => {
                return Err(e);
            },
        };
        let trends = match self.create_trends_sheet(data.trends.as_slice()) {
            Ok(sheet) => sheet,
            Err(e) => {
                return Err(e);
            },
        };
        let comparisons = match self.create_comparisons_sheet(&data.comparisons) {
            Ok(sheet) => sheet,
            Err(e) => {
                return Err(e);
            },
        };
        let mut sheets: Vec<Sheet> = Vec::new();
        sheets.push(summary);
        sheets.push(trends);
        sheets.push(comparisons);
        let layout = WorkbookLayout { sheets };
        assert(layout@ =~= workbook_of(*data));
        Ok(layout)
    }
}

} // verus!
