//! The layout of a workbook as plain values: sheets, and on each sheet the
//! cells to write, in the order in which they are written.

use vstd::prelude::*;

verus! {

/// The number of rows that a sheet has room for.
pub const ROW_LIMIT: u32 = 1_048_576;

/// What a cell holds: text, or an amount in millionths.
#[derive(Debug, Clone, PartialEq, Eq)]
pub enum CellValue {
    Text(String),
    Number(i128),
}

/// A cell to write: where it stands, what it holds, and whether it is set
/// in bold.
#[derive(Debug, Clone, PartialEq, Eq)]
pub struct Cell {
    pub row: u32,
    pub col: u16,
    pub value: CellValue,
    pub bold: bool,
}

/// A sheet: its name, and its cells in the order in which they are written.
#[derive(Debug, Clone, PartialEq, Eq)]
pub struct Sheet {
    pub name: String,
    pub cells: Vec<Cell>,
}

/// A workbook: its sheets, in the order in which they are added.
#[derive(Debug, Clone, PartialEq, Eq)]
pub struct WorkbookLayout {
    pub sheets: Vec<Sheet>,
}

/// What a cell holds, as a value of the model.
pub enum Content {
    Text(Seq<char>),
    Number(int),
}

/// A cell, as a value of the model.
pub struct CellView {
    pub row: int,
    pub col: int,
    pub content: Content,
    pub bold: bool,
}

/// A sheet, as a value of the model.
pub struct SheetView {
    pub name: Seq<char>,
    pub cells: Seq<CellView>,
}

impl View for CellValue {
    type V = Content;

    open spec fn view(&self) -> Content {
        match self {
            CellValue::Text(text) => Content::Text(text@),
            CellValue::Number(amount) => Content::Number(*amount as int),
        }
    }
}

impl View for Cell {
    type V = CellView;

    open spec fn view(&self) -> CellView {
        CellView { row: self.row as int, col: self.col as int, content: self.value@, bold: self.bold }
    }
}

/// The cells of the model that a run of cells stands for.
pub open spec fn cells_view(cells: Seq<Cell>) -> Seq<CellView> {
    cells.map_values(|c: Cell| c@)
}

impl View for Sheet {
    type V = SheetView;

    open spec fn view(&self) -> SheetView {
        SheetView { name: self.name@, cells: cells_view(self.cells@) }
    }
}

impl View for WorkbookLayout {
    type V = Seq<SheetView>;

    open spec fn view(&self) -> Seq<SheetView> {
        self.sheets@.map_values(|s: Sheet| s@)
    }
}

/// A cell of text.
pub open spec fn text_cell(row: int, col: int, text: Seq<char>, bold: bool) -> CellView {
    CellView { row, col, content: Content::Text(text), bold }
}

/// A cell that holds an amount. Amounts are never set in bold.
pub open spec fn number_cell(row: int, col: int, amount: int) -> CellView {
    CellView { row, col, content: Content::Number(amount), bold: false }
}

impl Cell {
    /// A cell of text.
    pub fn text(row: u32, col: u16, text: &str, bold: bool) -> (cell: Cell)
        ensures
            cell@ == text_cell(row as int, col as int, text@, bold),
    {
        Cell { row, col, value: CellValue::Text(String::from_str(text)), bold }
    }

    /// A cell that holds an amount.
    pub fn number(row: u32, col: u16, amount: i128) -> (cell: Cell)
        ensures
            cell@ == number_cell(row as int, col as int, amount as int),
    {
        Cell { row, col, value: CellValue::Number(amount), bold: false }
    }
}

} // verus!
