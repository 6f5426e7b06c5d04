//! What a worksheet holds: the content of single cells, and merged ranges.

use crate::format::{RustFormat, FormatView};
use vstd::prelude::*;

verus! {

/// The number of rows of a sheet: a row index is below it.
pub const ROW_LIMIT: u32 = 1_048_576;

/// The number of columns of a sheet: a column index is below it.
pub const COLUMN_LIMIT: u16 = 16_384;

/// The largest number of characters that the text of a cell may have.
pub const TEXT_LIMIT: usize = 32_767;

/// The largest width that a column may be given.
pub const COLUMN_WIDTH_LIMIT: u32 = 255;

/// Whether a coordinate lies on the sheet.
pub open spec fn in_bounds(row: u32, col: u16) -> bool {
    row < ROW_LIMIT && col < COLUMN_LIMIT
}

/// What an optional format is, if there is one.
pub open spec fn opt_format(f: Option<RustFormat>) -> Option<FormatView> {
    match f {
        Some(format) => Some(format@),
        None => None,
    }
}

/// A copy of an optional format.
pub fn copy_opt_format(f: &Option<RustFormat>) -> (r: Option<RustFormat>)
    ensures
        opt_format(r) == opt_format(*f),
{
    match f {
        Some(format) => Some(format.clone()),
        None => None,
    }
}

/// The content of one written cell.
#[derive(Debug, PartialEq, Eq)]
#[allow(inconsistent_fields)]
pub enum CellContent {
    /// An empty cell that carries a format only. A blank always has a
    /// format: one written without any has the format on which nothing is
    /// set.
    Blank { format: RustFormat },
    /// Text, with a format of its own or without one.
    Text { text: String, format: Option<RustFormat> },
    /// A formula, kept as it was written, with a format of its own or
    /// without one.
    Formula { formula: String, format: Option<RustFormat> },
}

/// What the content of a cell is.
#[allow(inconsistent_fields)]
pub enum CellView {
    Blank { format: FormatView },
    Text { text: Seq<char>, format: Option<FormatView> },
    Formula { formula: Seq<char>, format: Option<FormatView> },
}

impl CellView {
    /// The text of a text cell is within the limit, and each format held is
    /// well formed.
    pub open spec fn fits(self) -> bool {
        match self {
            CellView::Blank { format } => format.wf(),
            CellView::Text { text, format } => text.len() <= TEXT_LIMIT && (format matches Some(f)
                ==> f.wf()),
            CellView::Formula { formula, format } => format matches Some(f) ==> f.wf(),
        }
    }
}

impl View for CellContent {
    type V = CellView;

    open spec fn view(&self) -> CellView {
        match *self {
            CellContent::Blank { format } => CellView::Blank { format: format@ },
            CellContent::Text { text, format } => CellView::Text {
                text: text@,
                format: opt_format(format),
            },
            CellContent::Formula { formula, format } => CellView::Formula {
                formula: formula@,
                format: opt_format(format),
            },
        }
    }
}

impl Clone for CellContent {
    fn clone(&self) -> (r: CellContent)
        ensures
            r@ == self@,
    {
        match self {
            CellContent::Blank { format } => CellContent::Blank { format: format.clone() },
            CellContent::Text { text, format } => CellContent::Text {
                text: text.clone(),
                format: copy_opt_format(format),
            },
            CellContent::Formula { formula, format } => CellContent::Formula {
                formula: formula.clone(),
                format: copy_opt_format(format),
            },
        }
    }
}

/// A rectangle of cells shown as one cell, with the text it shows and the
/// format of the whole range. Both corners belong to the range.
#[derive(Debug, PartialEq, Eq)]
pub struct MergeRange {
    pub first_row: u32,
    pub first_col: u16,
    pub last_row: u32,
    pub last_col: u16,
    pub text: String,
    pub format: RustFormat,
}

/// What a merged range is.
pub struct MergeView {
    pub first_row: u32,
    pub first_col: u16,
    pub last_row: u32,
    pub last_col: u16,
    pub text: Seq<char>,
    pub format: FormatView,
}

impl MergeView {
    /// Both corners lie on the sheet, the first is not behind the last on
    /// either axis, the range has more than one cell, and the text is
    /// within the limit for a cell.
    pub open spec fn well_shaped(self) -> bool {
        &&& in_bounds(self.first_row, self.first_col)
        &&& in_bounds(self.last_row, self.last_col)
        &&& self.first_row <= self.last_row
        &&& self.first_col <= self.last_col
        &&& !(self.first_row == self.last_row && self.first_col == self.last_col)
        &&& self.text.len() <= TEXT_LIMIT
        &&& self.format.wf()
    }

    /// Whether a coordinate belongs to this range.
    pub open spec fn covers(self, row: u32, col: u16) -> bool {
        self.first_row <= row <= self.last_row && self.first_col <= col <= self.last_col
    }

    /// Whether this range and another share a cell.
    pub open spec fn overlaps(self, other: MergeView) -> bool {
        &&& self.first_row <= other.last_row
        &&& other.first_row <= self.last_row
        &&& self.first_col <= other.last_col
        &&& other.first_col <= self.last_col
    }
}

impl View for MergeRange {
    type V = MergeView;

    open spec fn view(&self) -> MergeView {
        MergeView {
            first_row: self.first_row,
            first_col: self.first_col,
            last_row: self.last_row,
            last_col: self.last_col,
            text: self.text@,
            format: self.format@,
        }
    }
}

impl Clone for MergeRange {
    fn clone(&self) -> (r: MergeRange)
        ensures
            r@ == self@,
    {
        MergeRange {
            first_row: self.first_row,
            first_col: self.first_col,
            last_row: self.last_row,
            last_col: self.last_col,
            text: self.text.clone(),
            format: self.format.clone(),
        }
    }
}

impl MergeRange {
    /// Whether this range and another share a cell.
    pub fn overlaps(&self, other: &MergeRange) -> (r: bool)
        ensures
            r == self@.overlaps(other@),
    {
        self.first_row <= other.last_row && other.first_row <= self.last_row && self.first_col
            <= other.last_col && other.first_col <= self.last_col
    }
}

/// Two well-shaped ranges overlap exactly if some coordinate belongs to both.
pub proof fn lemma_overlap_is_shared_cell(a: MergeView, b: MergeView)
    requires
        a.first_row <= a.last_row,
        a.first_col <= a.last_col,
        b.first_row <= b.last_row,
        b.first_col <= b.last_col,
    ensures
        a.overlaps(b) <==> exists|row: u32, col: u16| #[trigger]
            a.covers(row, col) && b.covers(row, col),
{
    if a.overlaps(b) {
        let row = if a.first_row >= b.first_row {
            a.first_row
        } else {
            b.first_row
        };
        let col = if a.first_col >= b.first_col {
            a.first_col
        } else {
            b.first_col
        };
        assert(a.covers(row, col) && b.covers(row, col));
    }
}

} // verus!
