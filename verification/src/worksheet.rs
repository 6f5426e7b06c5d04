//! A worksheet: a sparse grid of written cells with sizing, visibility and
//! merged ranges.
//!
//! A worksheet keeps the operations that it accepted, in the order in which
//! they were made. What it holds, its view, is what these operations add up
//! to: the last content written to a coordinate, the last width given to a
//! column, and so on.

use crate::cell::{
    in_bounds, CellContent, CellView, MergeRange, MergeView, COLUMN_LIMIT, COLUMN_WIDTH_LIMIT,
    ROW_LIMIT, TEXT_LIMIT,
};
use crate::encode::{
    apart, encoded_of, fresh_sheet, holds, lemma_encoded_step, lemma_encoder_shows_sheet,
    lemma_group_fits, lemma_levels_follow, lemma_merge_fits, replay, shows, steady, Encoded,
};
use crate::format::{FormatView, RustFormat};
use crate::sheet_name::valid_sheet_name;
use crate::writer::{level_of, sheet_new, sheet_set_name};
use vstd::prelude::*;
use vstd::string::*;

verus! {

/// Why a worksheet refuses an operation.
#[derive(Clone, Copy, Debug, PartialEq, Eq, Structural)]
pub enum SheetError {
    /// The worksheet was handed over already and takes no more operations.
    Consumed,
    /// A row index is not below the number of rows of a sheet.
    RowOutOfRange,
    /// A column index is not below the number of columns of a sheet, or the
    /// column is the last one and cannot carry a collapsed group.
    ColumnOutOfRange,
    /// A text has more characters than a cell can hold.
    TextTooLong,
    /// The first corner of a merged range lies behind the last one.
    MergeReversed,
    /// A merged range has one cell only.
    MergeSingleCell,
    /// A merged range shares a cell with one that was declared before.
    MergeOverlap,
}

/// What a worksheet holds.
pub struct SheetModel {
    /// The name of the sheet.
    pub name: Seq<char>,
    /// The content of each written cell, by row and column.
    pub cells: Map<(u32, u16), CellView>,
    /// The width of each column that was given one.
    pub column_widths: Map<u16, u32>,
    /// The height of each row that was given one, in pixels. A pixel is
    /// three quarters of a point.
    pub row_heights: Map<u32, u32>,
    /// The height of the rows that were given none, in pixels, where it was
    /// set.
    pub default_row_height: Option<u32>,
    /// The columns that are not shown.
    pub hidden_columns: Set<u16>,
    /// The columns that carry a collapsed outline group.
    pub collapsed_columns: Set<u16>,
    /// Whether gridlines are shown on screen.
    pub screen_gridlines: bool,
    /// Whether gridlines are printed.
    pub print_gridlines: bool,
    /// The merged ranges, in the order in which they were declared.
    pub merges: Seq<MergeView>,
    /// Whether the worksheet was handed over.
    pub consumed: bool,
}

impl SheetModel {
    /// The sheet of the given name on which nothing was done: gridlines are
    /// shown on screen and not printed.
    pub open spec fn empty(name: Seq<char>) -> SheetModel {
        SheetModel {
            name,
            cells: Map::empty(),
            column_widths: Map::empty(),
            row_heights: Map::empty(),
            default_row_height: None,
            hidden_columns: Set::empty(),
            collapsed_columns: Set::empty(),
            screen_gridlines: true,
            print_gridlines: false,
            merges: Seq::empty(),
            consumed: false,
        }
    }

    /// What is left of a sheet of the given name after it was handed over:
    /// the name, and nothing else.
    pub open spec fn shell(name: Seq<char>) -> SheetModel {
        SheetModel { consumed: true, ..SheetModel::empty(name) }
    }

    /// The name is valid; every coordinate, size and range is within the
    /// limits of a sheet; no two merged ranges share a cell; and a sheet that
    /// was handed over holds nothing.
    pub open spec fn wf(self) -> bool {
        &&& valid_sheet_name(self.name)
        &&& forall|row: u32, col: u16| #[trigger]
            self.cells.dom().contains((row, col)) ==> in_bounds(row, col) && self.cells[(
                row,
                col,
            )].fits()
        &&& forall|col: u16| #[trigger]
            self.column_widths.dom().contains(col) ==> col < COLUMN_LIMIT
        &&& forall|row: u32| #[trigger] self.row_heights.dom().contains(row) ==> row < ROW_LIMIT
        &&& forall|col: u16| #[trigger] self.hidden_columns.contains(col) ==> col < COLUMN_LIMIT
        &&& forall|col: u16| #[trigger]
            self.collapsed_columns.contains(col) ==> col + 1 < COLUMN_LIMIT
        &&& forall|i: int| 0 <= i < self.merges.len() ==> (#[trigger] self.merges[i]).well_shaped()
        &&& forall|i: int, j: int|
            0 <= i < j < self.merges.len() ==> !(#[trigger] self.merges[i]).overlaps(
                #[trigger] self.merges[j],
            )
        &&& (self.consumed ==> self == SheetModel::shell(self.name))
    }

    /// This sheet with one cell written: the coordinate holds the new
    /// content, whatever it held before.
    pub open spec fn with_cell(self, row: u32, col: u16, content: CellView) -> SheetModel {
        SheetModel { cells: self.cells.insert((row, col), content), ..self }
    }

    /// This sheet with one more merged range.
    pub open spec fn with_merge(self, range: MergeView) -> SheetModel {
        SheetModel { merges: self.merges.push(range), ..self }
    }

    /// This sheet with the width of one column set.
    pub open spec fn with_column_width(self, col: u16, width: u32) -> SheetModel {
        SheetModel { column_widths: self.column_widths.insert(col, width), ..self }
    }

    /// This sheet with the height of one row set.
    pub open spec fn with_row_height(self, row: u32, height: u32) -> SheetModel {
        SheetModel { row_heights: self.row_heights.insert(row, height), ..self }
    }

    /// This sheet with the default row height set.
    pub open spec fn with_default_row_height(self, height: u32) -> SheetModel {
        SheetModel { default_row_height: Some(height), ..self }
    }

    /// This sheet with one column hidden.
    pub open spec fn with_hidden_column(self, col: u16) -> SheetModel {
        SheetModel { hidden_columns: self.hidden_columns.insert(col), ..self }
    }

    /// This sheet with a collapsed group on one column.
    pub open spec fn with_collapsed_column(self, col: u16) -> SheetModel {
        SheetModel { collapsed_columns: self.collapsed_columns.insert(col), ..self }
    }

    /// This sheet with the gridlines on screen turned on or off.
    pub open spec fn with_screen_gridlines(self, enable: bool) -> SheetModel {
        SheetModel { screen_gridlines: enable, ..self }
    }

    /// This sheet with the printed gridlines turned on or off.
    pub open spec fn with_print_gridlines(self, enable: bool) -> SheetModel {
        SheetModel { print_gridlines: enable, ..self }
    }

    /// Why a write of a text of `text_len` characters to a coordinate is
    /// refused, if it is. A blank or a formula counts as a text of no
    /// characters.
    pub open spec fn cell_error(self, row: u32, col: u16, text_len: nat) -> Option<SheetError> {
        if self.consumed {
            Some(SheetError::Consumed)
        } else if row >= ROW_LIMIT {
            Some(SheetError::RowOutOfRange)
        } else if col >= COLUMN_LIMIT {
            Some(SheetError::ColumnOutOfRange)
        } else if text_len > TEXT_LIMIT {
            Some(SheetError::TextTooLong)
        } else {
            None
        }
    }

    /// Whether a range shares a cell with a merged range of this sheet.
    pub open spec fn overlaps_merge(self, range: MergeView) -> bool {
        exists|i: int| 0 <= i < self.merges.len() && (#[trigger] self.merges[i]).overlaps(range)
    }

    /// Why the declaration of a merged range is refused, if it is.
    pub open spec fn merge_error(self, range: MergeView) -> Option<SheetError> {
        if self.consumed {
            Some(SheetError::Consumed)
        } else if range.first_row >= ROW_LIMIT || range.last_row >= ROW_LIMIT {
            Some(SheetError::RowOutOfRange)
        } else if range.first_col >= COLUMN_LIMIT || range.last_col >= COLUMN_LIMIT {
            Some(SheetError::ColumnOutOfRange)
        } else if range.first_row > range.last_row || range.first_col > range.last_col {
            Some(SheetError::MergeReversed)
        } else if range.first_row == range.last_row && range.first_col == range.last_col {
            Some(SheetError::MergeSingleCell)
        } else if range.text.len() > TEXT_LIMIT {
            Some(SheetError::TextTooLong)
        } else if self.overlaps_merge(range) {
            Some(SheetError::MergeOverlap)
        } else {
            None
        }
    }

    /// Why a setting for a row is refused, if it is.
    pub open spec fn row_error(self, row: u32) -> Option<SheetError> {
        if self.consumed {
            Some(SheetError::Consumed)
        } else if row >= ROW_LIMIT {
            Some(SheetError::RowOutOfRange)
        } else {
            None
        }
    }

    /// Why a setting for a column is refused, if it is.
    pub open spec fn column_error(self, col: u16) -> Option<SheetError> {
        if self.consumed {
            Some(SheetError::Consumed)
        } else if col >= COLUMN_LIMIT {
            Some(SheetError::ColumnOutOfRange)
        } else {
            None
        }
    }

    /// Why a collapsed group on a column is refused, if it is. The column
    /// behind the group carries the mark of the group, so it has to lie on
    /// the sheet too.
    pub open spec fn group_error(self, col: u16) -> Option<SheetError> {
        if self.consumed {
            Some(SheetError::Consumed)
        } else if col + 1 >= COLUMN_LIMIT {
            Some(SheetError::ColumnOutOfRange)
        } else {
            None
        }
    }

    /// Why a setting for the whole sheet is refused, if it is: a default row
    /// height, or a gridline flag.
    pub open spec fn flag_error(self) -> Option<SheetError> {
        if self.consumed {
            Some(SheetError::Consumed)
        } else {
            None
        }
    }
}

/// What each merged range of a sequence is.
pub open spec fn merge_views(ranges: Seq<MergeRange>) -> Seq<MergeView> {
    Seq::new(ranges.len(), |i: int| ranges[i]@)
}

/// The width that a file shows for a width that a column was given: no
/// column is shown wider than 255 characters.
pub open spec fn spec_shown_width(width: u32) -> u32 {
    if width > COLUMN_WIDTH_LIMIT {
        COLUMN_WIDTH_LIMIT
    } else {
        width
    }
}

/// The width that is handed to the encoder for a width that a column was
/// given.
#[verifier::when_used_as_spec(spec_shown_width)]
pub fn shown_width(width: u32) -> (r: u32)
    ensures
        r == spec_shown_width(width),
{
    if width > COLUMN_WIDTH_LIMIT {
        COLUMN_WIDTH_LIMIT
    } else {
        width
    }
}

/// One operation that a worksheet accepted.
#[derive(Debug)]
pub(crate) enum SheetOp {
    Cell { row: u32, col: u16, content: CellContent },
    Merge { range: MergeRange },
    ColumnWidth { col: u16, width: u32 },
    RowHeight { row: u32, height: u32 },
    DefaultRowHeight { height: u32 },
    HideColumn { col: u16 },
    CollapseColumn { col: u16 },
    ScreenGridlines { enable: bool },
    PrintGridlines { enable: bool },
}

/// Whether an operation is within the limits of a sheet, whatever the sheet
/// holds.
pub(crate) open spec fn op_ok(op: SheetOp) -> bool {
    match op {
        SheetOp::Cell { row, col, content } => in_bounds(row, col) && content@.fits(),
        SheetOp::Merge { range } => range@.well_shaped(),
        SheetOp::ColumnWidth { col, width } => col < COLUMN_LIMIT,
        SheetOp::RowHeight { row, height } => row < ROW_LIMIT,
        SheetOp::DefaultRowHeight { height } => true,
        SheetOp::HideColumn { col } => col < COLUMN_LIMIT,
        SheetOp::CollapseColumn { col } => col + 1 < COLUMN_LIMIT,
        SheetOp::ScreenGridlines { enable } => true,
        SheetOp::PrintGridlines { enable } => true,
    }
}

/// Whether no two collapsed groups among the operations are on one column.
pub(crate) open spec fn groups_distinct(ops: Seq<SheetOp>) -> bool {
    forall|i: int, j: int|
        0 <= i < j < ops.len() && (#[trigger] ops[i]) is CollapseColumn && (
        #[trigger] ops[j]) is CollapseColumn ==> ops[i]->CollapseColumn_col
            != ops[j]->CollapseColumn_col
}

/// A sheet after one operation.
pub(crate) open spec fn apply_op(m: SheetModel, op: SheetOp) -> SheetModel {
    match op {
        SheetOp::Cell { row, col, content } => m.with_cell(row, col, content@),
        SheetOp::Merge { range } => m.with_merge(range@),
        SheetOp::ColumnWidth { col, width } => m.with_column_width(col, width),
        SheetOp::RowHeight { row, height } => m.with_row_height(row, height),
        SheetOp::DefaultRowHeight { height } => m.with_default_row_height(height),
        SheetOp::HideColumn { col } => m.with_hidden_column(col),
        SheetOp::CollapseColumn { col } => m.with_collapsed_column(col),
        SheetOp::ScreenGridlines { enable } => m.with_screen_gridlines(enable),
        SheetOp::PrintGridlines { enable } => m.with_print_gridlines(enable),
    }
}

/// The sheet of the given name after a sequence of operations.
pub(crate) open spec fn model_of(name: Seq<char>, ops: Seq<SheetOp>) -> SheetModel
    decreases ops.len(),
{
    if ops.len() == 0 {
        SheetModel::empty(name)
    } else {
        apply_op(model_of(name, ops.drop_last()), ops.last())
    }
}

/// One more operation changes the sheet as that operation says.
pub(crate) proof fn lemma_model_push(name: Seq<char>, ops: Seq<SheetOp>, op: SheetOp)
    ensures
        model_of(name, ops.push(op)) == apply_op(model_of(name, ops), op),
{
    assert(ops.push(op).drop_last() =~= ops);
}

/// The sheet after the first `i + 1` operations is the sheet after the first
/// `i`, changed by the operation at `i`.
pub(crate) proof fn lemma_model_step(name: Seq<char>, ops: Seq<SheetOp>, i: int)
    requires
        0 <= i < ops.len(),
    ensures
        model_of(name, ops.take(i + 1)) == apply_op(model_of(name, ops.take(i)), ops[i]),
{
    assert(ops.take(i + 1).drop_last() =~= ops.take(i));
}

/// No operation changes the name of a sheet or hands it over.
pub(crate) proof fn lemma_model_name(name: Seq<char>, ops: Seq<SheetOp>)
    ensures
        model_of(name, ops).name == name,
        !model_of(name, ops).consumed,
    decreases ops.len(),
{
    if ops.len() > 0 {
        lemma_model_name(name, ops.drop_last());
    }
}

/// A merged range or a collapsed group that was declared shows in the sheet.
pub(crate) proof fn lemma_declarations_show(name: Seq<char>, ops: Seq<SheetOp>, i: int)
    requires
        0 <= i < ops.len(),
    ensures
        ops[i] is Merge ==> model_of(name, ops).merges.len() > 0,
        ops[i] matches SheetOp::CollapseColumn { col } ==> model_of(
            name,
            ops,
        ).collapsed_columns.contains(col),
    decreases ops.len(),
{
    if i < ops.len() - 1 {
        lemma_declarations_show(name, ops.drop_last(), i);
    }
}

/// One sheet of a workbook. A worksheet is made by a workbook, which gives
/// it its name, and takes operations until it is handed over.
#[derive(Debug)]
pub struct RustWorksheet {
    name: String,
    ops: Vec<SheetOp>,
    consumed: bool,
}

impl View for RustWorksheet {
    type V = SheetModel;

    closed spec fn view(&self) -> SheetModel {
        SheetModel { consumed: self.consumed, ..model_of(self.name@, self.ops@) }
    }
}

impl RustWorksheet {
    #[verifier::type_invariant]
    spec fn inv(self) -> bool {
        &&& valid_sheet_name(self.name@)
        &&& self.consumed ==> self.ops@.len() == 0
        &&& forall|i: int| 0 <= i < self.ops@.len() ==> op_ok(#[trigger] self.ops@[i])
        &&& groups_distinct(self.ops@)
        &&& model_of(self.name@, self.ops@).wf()
    }

    /// What the encoder holds once it was handed the operations that this
    /// worksheet accepted, in their order.
    pub(crate) closed spec fn encoded(&self) -> Encoded {
        encoded_of(self.name@, self.ops@)
    }

    /// A worksheet of the given name on which nothing was done.
    pub(crate) fn new(name: String) -> (r: RustWorksheet)
        requires
            valid_sheet_name(name@),
        ensures
            r@ == SheetModel::empty(name@),
            r@.wf(),
    {
        RustWorksheet { name, ops: Vec::new(), consumed: false }
    }

    /// Adds one operation to those that the worksheet accepted.
    fn record(&mut self, op: SheetOp)
        requires
            !old(self)@.consumed,
            op_ok(op),
            apply_op(old(self)@, op).wf(),
            op matches SheetOp::CollapseColumn { col } ==> !old(self)@.collapsed_columns.contains(
                col,
            ),
        ensures
            final(self)@ == apply_op(old(self)@, op),
            final(self)@.wf(),
    {
        proof {
            use_type_invariant(&*self);
            lemma_model_push(self.name@, self.ops@, op);
            lemma_model_name(self.name@, self.ops@);
            lemma_model_name(self.name@, self.ops@.push(op));
            let had = self.ops@;
            let more = had.push(op);
            assert forall|i: int, j: int|
                0 <= i < j < more.len() && (#[trigger] more[i]) is CollapseColumn && (
                #[trigger] more[j]) is CollapseColumn implies more[i]->CollapseColumn_col
                != more[j]->CollapseColumn_col by {
                if j < had.len() {
                    assert(more[i] == had[i] && more[j] == had[j]);
                } else {
                    assert(more[i] == had[i]);
                    lemma_declarations_show(self.name@, had, i);
                }
            }
        }
        let mut ops: Vec<SheetOp> = Vec::new();
        std::mem::swap(&mut ops, &mut self.ops);
        ops.push(op);
        proof {
            assert(ops@ == old(self).ops@.push(op));
            assert forall|i: int| 0 <= i < ops@.len() implies op_ok(#[trigger] ops@[i]) by {
                if i < old(self).ops@.len() {
                    assert(ops@[i] == old(self).ops@[i]);
                }
            }
        }
        self.ops = ops;
    }

    /// Why a write to a coordinate is refused, if it is.
    fn check_cell(&self, row: u32, col: u16, text_len: usize) -> (r: Option<SheetError>)
        ensures
            r == self@.cell_error(row, col, text_len as nat),
    {
        if self.consumed {
            Some(SheetError::Consumed)
        } else if row >= ROW_LIMIT {
            Some(SheetError::RowOutOfRange)
        } else if col >= COLUMN_LIMIT {
            Some(SheetError::ColumnOutOfRange)
        } else if text_len > TEXT_LIMIT {
            Some(SheetError::TextTooLong)
        } else {
            None
        }
    }

    /// Writes an empty cell that carries a format only. Where no format is
    /// given, the cell carries the format on which nothing is set, as if
    /// that format had been given. The coordinate has to lie on the sheet.
    pub fn write_blank(&mut self, row: u32, col: u16, format: Option<&RustFormat>) -> (r: Result<
        (),
        SheetError,
    >)
        ensures
            match old(self)@.cell_error(row, col, 0) {
                Some(e) => r == Err::<(), SheetError>(e) && final(self)@ == old(self)@,
                None => r == Ok::<(), SheetError>(()) && final(self)@ == old(self)@.with_cell(
                    row,
                    col,
                    CellView::Blank {
                        format: match format {
                            Some(f) => f@,
                            None => FormatView::initial(),
                        },
                    },
                ),
            },
            final(self)@.wf(),
    {
        proof {
            use_type_invariant(&*self);
        }
        let format = match format {
            Some(f) => {
                proof {
                    use_type_invariant(f);
                }
                f.clone()
            },
            None => RustFormat::new(),
        };
        if let Some(e) = self.check_cell(row, col, 0) {
            return Err(e);
        }
        self.record(SheetOp::Cell { row, col, content: CellContent::Blank { format } });
        Ok(())
    }

    /// Writes a text without a format of its own. The coordinate has to lie
    /// on the sheet, and the text may have 32767 characters at most.
    pub fn write_string(&mut self, row: u32, col: u16, text: String) -> (r: Result<
        (),
        SheetError,
    >)
        ensures
            match old(self)@.cell_error(row, col, text@.len()) {
                Some(e) => r == Err::<(), SheetError>(e) && final(self)@ == old(self)@,
                None => r == Ok::<(), SheetError>(()) && final(self)@ == old(self)@.with_cell(
                    row,
                    col,
                    CellView::Text { text: text@, format: None },
                ),
            },
            final(self)@.wf(),
    {
        proof {
            use_type_invariant(&*self);
        }
        if let Some(e) = self.check_cell(row, col, text.as_str().unicode_len()) {
            return Err(e);
        }
        self.record(SheetOp::Cell { row, col, content: CellContent::Text { text, format: None } });
        Ok(())
    }

    /// Writes a text with a format. The coordinate has to lie on the sheet,
    /// and the text may have 32767 characters at most.
    pub fn write_string_with_format(
        &mut self,
        row: u32,
        col: u16,
        text: String,
        format: &RustFormat,
    ) -> (r: Result<(), SheetError>)
        ensures
            match old(self)@.cell_error(row, col, text@.len()) {
                Some(e) => r == Err::<(), SheetError>(e) && final(self)@ == old(self)@,
                None => r == Ok::<(), SheetError>(()) && final(self)@ == old(self)@.with_cell(
                    row,
                    col,
                    CellView::Text { text: text@, format: Some(format@) },
                ),
            },
            final(self)@.wf(),
    {
        proof {
            use_type_invariant(&*self);
            use_type_invariant(format);
        }
        if let Some(e) = self.check_cell(row, col, text.as_str().unicode_len()) {
            return Err(e);
        }
        let format = Some(format.clone());
        self.record(SheetOp::Cell { row, col, content: CellContent::Text { text, format } });
        Ok(())
    }

    /// Writes a formula without a format of its own. The formula is kept as
    /// it is written and is not read. The coordinate has to lie on the sheet.
    pub fn write_formula(&mut self, row: u32, col: u16, formula: String) -> (r: Result<
        (),
        SheetError,
    >)
        ensures
            match old(self)@.cell_error(row, col, 0) {
                Some(e) => r == Err::<(), SheetError>(e) && final(self)@ == old(self)@,
                None => r == Ok::<(), SheetError>(()) && final(self)@ == old(self)@.with_cell(
                    row,
                    col,
                    CellView::Formula { formula: formula@, format: None },
                ),
            },
            final(self)@.wf(),
    {
        proof {
            use_type_invariant(&*self);
        }
        if let Some(e) = self.check_cell(row, col, 0) {
            return Err(e);
        }
        self.record(
            SheetOp::Cell { row, col, content: CellContent::Formula { formula, format: None } },
        );
        Ok(())
    }

    /// Writes a formula with a format. The formula is kept as it is written
    /// and is not read. The coordinate has to lie on the sheet.
    pub fn write_formula_with_format(
        &mut self,
        row: u32,
        col: u16,
        formula: String,
        format: &RustFormat,
    ) -> (r: Result<(), SheetError>)
        ensures
            match old(self)@.cell_error(row, col, 0) {
                Some(e) => r == Err::<(), SheetError>(e) && final(self)@ == old(self)@,
                None => r == Ok::<(), SheetError>(()) && final(self)@ == old(self)@.with_cell(
                    row,
                    col,
                    CellView::Formula { formula: formula@, format: Some(format@) },
                ),
            },
            final(self)@.wf(),
    {
        proof {
            use_type_invariant(&*self);
            use_type_invariant(format);
        }
        if let Some(e) = self.check_cell(row, col, 0) {
            return Err(e);
        }
        let format = Some(format.clone());
        self.record(SheetOp::Cell { row, col, content: CellContent::Formula { formula, format } });
        Ok(())
    }

    /// Whether a range shares a cell with a merged range of this sheet.
    fn overlaps_any(&self, range: &MergeRange) -> (r: bool)
        ensures
            r == self@.overlaps_merge(range@),
    {
        let mut found = false;
        let mut i: usize = 0;
        while i < self.ops.len()
            invariant
                i <= self.ops@.len(),
                found == model_of(self.name@, self.ops@.take(i as int)).overlaps_merge(range@),
            decreases self.ops@.len() - i,
        {
            let ghost before = model_of(self.name@, self.ops@.take(i as int));
            let ghost after = model_of(self.name@, self.ops@.take(i + 1));
            proof {
                lemma_model_step(self.name@, self.ops@, i as int);
            }
            match &self.ops[i] {
                SheetOp::Merge { range: other } => {
                    let hit = other.overlaps(range);
                    proof {
                        assert(after.merges == before.merges.push(other@));
                        if hit {
                            assert(after.merges[before.merges.len() as int].overlaps(range@));
                        }
                        if before.overlaps_merge(range@) {
                            let k = choose|k: int|
                                0 <= k < before.merges.len() && (#[trigger] before.merges[k]).overlaps(
                                    range@,
                                );
                            assert(after.merges[k].overlaps(range@));
                        }
                        if after.overlaps_merge(range@) {
                            let k = choose|k: int|
                                0 <= k < after.merges.len() && (#[trigger] after.merges[k]).overlaps(
                                    range@,
                                );
                            if k < before.merges.len() {
                                assert(before.merges[k].overlaps(range@));
                            }
                        }
                    }
                    if hit {
                        found = true;
                    }
                },
                _ => {
                    proof {
                        assert(after.merges == before.merges);
                    }
                },
            }
            i += 1;
        }
        proof {
            assert(self.ops@.take(self.ops@.len() as int) =~= self.ops@);
            assert(self@.merges == model_of(self.name@, self.ops@).merges);
        }
        found
    }

    /// Declares a rectangle of cells as one merged cell that shows `text` in
    /// the given format. Both corners have to lie on the sheet, the first
    /// not behind the last on either axis; the range needs more than one
    /// cell, and may share none with a range declared before.
    pub fn merge_range(
        &mut self,
        first_row: u32,
        first_col: u16,
        last_row: u32,
        last_col: u16,
        text: String,
        format: &RustFormat,
    ) -> (r: Result<(), SheetError>)
        ensures
            ({
                let range = MergeView {
                    first_row,
                    first_col,
                    last_row,
                    last_col,
                    text: text@,
                    format: format@,
                };
                match old(self)@.merge_error(range) {
                    Some(e) => r == Err::<(), SheetError>(e) && final(self)@ == old(self)@,
                    None => r == Ok::<(), SheetError>(()) && final(self)@ == old(self)@.with_merge(
                        range,
                    ),
                }
            }),
            final(self)@.wf(),
    {
        proof {
            use_type_invariant(&*self);
            use_type_invariant(format);
        }
        if self.consumed {
            return Err(SheetError::Consumed);
        }
        if first_row >= ROW_LIMIT || last_row >= ROW_LIMIT {
            return Err(SheetError::RowOutOfRange);
        }
        if first_col >= COLUMN_LIMIT || last_col >= COLUMN_LIMIT {
            return Err(SheetError::ColumnOutOfRange);
        }
        if first_row > last_row || first_col > last_col {
            return Err(SheetError::MergeReversed);
        }
        if first_row == last_row && first_col == last_col {
            return Err(SheetError::MergeSingleCell);
        }
        if text.as_str().unicode_len() > TEXT_LIMIT {
            return Err(SheetError::TextTooLong);
        }
        let range = MergeRange {
            first_row,
            first_col,
            last_row,
            last_col,
            text,
            format: format.clone(),
        };
        if self.overlaps_any(&range) {
            return Err(SheetError::MergeOverlap);
        }
        proof {
            lemma_accepted_merge_keeps_wf(self@, range@);
        }
        self.record(SheetOp::Merge { range });
        Ok(())
    }

    /// Sets the width of a column, in characters. A later width for the same
    /// column replaces an earlier one. The column has to lie on the sheet;
    /// every width is taken. A file shows no column wider than 255
    /// characters, and shows none of a column of width zero.
    pub fn set_column_width(&mut self, col: u16, width: u32) -> (r: Result<(), SheetError>)
        ensures
            match old(self)@.column_error(col) {
                Some(e) => r == Err::<(), SheetError>(e) && final(self)@ == old(self)@,
                None => r == Ok::<(), SheetError>(()) && final(self)@
                    == old(self)@.with_column_width(col, width),
            },
            final(self)@.wf(),
    {
        proof {
            use_type_invariant(&*self);
        }
        if self.consumed {
            return Err(SheetError::Consumed);
        }
        if col >= COLUMN_LIMIT {
            return Err(SheetError::ColumnOutOfRange);
        }
        self.record(SheetOp::ColumnWidth { col, width });
        Ok(())
    }

    /// Sets the height of a row, in pixels; a pixel is three quarters of a
    /// point. A later height for the same row replaces an earlier one. The
    /// row has to lie on the sheet.
    pub fn set_row_height(&mut self, row: u32, height: u32) -> (r: Result<(), SheetError>)
        ensures
            match old(self)@.row_error(row) {
                Some(e) => r == Err::<(), SheetError>(e) && final(self)@ == old(self)@,
                None => r == Ok::<(), SheetError>(()) && final(self)@ == old(self)@.with_row_height(
                    row,
                    height,
                ),
            },
            final(self)@.wf(),
    {
        proof {
            use_type_invariant(&*self);
        }
        if self.consumed {
            return Err(SheetError::Consumed);
        }
        if row >= ROW_LIMIT {
            return Err(SheetError::RowOutOfRange);
        }
        self.record(SheetOp::RowHeight { row, height });
        Ok(())
    }

    /// Sets the height of the rows that have none of their own, in pixels.
    /// Every height is taken. A file has no default height of zero: where
    /// that is the last one set, the file has the default that was in force
    /// before it.
    pub fn set_default_row_height(&mut self, height: u32) -> (r: Result<(), SheetError>)
        ensures
            match old(self)@.flag_error() {
                Some(e) => r == Err::<(), SheetError>(e) && final(self)@ == old(self)@,
                None => r == Ok::<(), SheetError>(()) && final(self)@
                    == old(self)@.with_default_row_height(height),
            },
            final(self)@.wf(),
    {
        proof {
            use_type_invariant(&*self);
        }
        if self.consumed {
            return Err(SheetError::Consumed);
        }
        self.record(SheetOp::DefaultRowHeight { height });
        Ok(())
    }

    /// Turns the gridlines that are shown on screen on or off. The printed
    /// gridlines are not touched.
    pub fn set_screen_gridlines(&mut self, enable: bool) -> (r: Result<(), SheetError>)
        ensures
            match old(self)@.flag_error() {
                Some(e) => r == Err::<(), SheetError>(e) && final(self)@ == old(self)@,
                None => r == Ok::<(), SheetError>(()) && final(self)@
                    == old(self)@.with_screen_gridlines(enable),
            },
            final(self)@.wf(),
    {
        proof {
            use_type_invariant(&*self);
        }
        if self.consumed {
            return Err(SheetError::Consumed);
        }
        self.record(SheetOp::ScreenGridlines { enable });
        Ok(())
    }

    /// Turns the gridlines that are printed on or off. The gridlines on
    /// screen are not touched.
    pub fn set_print_gridlines(&mut self, enable: bool) -> (r: Result<(), SheetError>)
        ensures
            match old(self)@.flag_error() {
                Some(e) => r == Err::<(), SheetError>(e) && final(self)@ == old(self)@,
                None => r == Ok::<(), SheetError>(()) && final(self)@
                    == old(self)@.with_print_gridlines(enable),
            },
            final(self)@.wf(),
    {
        proof {
            use_type_invariant(&*self);
        }
        if self.consumed {
            return Err(SheetError::Consumed);
        }
        self.record(SheetOp::PrintGridlines { enable });
        Ok(())
    }

    /// Hides a column. What is written in the column stays. The column has
    /// to lie on the sheet.
    pub fn set_column_hidden(&mut self, col: u16) -> (r: Result<(), SheetError>)
        ensures
            match old(self)@.column_error(col) {
                Some(e) => r == Err::<(), SheetError>(e) && final(self)@ == old(self)@,
                None => r == Ok::<(), SheetError>(()) && final(self)@
                    == old(self)@.with_hidden_column(col),
            },
            final(self)@.wf(),
    {
        proof {
            use_type_invariant(&*self);
        }
        if self.consumed {
            return Err(SheetError::Consumed);
        }
        if col >= COLUMN_LIMIT {
            return Err(SheetError::ColumnOutOfRange);
        }
        self.record(SheetOp::HideColumn { col });
        Ok(())
    }

    /// Declares an outline group that holds one column and starts out
    /// collapsed. Declaring the group of a column again changes nothing. The
    /// column and the one behind it have to lie on the sheet.
    pub fn group_columns_collapsed(&mut self, col: u16) -> (r: Result<(), SheetError>)
        ensures
            match old(self)@.group_error(col) {
                Some(e) => r == Err::<(), SheetError>(e) && final(self)@ == old(self)@,
                None => r == Ok::<(), SheetError>(()) && final(self)@
                    == old(self)@.with_collapsed_column(col),
            },
            final(self)@.wf(),
    {
        proof {
            use_type_invariant(&*self);
        }
        if self.consumed {
            return Err(SheetError::Consumed);
        }
        if col >= COLUMN_LIMIT - 1 {
            return Err(SheetError::ColumnOutOfRange);
        }
        if self.is_column_collapsed(col) {
            proof {
                assert(self@.collapsed_columns.insert(col) =~= self@.collapsed_columns);
            }
            return Ok(());
        }
        self.record(SheetOp::CollapseColumn { col });
        Ok(())
    }

    /// Whether a column carries a collapsed outline group.
    pub fn is_column_collapsed(&self, col: u16) -> (r: bool)
        ensures
            r == self@.collapsed_columns.contains(col),
    {
        let mut found = false;
        let mut i: usize = 0;
        while i < self.ops.len()
            invariant
                i <= self.ops@.len(),
                found == model_of(self.name@, self.ops@.take(i as int)).collapsed_columns.contains(
                    col,
                ),
            decreases self.ops@.len() - i,
        {
            proof {
                lemma_model_step(self.name@, self.ops@, i as int);
            }
            match &self.ops[i] {
                SheetOp::CollapseColumn { col: c } => {
                    if *c == col {
                        found = true;
                    }
                },
                _ => {},
            }
            i += 1;
        }
        proof {
            assert(self.ops@.take(self.ops@.len() as int) =~= self.ops@);
        }
        found
    }

    /// The name of the sheet.
    pub fn get_name(&self) -> (r: &str)
        ensures
            r@ == self@.name,
            self@.wf(),
    {
        proof {
            use_type_invariant(self);
            lemma_model_name(self.name@, self.ops@);
        }
        self.name.as_str()
    }

    /// Whether the worksheet was handed over. One that was takes no more
    /// operations.
    pub fn is_consumed(&self) -> (r: bool)
        ensures
            r == self@.consumed,
            self@.wf(),
    {
        proof {
            use_type_invariant(self);
            lemma_model_name(self.name@, self.ops@);
        }
        self.consumed
    }

    /// The content of a cell, if the cell was written: the content of the
    /// last write to the coordinate.
    pub fn cell(&self, row: u32, col: u16) -> (r: Option<&CellContent>)
        ensures
            match r {
                Some(content) => self@.cells.dom().contains((row, col)) && self@.cells[(row, col)]
                    == content@,
                None => !self@.cells.dom().contains((row, col)),
            },
    {
        let mut found: Option<&CellContent> = None;
        let mut i: usize = 0;
        while i < self.ops.len()
            invariant
                i <= self.ops@.len(),
                ({
                    let cells = model_of(self.name@, self.ops@.take(i as int)).cells;
                    match found {
                        Some(content) => cells.dom().contains((row, col)) && cells[(row, col)]
                            == content@,
                        None => !cells.dom().contains((row, col)),
                    }
                }),
            decreases self.ops@.len() - i,
        {
            proof {
                lemma_model_step(self.name@, self.ops@, i as int);
            }
            match &self.ops[i] {
                SheetOp::Cell { row: r, col: c, content } => {
                    if *r == row && *c == col {
                        found = Some(content);
                    }
                },
                _ => {},
            }
            i += 1;
        }
        proof {
            assert(self.ops@.take(self.ops@.len() as int) =~= self.ops@);
        }
        found
    }

    /// The width of a column, if the column was given one: the last width
    /// that it was given.
    pub fn column_width(&self, col: u16) -> (r: Option<u32>)
        ensures
            match r {
                Some(width) => self@.column_widths.dom().contains(col) && self@.column_widths[col]
                    == width,
                None => !self@.column_widths.dom().contains(col),
            },
    {
        let mut found: Option<u32> = None;
        let mut i: usize = 0;
        while i < self.ops.len()
            invariant
                i <= self.ops@.len(),
                ({
                    let widths = model_of(self.name@, self.ops@.take(i as int)).column_widths;
                    match found {
                        Some(width) => widths.dom().contains(col) && widths[col] == width,
                        None => !widths.dom().contains(col),
                    }
                }),
            decreases self.ops@.len() - i,
        {
            proof {
                lemma_model_step(self.name@, self.ops@, i as int);
            }
            match &self.ops[i] {
                SheetOp::ColumnWidth { col: c, width } => {
                    if *c == col {
                        found = Some(*width);
                    }
                },
                _ => {},
            }
            i += 1;
        }
        proof {
            assert(self.ops@.take(self.ops@.len() as int) =~= self.ops@);
        }
        found
    }

    /// The height of a row in pixels, if the row was given one: the last
    /// height that it was given.
    pub fn row_height(&self, row: u32) -> (r: Option<u32>)
        ensures
            match r {
                Some(height) => self@.row_heights.dom().contains(row) && self@.row_heights[row]
                    == height,
                None => !self@.row_heights.dom().contains(row),
            },
    {
        let mut found: Option<u32> = None;
        let mut i: usize = 0;
        while i < self.ops.len()
            invariant
                i <= self.ops@.len(),
                ({
                    let heights = model_of(self.name@, self.ops@.take(i as int)).row_heights;
                    match found {
                        Some(height) => heights.dom().contains(row) && heights[row] == height,
                        None => !heights.dom().contains(row),
                    }
                }),
            decreases self.ops@.len() - i,
        {
            proof {
                lemma_model_step(self.name@, self.ops@, i as int);
            }
            match &self.ops[i] {
                SheetOp::RowHeight { row: r, height } => {
                    if *r == row {
                        found = Some(*height);
                    }
                },
                _ => {},
            }
            i += 1;
        }
        proof {
            assert(self.ops@.take(self.ops@.len() as int) =~= self.ops@);
        }
        found
    }

    /// The height in pixels of the rows that have none of their own, if it
    /// was set.
    pub fn default_row_height(&self) -> (r: Option<u32>)
        ensures
            r == self@.default_row_height,
    {
        let mut found: Option<u32> = None;
        let mut i: usize = 0;
        while i < self.ops.len()
            invariant
                i <= self.ops@.len(),
                found == model_of(self.name@, self.ops@.take(i as int)).default_row_height,
            decreases self.ops@.len() - i,
        {
            proof {
                lemma_model_step(self.name@, self.ops@, i as int);
            }
            match &self.ops[i] {
                SheetOp::DefaultRowHeight { height } => {
                    found = Some(*height);
                },
                _ => {},
            }
            i += 1;
        }
        proof {
            assert(self.ops@.take(self.ops@.len() as int) =~= self.ops@);
        }
        found
    }

    /// Whether a column is hidden.
    pub fn is_column_hidden(&self, col: u16) -> (r: bool)
        ensures
            r == self@.hidden_columns.contains(col),
    {
        let mut found = false;
        let mut i: usize = 0;
        while i < self.ops.len()
            invariant
                i <= self.ops@.len(),
                found == model_of(self.name@, self.ops@.take(i as int)).hidden_columns.contains(
                    col,
                ),
            decreases self.ops@.len() - i,
        {
            proof {
                lemma_model_step(self.name@, self.ops@, i as int);
            }
            match &self.ops[i] {
                SheetOp::HideColumn { col: c } => {
                    if *c == col {
                        found = true;
                    }
                },
                _ => {},
            }
            i += 1;
        }
        proof {
            assert(self.ops@.take(self.ops@.len() as int) =~= self.ops@);
        }
        found
    }

    /// Whether gridlines are shown on screen.
    pub fn screen_gridlines(&self) -> (r: bool)
        ensures
            r == self@.screen_gridlines,
    {
        let mut shown = true;
        let mut i: usize = 0;
        while i < self.ops.len()
            invariant
                i <= self.ops@.len(),
                shown == model_of(self.name@, self.ops@.take(i as int)).screen_gridlines,
            decreases self.ops@.len() - i,
        {
            proof {
                lemma_model_step(self.name@, self.ops@, i as int);
            }
            match &self.ops[i] {
                SheetOp::ScreenGridlines { enable } => {
                    shown = *enable;
                },
                _ => {},
            }
            i += 1;
        }
        proof {
            assert(self.ops@.take(self.ops@.len() as int) =~= self.ops@);
        }
        shown
    }

    /// Whether gridlines are printed.
    pub fn print_gridlines(&self) -> (r: bool)
        ensures
            r == self@.print_gridlines,
    {
        let mut printed = false;
        let mut i: usize = 0;
        while i < self.ops.len()
            invariant
                i <= self.ops@.len(),
                printed == model_of(self.name@, self.ops@.take(i as int)).print_gridlines,
            decreases self.ops@.len() - i,
        {
            proof {
                lemma_model_step(self.name@, self.ops@, i as int);
            }
            match &self.ops[i] {
                SheetOp::PrintGridlines { enable } => {
                    printed = *enable;
                },
                _ => {},
            }
            i += 1;
        }
        proof {
            assert(self.ops@.take(self.ops@.len() as int) =~= self.ops@);
        }
        printed
    }

    /// The merged ranges, in the order in which they were declared.
    pub fn merges(&self) -> (r: Vec<MergeRange>)
        ensures
            merge_views(r@) == self@.merges,
    {
        let mut out: Vec<MergeRange> = Vec::new();
        let mut i: usize = 0;
        while i < self.ops.len()
            invariant
                i <= self.ops@.len(),
                merge_views(out@) == model_of(self.name@, self.ops@.take(i as int)).merges,
            decreases self.ops@.len() - i,
        {
            proof {
                lemma_model_step(self.name@, self.ops@, i as int);
            }
            match &self.ops[i] {
                SheetOp::Merge { range } => {
                    let ghost before = out@;
                    out.push(range.clone());
                    proof {
                        assert(merge_views(out@) =~= merge_views(before).push(range@));
                    }
                },
                _ => {},
            }
            i += 1;
        }
        proof {
            assert(self.ops@.take(self.ops@.len() as int) =~= self.ops@);
        }
        out
    }

    /// Hands the worksheet over: what it holds moves to the worksheet that
    /// is returned, and this one is left as a shell that has the name and
    /// nothing else, and that refuses every further operation.
    pub fn take(&mut self) -> (r: RustWorksheet)
        ensures
            r@ == old(self)@,
            r@.wf(),
            final(self)@ == SheetModel::shell(old(self)@.name),
            final(self)@.wf(),
    {
        proof {
            use_type_invariant(&*self);
            lemma_model_name(self.name@, self.ops@);
            lemma_model_name(self.name@, Seq::<SheetOp>::empty());
        }
        let mut ops: Vec<SheetOp> = Vec::new();
        std::mem::swap(&mut ops, &mut self.ops);
        let consumed = self.consumed;
        self.consumed = true;
        RustWorksheet { name: self.name.clone(), ops, consumed }
    }


    /// Builds the sheet of `rust_xlsxwriter` that stands for this one, by
    /// handing to a new sheet, in their order, the operations that this
    /// worksheet accepted. The sheet takes every one of them, and then holds
    /// what the operations add up to in the encoder, which is what this
    /// worksheet shows; no column of it is in more than one group.
    pub(crate) fn to_writer(&self) -> (r: Result<
        rust_xlsxwriter::Worksheet,
        rust_xlsxwriter::XlsxError,
    >)
        ensures
            r is Ok,
            r matches Ok(sheet) ==> holds(sheet, self.encoded()),
            shows(self.encoded(), self@),
            self.encoded().name.len() > 0,
            forall|col: u16|
                #[trigger] level_of(self.encoded().levels, col) == (if self@.collapsed_columns.contains(
                    col,
                ) {
                    1int
                } else {
                    0int
                }),
    {
        proof {
            use_type_invariant(self);
            lemma_encoder_shows_sheet(self.name@, self.ops@);
            assert forall|col: u16|
                #[trigger] level_of(self.encoded().levels, col) == (if self@.collapsed_columns.contains(
                    col,
                ) {
                    1int
                } else {
                    0int
                }) by {
                lemma_levels_follow(self.name@, self.ops@, col);
            }
        }
        let mut sheet = sheet_new();
        match sheet_set_name(&mut sheet, self.name.as_str()) {
            Ok(_) => {},
            Err(e) => {
                return Err(e);
            },
        }
        proof {
            assert(self.ops@.take(0) =~= Seq::<SheetOp>::empty());
            assert(fresh_sheet(self.name@).marked =~= crate::encode::covered(
                fresh_sheet(self.name@).merges,
            ));
        }
        let mut i: usize = 0;
        while i < self.ops.len()
            invariant
                i <= self.ops@.len(),
                forall|j: int| 0 <= j < self.ops@.len() ==> op_ok(#[trigger] self.ops@[j]),
                groups_distinct(self.ops@),
                apart(model_of(self.name@, self.ops@).merges),
                steady(sheet, encoded_of(self.name@, self.ops@.take(i as int))),
            decreases self.ops@.len() - i,
        {
            proof {
                lemma_encoded_step(self.name@, self.ops@, i as int);
                lemma_merge_fits(self.name@, self.ops@, i as int);
                lemma_group_fits(self.name@, self.ops@, i as int);
            }
            let ghost had = encoded_of(self.name@, self.ops@.take(i as int));
            sheet = match replay(sheet, &self.ops[i], Ghost(had)) {
                Ok(after) => after,
                Err(e) => {
                    return Err(e);
                },
            };
            i += 1;
        }
        proof {
            assert(self.ops@.take(self.ops@.len() as int) =~= self.ops@);
        }
        Ok(sheet)
    }
}

/// The last write to a coordinate decides what the coordinate holds: two
/// writes to one coordinate leave the sheet as the second alone would.
pub proof fn lemma_last_write_wins(
    sheet: SheetModel,
    row: u32,
    col: u16,
    first: CellView,
    second: CellView,
)
    requires
        in_bounds(row, col),
    ensures
        sheet.with_cell(row, col, first).with_cell(row, col, second).cells[(row, col)] == second,
        sheet.with_cell(row, col, first).with_cell(row, col, second) == sheet.with_cell(
            row,
            col,
            second,
        ),
{
    assert(sheet.cells.insert((row, col), first).insert((row, col), second) =~= sheet.cells.insert(
        (row, col),
        second,
    ));
}

/// A write to one coordinate leaves every other coordinate as it was.
pub proof fn lemma_write_keeps_other_cells(
    sheet: SheetModel,
    row: u32,
    col: u16,
    content: CellView,
    other_row: u32,
    other_col: u16,
)
    requires
        (other_row, other_col) != (row, col),
    ensures
        sheet.with_cell(row, col, content).cells.dom().contains((other_row, other_col))
            == sheet.cells.dom().contains((other_row, other_col)),
        sheet.with_cell(row, col, content).cells[(other_row, other_col)] == sheet.cells[(
            other_row,
            other_col,
        )],
{
}

/// Hiding a column, or declaring a collapsed group on it, changes no cell:
/// every coordinate holds what it held, in that column too.
pub proof fn lemma_visibility_keeps_cells(sheet: SheetModel, col: u16)
    ensures
        sheet.with_hidden_column(col).cells == sheet.cells,
        sheet.with_collapsed_column(col).cells == sheet.cells,
        sheet.with_hidden_column(col).collapsed_columns == sheet.collapsed_columns,
        sheet.with_collapsed_column(col).hidden_columns == sheet.hidden_columns,
{
}

/// Writing a cell hides no column, shows none again, and declares or drops
/// no collapsed group.
pub proof fn lemma_write_keeps_visibility(sheet: SheetModel, row: u32, col: u16, content: CellView)
    ensures
        sheet.with_cell(row, col, content).hidden_columns == sheet.hidden_columns,
        sheet.with_cell(row, col, content).collapsed_columns == sheet.collapsed_columns,
{
}

/// The two gridline flags are independent: setting one leaves the other.
pub proof fn lemma_gridline_flags_independent(sheet: SheetModel, screen: bool, print: bool)
    ensures
        sheet.with_screen_gridlines(screen).print_gridlines == sheet.print_gridlines,
        sheet.with_print_gridlines(print).screen_gridlines == sheet.screen_gridlines,
        sheet.with_screen_gridlines(screen).with_print_gridlines(print) == sheet.with_print_gridlines(
            print,
        ).with_screen_gridlines(screen),
{
}

/// A size given to a column or a row replaces the size that this column or
/// row had, and no other.
pub proof fn lemma_sizes_overwrite_their_own(
    sheet: SheetModel,
    col: u16,
    width: u32,
    other_col: u16,
    row: u32,
    height: u32,
    other_row: u32,
)
    requires
        other_col != col,
        other_row != row,
    ensures
        sheet.with_column_width(col, width).column_widths[col] == width,
        sheet.with_column_width(col, width).column_widths.dom().contains(other_col)
            == sheet.column_widths.dom().contains(other_col),
        sheet.with_column_width(col, width).column_widths[other_col]
            == sheet.column_widths[other_col],
        sheet.with_row_height(row, height).row_heights[row] == height,
        sheet.with_row_height(row, height).row_heights.dom().contains(other_row)
            == sheet.row_heights.dom().contains(other_row),
        sheet.with_row_height(row, height).row_heights[other_row] == sheet.row_heights[other_row],
{
}

/// A write that is accepted keeps a sheet well formed.
pub proof fn lemma_accepted_write_keeps_wf(
    sheet: SheetModel,
    row: u32,
    col: u16,
    content: CellView,
    text_len: nat,
)
    requires
        sheet.wf(),
        content.fits(),
        sheet.cell_error(row, col, text_len) is None,
    ensures
        sheet.with_cell(row, col, content).wf(),
{
}

/// A merged range that is accepted keeps a sheet well formed: it shares no
/// cell with a range that the sheet has.
pub proof fn lemma_accepted_merge_keeps_wf(sheet: SheetModel, range: MergeView)
    requires
        sheet.wf(),
        range.format.wf(),
        sheet.merge_error(range) is None,
    ensures
        sheet.with_merge(range).wf(),
{
    let after = sheet.with_merge(range).merges;
    assert forall|i: int, j: int| 0 <= i < j < after.len() implies !(#[trigger] after[i]).overlaps(
        #[trigger] after[j],
    ) by {
        if j < sheet.merges.len() {
            assert(!sheet.merges[i].overlaps(sheet.merges[j]));
        } else {
            assert(!sheet.merges[i].overlaps(range));
        }
    }
}

/// A size or a visibility setting that is accepted keeps a sheet well
/// formed.
pub proof fn lemma_accepted_settings_keep_wf(
    sheet: SheetModel,
    col: u16,
    width: u32,
    row: u32,
    height: u32,
)
    requires
        sheet.wf(),
    ensures
        sheet.column_error(col) is None ==> sheet.with_column_width(col, width).wf(),
        sheet.row_error(row) is None ==> sheet.with_row_height(row, height).wf(),
        sheet.flag_error() is None ==> sheet.with_default_row_height(height).wf(),
        sheet.column_error(col) is None ==> sheet.with_hidden_column(col).wf(),
        sheet.group_error(col) is None ==> sheet.with_collapsed_column(col).wf(),
        sheet.flag_error() is None ==> sheet.with_screen_gridlines(true).wf()
            && sheet.with_screen_gridlines(false).wf() && sheet.with_print_gridlines(true).wf()
            && sheet.with_print_gridlines(false).wf(),
{
}

} // verus!
