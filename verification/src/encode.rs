//! What the operations of a worksheet add up to in the encoder, and the
//! replay of one operation into a sheet of `rust_xlsxwriter`.

use crate::cell::{CellContent, CellView, MergeView};
use crate::format::{encoded_font, encoded_numbers, FormatView};
use crate::worksheet::{
    apply_op, groups_distinct, lemma_model_step, model_of, op_ok, shown_width, SheetModel,
    SheetOp,
};
use crate::writer::{
    blank_cell, cells_after_merge, flag, formula_cell, format_new, fresh_font, fresh_numbers,
    fresh_settings, fresh_widths, in_range, kept_formula, level_of, no_cell_fonts,
    no_cell_numbers, no_cells, no_heights, no_levels, no_marks, no_merges, range_cells,
    range_filled, sheet_group_columns_collapsed, sheet_merge_range, sheet_set_column_hidden,
    sheet_set_column_width, sheet_set_default_row_height_pixels, sheet_set_print_gridlines,
    sheet_set_row_height_pixels, sheet_set_screen_gridlines, sheet_write_blank,
    sheet_write_formula, sheet_write_formula_with_format, sheet_write_string,
    sheet_write_string_with_format, standard_measures, width_pixels, writer_sheet_cell_fonts,
    writer_sheet_cell_numbers, writer_sheet_cells, writer_sheet_collapsed, writer_sheet_heights,
    writer_sheet_hidden, writer_sheet_hidden_rows, writer_sheet_levels, writer_sheet_marked,
    writer_sheet_merges, writer_sheet_name, writer_sheet_row_formats, writer_sheet_settings,
    writer_sheet_widths, written_text,
};
use vstd::prelude::*;

verus! {

/// What a sheet of the encoder holds, as far as it is spoken of.
pub(crate) struct Encoded {
    /// The name of the sheet.
    pub name: Seq<char>,
    /// The kind and text of each cell.
    pub cells: Map<(u32, u16), (int, Seq<char>)>,
    /// The numbers of the format of each cell.
    pub numbers: Map<(u32, u16), Seq<int>>,
    /// The font of the format of each cell.
    pub fonts: Map<(u32, u16), Seq<char>>,
    /// The corners of the merged ranges, in their order.
    pub merges: Seq<(u32, u16, u32, u16)>,
    /// The cells that lie in a merged range.
    pub marked: Set<(u32, u16)>,
    /// The hidden columns.
    pub hidden: Set<u16>,
    /// The columns that bear the mark of a collapsed group.
    pub collapsed: Set<u16>,
    /// The outline level of each column that is in a group.
    pub levels: Map<u16, int>,
    /// The width of every column, in pixels.
    pub widths: Map<u16, u32>,
    /// The height of each row that has one, in pixels.
    pub heights: Map<u32, u32>,
    /// The hidden rows.
    pub hidden_rows: Set<u32>,
    /// Default row height, gridlines on screen and in print, and the three
    /// measures of a sheet.
    pub settings: Seq<int>,
}

/// What a new sheet of the given name holds.
pub(crate) open spec fn fresh_sheet(name: Seq<char>) -> Encoded {
    Encoded {
        name,
        cells: no_cells(),
        numbers: no_cell_numbers(),
        fonts: no_cell_fonts(),
        merges: no_merges(),
        marked: no_marks(),
        hidden: Set::empty(),
        collapsed: Set::empty(),
        levels: no_levels(),
        widths: fresh_widths(),
        heights: no_heights(),
        hidden_rows: Set::empty(),
        settings: fresh_settings(),
    }
}

/// Whether a sheet of `rust_xlsxwriter` holds what is told.
pub(crate) open spec fn holds(sheet: rust_xlsxwriter::Worksheet, e: Encoded) -> bool {
    &&& writer_sheet_name(sheet) == e.name
    &&& writer_sheet_cells(sheet) == e.cells
    &&& writer_sheet_cell_numbers(sheet) == e.numbers
    &&& writer_sheet_cell_fonts(sheet) == e.fonts
    &&& writer_sheet_merges(sheet) == e.merges
    &&& writer_sheet_marked(sheet) == e.marked
    &&& writer_sheet_hidden(sheet) == e.hidden
    &&& writer_sheet_collapsed(sheet) == e.collapsed
    &&& writer_sheet_levels(sheet) == e.levels
    &&& writer_sheet_widths(sheet) == e.widths
    &&& writer_sheet_heights(sheet) == e.heights
    &&& writer_sheet_hidden_rows(sheet) == e.hidden_rows
    &&& writer_sheet_settings(sheet) == e.settings
}

/// The cells that lie in one of the ranges.
pub(crate) open spec fn covered(merges: Seq<(u32, u16, u32, u16)>) -> Set<(u32, u16)> {
    Set::new(
        |key: (u32, u16)| exists|i: int| 0 <= i < merges.len() && in_range(key, #[trigger] merges[i]),
    )
}

/// Whether a sheet of `rust_xlsxwriter` holds what is told and is fit for
/// the next operation: no row has a format of its own, the measures are
/// those of a new sheet, and the marked cells are those of the merged
/// ranges.
pub(crate) open spec fn steady(sheet: rust_xlsxwriter::Worksheet, e: Encoded) -> bool {
    &&& holds(sheet, e)
    &&& writer_sheet_row_formats(sheet) == Set::<u32>::empty()
    &&& standard_measures(e.settings)
    &&& e.marked == covered(e.merges)
}

/// The numbers of an optional format in the encoder: those of the format,
/// or those of the format on which nothing is set.
pub(crate) open spec fn opt_numbers(format: Option<FormatView>) -> Seq<int> {
    match format {
        Some(f) => encoded_numbers(f),
        None => fresh_numbers(),
    }
}

/// The font of an optional format in the encoder.
pub(crate) open spec fn opt_font(format: Option<FormatView>) -> Seq<char> {
    match format {
        Some(f) => encoded_font(f),
        None => fresh_font(),
    }
}

/// What stands in the encoder for the content of a cell: its kind and its
/// text. A text without characters leaves an empty cell, and of a formula
/// the encoder keeps the text that `kept_formula` names.
pub(crate) open spec fn encoded_cell(content: CellView) -> (int, Seq<char>) {
    match content {
        CellView::Blank { format } => blank_cell(),
        CellView::Text { text, format } => written_text(text),
        CellView::Formula { formula, format } => formula_cell(kept_formula(formula)),
    }
}

/// The numbers of the format that a cell bears in the encoder.
pub(crate) open spec fn content_numbers(content: CellView) -> Seq<int> {
    match content {
        CellView::Blank { format } => encoded_numbers(format),
        CellView::Text { text, format } => opt_numbers(format),
        CellView::Formula { formula, format } => opt_numbers(format),
    }
}

/// The font of the format that a cell bears in the encoder.
pub(crate) open spec fn content_font(content: CellView) -> Seq<char> {
    match content {
        CellView::Blank { format } => encoded_font(format),
        CellView::Text { text, format } => opt_font(format),
        CellView::Formula { formula, format } => opt_font(format),
    }
}

/// The corners of a merged range: first row, first column, last row and
/// last column.
pub(crate) open spec fn corners(range: MergeView) -> (u32, u16, u32, u16) {
    (range.first_row, range.first_col, range.last_row, range.last_col)
}

/// The corners of each merged range of a sheet, in their order.
pub(crate) open spec fn merge_corners(merges: Seq<MergeView>) -> Seq<(u32, u16, u32, u16)> {
    Seq::new(merges.len(), |i: int| corners(merges[i]))
}

/// What the encoder holds after one operation was handed to it.
///
/// A write sets its cell. A merged range writes its text to its first cell
/// and empties the others, each with the format of the range. A width of
/// zero hides the column and leaves its width; another width is kept in
/// pixels, for no more than 255 characters. A height of zero hides the row,
/// which keeps its height or takes the default one; another height is kept.
/// A default height of zero changes nothing. A collapsed group hides its
/// column, marks the column behind it, and raises the level of its column.
pub(crate) open spec fn encode_op(e: Encoded, op: SheetOp) -> Encoded {
    match op {
        SheetOp::Cell { row, col, content } => Encoded {
            cells: e.cells.insert((row, col), encoded_cell(content@)),
            numbers: e.numbers.insert((row, col), content_numbers(content@)),
            fonts: e.fonts.insert((row, col), content_font(content@)),
            ..e
        },
        SheetOp::Merge { range } => Encoded {
            cells: cells_after_merge(e.cells, corners(range@), range.text@),
            numbers: range_filled(e.numbers, corners(range@), encoded_numbers(range.format@)),
            fonts: range_filled(e.fonts, corners(range@), encoded_font(range.format@)),
            merges: e.merges.push(corners(range@)),
            marked: e.marked.union(range_cells(corners(range@))),
            ..e
        },
        SheetOp::ColumnWidth { col, width } => if shown_width(width) == 0 {
            Encoded { hidden: e.hidden.insert(col), ..e }
        } else {
            Encoded { widths: e.widths.insert(col, width_pixels(shown_width(width))), ..e }
        },
        SheetOp::RowHeight { row, height } => if height == 0 {
            Encoded {
                hidden_rows: e.hidden_rows.insert(row),
                heights: if e.heights.dom().contains(row) {
                    e.heights
                } else {
                    e.heights.insert(row, e.settings[0] as u32)
                },
                ..e
            }
        } else {
            Encoded { heights: e.heights.insert(row, height), ..e }
        },
        SheetOp::DefaultRowHeight { height } => if height == 0 {
            e
        } else {
            Encoded { settings: e.settings.update(0, height as int), ..e }
        },
        SheetOp::HideColumn { col } => Encoded { hidden: e.hidden.insert(col), ..e },
        SheetOp::CollapseColumn { col } => Encoded {
            hidden: e.hidden.insert(col),
            collapsed: e.collapsed.insert((col + 1) as u16),
            levels: e.levels.insert(col, level_of(e.levels, col) + 1),
            ..e
        },
        SheetOp::ScreenGridlines { enable } => Encoded {
            settings: e.settings.update(1, flag(enable)),
            ..e
        },
        SheetOp::PrintGridlines { enable } => Encoded {
            settings: e.settings.update(2, flag(enable)),
            ..e
        },
    }
}

/// What the encoder holds after a new sheet of the given name was handed a
/// sequence of operations, in their order.
pub(crate) open spec fn encoded_of(name: Seq<char>, ops: Seq<SheetOp>) -> Encoded
    decreases ops.len(),
{
    if ops.len() == 0 {
        fresh_sheet(name)
    } else {
        encode_op(encoded_of(name, ops.drop_last()), ops.last())
    }
}

/// What the encoder holds after the first `i + 1` operations is what it
/// holds after the first `i`, changed by the operation at `i`.
pub(crate) proof fn lemma_encoded_step(name: Seq<char>, ops: Seq<SheetOp>, i: int)
    requires
        0 <= i < ops.len(),
    ensures
        encoded_of(name, ops.take(i + 1)) == encode_op(encoded_of(name, ops.take(i)), ops[i]),
{
    assert(ops.take(i + 1).drop_last() =~= ops.take(i));
}

/// One more range covers its own cells besides those that were covered.
pub(crate) proof fn lemma_covered_push(
    merges: Seq<(u32, u16, u32, u16)>,
    range: (u32, u16, u32, u16),
)
    ensures
        covered(merges.push(range)) == covered(merges).union(range_cells(range)),
{
    let more = merges.push(range);
    assert forall|key: (u32, u16)|
        covered(more).contains(key) <==> covered(merges).union(range_cells(range)).contains(
            key,
        ) by {
        if covered(more).contains(key) {
            let i = choose|i: int| 0 <= i < more.len() && in_range(key, #[trigger] more[i]);
            if i < merges.len() {
                assert(in_range(key, merges[i]));
            }
        }
        if covered(merges).contains(key) {
            let i = choose|i: int| 0 <= i < merges.len() && in_range(key, #[trigger] merges[i]);
            assert(in_range(key, more[i]));
        }
        if range_cells(range).contains(key) {
            assert(in_range(key, more[merges.len() as int]));
        }
    }
    assert(covered(more) =~= covered(merges).union(range_cells(range)));
}

/// The encoder has the merged ranges of the sheet, in their order.
pub(crate) proof fn lemma_merges_match(name: Seq<char>, ops: Seq<SheetOp>)
    ensures
        encoded_of(name, ops).merges == merge_corners(model_of(name, ops).merges),
    decreases ops.len(),
{
    if ops.len() > 0 {
        lemma_merges_match(name, ops.drop_last());
    }
    assert(encoded_of(name, ops).merges =~= merge_corners(model_of(name, ops).merges));
}

/// Whether no two of the ranges share a cell.
pub(crate) open spec fn apart(merges: Seq<MergeView>) -> bool {
    forall|i: int, j: int|
        0 <= i < j < merges.len() ==> !(#[trigger] merges[i]).overlaps(#[trigger] merges[j])
}

/// Where no two merged ranges of a sheet share a cell, none did after any
/// number of its first operations.
pub(crate) proof fn lemma_prefix_apart(name: Seq<char>, ops: Seq<SheetOp>, i: int)
    requires
        0 <= i <= ops.len(),
        apart(model_of(name, ops).merges),
    ensures
        apart(model_of(name, ops.take(i)).merges),
    decreases ops.len() - i,
{
    if i == ops.len() {
        assert(ops.take(i) =~= ops);
    } else {
        lemma_prefix_apart(name, ops, i + 1);
        lemma_model_step(name, ops, i);
        let before = model_of(name, ops.take(i)).merges;
        let after = model_of(name, ops.take(i + 1)).merges;
        assert forall|a: int, b: int| 0 <= a < b < before.len() implies !(
        #[trigger] before[a]).overlaps(#[trigger] before[b]) by {
            assert(after[a] == before[a] && after[b] == before[b]);
        }
    }
}

/// A merged range that a worksheet accepted shares no cell with the ranges
/// that the encoder has when the range is handed to it.
pub(crate) proof fn lemma_merge_fits(name: Seq<char>, ops: Seq<SheetOp>, i: int)
    requires
        0 <= i < ops.len(),
        apart(model_of(name, ops).merges),
    ensures
        ops[i] matches SheetOp::Merge { range } ==> covered(
            encoded_of(name, ops.take(i)).merges,
        ).disjoint(range_cells(corners(range@))),
{
    if let SheetOp::Merge { range } = ops[i] {
        lemma_prefix_apart(name, ops, i + 1);
        lemma_model_step(name, ops, i);
        lemma_merges_match(name, ops.take(i));
        let before = model_of(name, ops.take(i)).merges;
        let after = model_of(name, ops.take(i + 1)).merges;
        let had = encoded_of(name, ops.take(i)).merges;
        assert(after == before.push(range@));
        assert forall|key: (u32, u16)|
            !(covered(had).contains(key) && range_cells(corners(range@)).contains(key)) by {
            if covered(had).contains(key) && range_cells(corners(range@)).contains(key) {
                let k = choose|k: int| 0 <= k < had.len() && in_range(key, #[trigger] had[k]);
                assert(had[k] == corners(before[k]));
                assert(after[k] == before[k]);
                assert(after[before.len() as int] == range@);
                assert(!after[k].overlaps(after[before.len() as int]));
            }
        }
    }
}

/// A column has an outline level in the encoder only where a collapsed
/// group was declared on it.
pub(crate) proof fn lemma_levels_shown(name: Seq<char>, ops: Seq<SheetOp>, col: u16)
    requires
        encoded_of(name, ops).levels.dom().contains(col),
    ensures
        exists|j: int| 0 <= j < ops.len() && #[trigger] ops[j] == (SheetOp::CollapseColumn { col }),
    decreases ops.len(),
{
    if ops.len() > 0 {
        let before = ops.drop_last();
        if encoded_of(name, before).levels.dom().contains(col) {
            lemma_levels_shown(name, before, col);
            let j = choose|j: int|
                0 <= j < before.len() && #[trigger] before[j] == (SheetOp::CollapseColumn { col });
            assert(ops[j] == before[j]);
        } else {
            assert(ops[ops.len() - 1] == (SheetOp::CollapseColumn { col }));
        }
    }
}

/// A column on which a worksheet accepted a collapsed group is in no group
/// in the encoder when the group is handed to it.
pub(crate) proof fn lemma_group_fits(name: Seq<char>, ops: Seq<SheetOp>, i: int)
    requires
        0 <= i < ops.len(),
        groups_distinct(ops),
    ensures
        ops[i] matches SheetOp::CollapseColumn { col } ==> level_of(
            encoded_of(name, ops.take(i)).levels,
            col,
        ) == 0,
{
    if let SheetOp::CollapseColumn { col } = ops[i] {
        let had = ops.take(i);
        if encoded_of(name, had).levels.dom().contains(col) {
            lemma_levels_shown(name, had, col);
            let j = choose|j: int|
                0 <= j < had.len() && #[trigger] had[j] == (SheetOp::CollapseColumn { col });
            assert(ops[j] == had[j]);
            assert(ops[j] is CollapseColumn && ops[i] is CollapseColumn);
        }
    }
}

/// Whether what the encoder holds is what a sheet shows.
///
/// Name, merged ranges and gridlines are those of the sheet. A cell outside
/// the merged ranges is in the encoder where it is in the sheet, with the
/// content and format of the sheet; inside a merged range, the later of
/// write and range decides. A column has the width that the sheet shows for
/// it, in pixels, unless that is zero, and the width of a new sheet where it
/// was given none. A row has the height of the sheet, unless that is zero.
/// A column or row of size zero is hidden, and so is a column that the
/// sheet hides or collapses. The default height is the one of the sheet,
/// unless that is zero, and the one of a new sheet where none was set. The
/// column behind a collapsed group bears its mark.
pub(crate) open spec fn shows(e: Encoded, m: SheetModel) -> bool {
    &&& e.name == m.name
    &&& e.merges == merge_corners(m.merges)
    &&& e.marked == covered(e.merges)
    &&& standard_measures(e.settings)
    &&& e.settings[1] == flag(m.screen_gridlines)
    &&& e.settings[2] == flag(m.print_gridlines)
    &&& (m.default_row_height is None ==> e.settings[0] == fresh_settings()[0])
    &&& (m.default_row_height matches Some(h) ==> h > 0 ==> e.settings[0] == h)
    &&& forall|key: (u32, u16)|
        #![trigger e.cells.dom().contains(key)]
        #![trigger m.cells.dom().contains(key)]
        !e.marked.contains(key) ==> (e.cells.dom().contains(key) <==> m.cells.dom().contains(
            key,
        ))
    &&& forall|key: (u32, u16)|
        #![trigger e.cells.dom().contains(key)]
        e.cells.dom().contains(key) ==> e.numbers.dom().contains(key) && e.fonts.dom().contains(
            key,
        )
    &&& forall|key: (u32, u16)|
        !e.marked.contains(key) && #[trigger] m.cells.dom().contains(key) ==> {
            &&& e.cells[key] == encoded_cell(m.cells[key])
            &&& e.numbers[key] == content_numbers(m.cells[key])
            &&& e.fonts[key] == content_font(m.cells[key])
        }
    &&& forall|col: u16|
        #![trigger e.widths[col]]
        m.column_widths.dom().contains(col) && shown_width(m.column_widths[col]) > 0
            ==> e.widths[col] == width_pixels(shown_width(m.column_widths[col]))
    &&& forall|col: u16|
        #![trigger e.widths[col]]
        !m.column_widths.dom().contains(col) ==> e.widths[col] == fresh_widths()[col]
    &&& forall|col: u16|
        m.column_widths.dom().contains(col) && m.column_widths[col] == 0
            ==> #[trigger] e.hidden.contains(col)
    &&& forall|col: u16| m.hidden_columns.contains(col) ==> #[trigger] e.hidden.contains(col)
    &&& forall|col: u16| m.collapsed_columns.contains(col) ==> #[trigger] e.hidden.contains(col)
    &&& forall|col: u16|
        #[trigger] e.collapsed.contains(col) <==> col > 0 && m.collapsed_columns.contains(
            (col - 1) as u16,
        )
    &&& forall|row: u32|
        #![trigger m.row_heights.dom().contains(row)]
        m.row_heights.dom().contains(row) ==> e.heights.dom().contains(row) && (
        m.row_heights[row] > 0 ==> e.heights[row] == m.row_heights[row]) && (m.row_heights[row]
            == 0 ==> e.hidden_rows.contains(row))
}

/// What the encoder holds after the operations that a worksheet accepted is
/// what the worksheet shows.
pub(crate) proof fn lemma_encoder_shows_sheet(name: Seq<char>, ops: Seq<SheetOp>)
    requires
        forall|j: int| 0 <= j < ops.len() ==> op_ok(#[trigger] ops[j]),
    ensures
        shows(encoded_of(name, ops), model_of(name, ops)),
    decreases ops.len(),
{
    let e = encoded_of(name, ops);
    let m = model_of(name, ops);
    if ops.len() == 0 {
        assert(e.merges =~= merge_corners(m.merges));
        assert(e.marked =~= covered(e.merges));
    } else {
        let had = ops.drop_last();
        assert forall|j: int| 0 <= j < had.len() implies op_ok(#[trigger] had[j]) by {
            assert(had[j] == ops[j]);
        }
        lemma_encoder_shows_sheet(name, had);
        let e0 = encoded_of(name, had);
        let m0 = model_of(name, had);
        assert(op_ok(ops[ops.len() - 1]));
        assert(e == encode_op(e0, ops.last()));
        assert(m == apply_op(m0, ops.last()));
        assert(e.merges =~= merge_corners(m.merges));
        match ops.last() {
            SheetOp::Merge { range } => {
                lemma_covered_push(e0.merges, corners(range@));
            },
            SheetOp::CollapseColumn { col } => {
                assert forall|c: u16|
                    #[trigger] e.collapsed.contains(c) <==> c > 0 && m.collapsed_columns.contains(
                        (c - 1) as u16,
                    ) by {
                    if c == (col + 1) as u16 {
                        assert((c - 1) as u16 == col);
                    }
                }
            },
            _ => {},
        }
    }
}

/// A column is in one group in the encoder where the sheet shows a
/// collapsed group on it, and in none elsewhere.
pub(crate) proof fn lemma_levels_follow(name: Seq<char>, ops: Seq<SheetOp>, col: u16)
    requires
        groups_distinct(ops),
    ensures
        level_of(encoded_of(name, ops).levels, col) == (if model_of(
            name,
            ops,
        ).collapsed_columns.contains(col) {
            1int
        } else {
            0int
        }),
    decreases ops.len(),
{
    if ops.len() > 0 {
        let had = ops.drop_last();
        assert(groups_distinct(had)) by {
            assert forall|i: int, j: int|
                0 <= i < j < had.len() && (#[trigger] had[i]) is CollapseColumn && (
                #[trigger] had[j]) is CollapseColumn implies had[i]->CollapseColumn_col
                != had[j]->CollapseColumn_col by {
                assert(had[i] == ops[i] && had[j] == ops[j]);
            }
        }
        lemma_levels_follow(name, had, col);
        assert(ops.take(ops.len() - 1) =~= had);
        lemma_group_fits(name, ops, ops.len() - 1);
    }
}

/// Hands one write to a sheet of `rust_xlsxwriter`. A text without
/// characters and without a format is written as a blank cell, so that it
/// replaces what the coordinate held.
fn replay_cell(
    sheet: rust_xlsxwriter::Worksheet,
    row: u32,
    col: u16,
    content: &CellContent,
    Ghost(e): Ghost<Encoded>,
) -> (r: Result<rust_xlsxwriter::Worksheet, rust_xlsxwriter::XlsxError>)
    requires
        steady(sheet, e),
        op_ok(SheetOp::Cell { row, col, content: *content }),
    ensures
        r is Ok,
        r matches Ok(after) ==> steady(
            after,
            encode_op(e, SheetOp::Cell { row, col, content: *content }),
        ),
{
    let mut sheet = sheet;
    let done = match content {
        CellContent::Blank { format } => sheet_write_blank(
            &mut sheet,
            row,
            col,
            &format.to_writer(),
        ),
        CellContent::Text { text, format: Some(format) } => sheet_write_string_with_format(
            &mut sheet,
            row,
            col,
            text.as_str(),
            &format.to_writer(),
        ),
        CellContent::Text { text, format: None } => {
            if text.as_str().is_empty() {
                sheet_write_blank(&mut sheet, row, col, &format_new())
            } else {
                sheet_write_string(&mut sheet, row, col, text.as_str())
            }
        },
        CellContent::Formula { formula, format: Some(format) } => sheet_write_formula_with_format(
            &mut sheet,
            row,
            col,
            formula.as_str(),
            &format.to_writer(),
        ),
        CellContent::Formula { formula, format: None } => sheet_write_formula(
            &mut sheet,
            row,
            col,
            formula.as_str(),
        ),
    };
    match done {
        Ok(_) => Ok(sheet),
        Err(e) => Err(e),
    }
}

/// Hands one operation to a sheet of `rust_xlsxwriter`. A merged range has
/// to share no cell with a range that the sheet has, and a column that is
/// given a collapsed group has to be in fewer than seven groups; then the
/// sheet takes the operation, and holds what the operation makes of what
/// it held.
pub(crate) fn replay(
    sheet: rust_xlsxwriter::Worksheet,
    op: &SheetOp,
    Ghost(e): Ghost<Encoded>,
) -> (r: Result<rust_xlsxwriter::Worksheet, rust_xlsxwriter::XlsxError>)
    requires
        steady(sheet, e),
        op_ok(*op),
        *op matches SheetOp::Merge { range } ==> e.marked.disjoint(range_cells(corners(range@))),
        *op matches SheetOp::CollapseColumn { col } ==> level_of(e.levels, col) < 7,
    ensures
        r is Ok,
        r matches Ok(after) ==> steady(after, encode_op(e, *op)),
{
    match op {
        SheetOp::Cell { row, col, content } => replay_cell(sheet, *row, *col, content, Ghost(e)),
        SheetOp::Merge { range } => {
            proof {
                lemma_covered_push(e.merges, corners(range@));
            }
            sheet_merge_range(
                sheet,
                (range.first_row, range.first_col, range.last_row, range.last_col),
                range.text.as_str(),
                &range.format.to_writer(),
            )
        },
        _ => replay_setting(sheet, op, Ghost(e)),
    }
}

/// Hands one operation that is no write and no merged range to a sheet of
/// `rust_xlsxwriter`.
fn replay_setting(
    sheet: rust_xlsxwriter::Worksheet,
    op: &SheetOp,
    Ghost(e): Ghost<Encoded>,
) -> (r: Result<rust_xlsxwriter::Worksheet, rust_xlsxwriter::XlsxError>)
    requires
        steady(sheet, e),
        op_ok(*op),
        !(*op is Cell),
        !(*op is Merge),
        *op matches SheetOp::CollapseColumn { col } ==> level_of(e.levels, col) < 7,
    ensures
        r is Ok,
        r matches Ok(after) ==> steady(after, encode_op(e, *op)),
{
    let mut sheet = sheet;
    let done = match op {
        SheetOp::ColumnWidth { col, width } => sheet_set_column_width(
            &mut sheet,
            *col,
            shown_width(*width),
        ),
        SheetOp::RowHeight { row, height } => sheet_set_row_height_pixels(
            &mut sheet,
            *row,
            *height,
        ),
        SheetOp::DefaultRowHeight { height } => {
            sheet_set_default_row_height_pixels(&mut sheet, *height);
            Ok(())
        },
        SheetOp::HideColumn { col } => sheet_set_column_hidden(&mut sheet, *col),
        SheetOp::CollapseColumn { col } => sheet_group_columns_collapsed(&mut sheet, *col),
        SheetOp::ScreenGridlines { enable } => {
            sheet_set_screen_gridlines(&mut sheet, *enable);
            Ok(())
        },
        SheetOp::PrintGridlines { enable } => {
            sheet_set_print_gridlines(&mut sheet, *enable);
            Ok(())
        },
        _ => Ok(()),
    };
    match done {
        Ok(_) => Ok(sheet),
        Err(e) => Err(e),
    }
}

} // verus!
