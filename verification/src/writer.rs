//! The calls into `rust_xlsxwriter`, which encodes a document as a file.
//!
//! Nothing in this module is proved. Each function makes one call, and its
//! contract says what is assumed of that call. The values that the calls
//! build are opaque: the library hands them on and never looks into them.
//! What a sheet of `rust_xlsxwriter` holds is spoken of by name: the name
//! that it bears; the kind, text and format of each of its cells; its
//! merged ranges; the marks, outline levels and widths of its columns; the
//! heights and marks of its rows; and its default row height and gridline
//! flags. Of a format of `rust_xlsxwriter`, the attributes that this
//! library sets are spoken of.
//!
//! `rust_xlsxwriter` is used without its optional features. With its
//! feature `constant_memory` a sheet can be made that drops or delays a
//! write; no such sheet can be made here.

use crate::cell::{in_bounds, COLUMN_LIMIT, COLUMN_WIDTH_LIMIT, ROW_LIMIT, TEXT_LIMIT};
use crate::color::COLOR_LIMIT;
use crate::format::{Alignment, BorderStyle};
use crate::sheet_name::valid_sheet_name;
use vstd::prelude::*;

verus! {

/// The format type of `rust_xlsxwriter`.
#[verifier::external_type_specification]
#[verifier::external_body]
pub struct ExWriterFormat(rust_xlsxwriter::Format);

/// The worksheet type of `rust_xlsxwriter`.
#[verifier::external_type_specification]
#[verifier::external_body]
pub struct ExWriterSheet(rust_xlsxwriter::Worksheet);

/// The workbook type of `rust_xlsxwriter`.
#[verifier::external_type_specification]
#[verifier::external_body]
pub struct ExWriterBook(rust_xlsxwriter::Workbook);

/// The error type of `rust_xlsxwriter`.
#[verifier::external_type_specification]
#[verifier::external_body]
pub struct ExWriterError(rust_xlsxwriter::XlsxError);

/// Eleven attributes of a format of `rust_xlsxwriter` as numbers, in this
/// order: bold face; font size; font color; horizontal alignment; vertical
/// alignment; left, right, top and bottom border; indent; background color.
///
/// Bold face is 1 where it is on and 0 where it is off. The font size is the
/// whole number that the text kept for it writes. A color is the number of its
/// red, green and blue where it is `Color::RGB`, and -1 where it is
/// `Color::Default`. An alignment is the number that `alignment_number`
/// gives, with 0 for `FormatAlign::General`, and a border is the index of
/// its style as `border_number` gives it, with 0 for `FormatBorder::None`.
/// Every other value of an attribute has a number of its own, which is none
/// of these.
pub uninterp spec fn writer_format_numbers(format: rust_xlsxwriter::Format) -> Seq<int>;

/// The name of the font of a format of `rust_xlsxwriter`.
pub uninterp spec fn writer_format_font(format: rust_xlsxwriter::Format) -> Seq<char>;

/// The number that stands for an alignment.
pub open spec fn alignment_number(alignment: Alignment) -> int {
    match alignment {
        Alignment::Left => 1,
        Alignment::Center => 2,
        Alignment::VerticalCenter => 3,
    }
}

/// The place, among the numbers of a format, of the axis that an alignment
/// belongs to: 3 for the horizontal and 4 for the vertical one.
pub open spec fn alignment_place(alignment: Alignment) -> int {
    match alignment {
        Alignment::Left => 3,
        Alignment::Center => 3,
        Alignment::VerticalCenter => 4,
    }
}

/// The number that stands for a border style: its index.
pub open spec fn border_number(style: BorderStyle) -> int {
    match style {
        BorderStyle::NoBorder => 0,
        BorderStyle::Thin => 1,
        BorderStyle::Medium => 2,
        BorderStyle::Hair => 7,
    }
}

/// The numbers of the format on which nothing is set: not bold, size 11, no
/// color, no alignment, no border, no indent.
pub open spec fn fresh_numbers() -> Seq<int> {
    seq![0int, 11, -1, 0, 0, 0, 0, 0, 0, 0, -1]
}

/// The name of the font of the format on which nothing is set.
pub open spec fn fresh_font() -> Seq<char> {
    seq!['C', 'a', 'l', 'i', 'b', 'r', 'i']
}

/// Calls `Format::new`, which makes a format on which nothing is set.
#[verifier::external_body]
pub(crate) fn format_new() -> (r: rust_xlsxwriter::Format)
    ensures
        writer_format_numbers(r) == fresh_numbers(),
        writer_format_font(r) == fresh_font(),
{
    rust_xlsxwriter::Format::new()
}

/// Calls `Format::set_bold`, which turns bold face on and leaves every other
/// attribute.
#[verifier::external_body]
pub(crate) fn format_set_bold(format: rust_xlsxwriter::Format) -> (r: rust_xlsxwriter::Format)
    ensures
        writer_format_numbers(r) == writer_format_numbers(format).update(0, 1),
        writer_format_font(r) == writer_format_font(format),
{
    format.set_bold()
}

/// Calls `Format::set_font_name`, which sets the name of the font and
/// leaves the attributes that are numbers.
#[verifier::external_body]
pub(crate) fn format_set_font_name(format: rust_xlsxwriter::Format, name: &str) -> (r:
    rust_xlsxwriter::Format)
    ensures
        writer_format_numbers(r) == writer_format_numbers(format),
        writer_format_font(r) == name@,
{
    format.set_font_name(name)
}

/// Calls `Format::set_font_size` with a whole number, which
/// `rust_xlsxwriter` keeps as the text that writes it, and leaves every
/// other attribute.
#[verifier::external_body]
pub(crate) fn format_set_font_size(format: rust_xlsxwriter::Format, size: u32) -> (r:
    rust_xlsxwriter::Format)
    ensures
        writer_format_numbers(r) == writer_format_numbers(format).update(1, size as int),
        writer_format_font(r) == writer_format_font(format),
{
    format.set_font_size(size)
}

/// Calls `Format::set_font_color` with the color as a number, which
/// `rust_xlsxwriter` takes as red, green and blue of eight bits each. A
/// number above `FFFFFF` it takes for no color and sets nothing. Every other
/// attribute stays.
#[verifier::external_body]
pub(crate) fn format_set_font_color(format: rust_xlsxwriter::Format, rgb: u32) -> (r:
    rust_xlsxwriter::Format)
    ensures
        rgb <= COLOR_LIMIT ==> writer_format_numbers(r) == writer_format_numbers(format).update(
            2,
            rgb as int,
        ),
        rgb > COLOR_LIMIT ==> writer_format_numbers(r) == writer_format_numbers(format),
        writer_format_font(r) == writer_format_font(format),
{
    format.set_font_color(rgb)
}

/// Calls `Format::set_background_color` with the color as a number, taken
/// as `Format::set_font_color` takes it. Every other attribute stays.
#[verifier::external_body]
pub(crate) fn format_set_background_color(format: rust_xlsxwriter::Format, rgb: u32) -> (r:
    rust_xlsxwriter::Format)
    ensures
        rgb <= COLOR_LIMIT ==> writer_format_numbers(r) == writer_format_numbers(format).update(
            10,
            rgb as int,
        ),
        rgb > COLOR_LIMIT ==> writer_format_numbers(r) == writer_format_numbers(format),
        writer_format_font(r) == writer_format_font(format),
{
    format.set_background_color(rgb)
}

/// Calls `Format::set_align` with the variant of `FormatAlign` that has the
/// name of the alignment. `Left` and `Center` set the horizontal alignment,
/// `VerticalCenter` the vertical one; every other attribute stays.
#[verifier::external_body]
pub(crate) fn format_set_align(format: rust_xlsxwriter::Format, alignment: Alignment) -> (r:
    rust_xlsxwriter::Format)
    ensures
        writer_format_numbers(r) == writer_format_numbers(format).update(
            alignment_place(alignment),
            alignment_number(alignment),
        ),
        writer_format_font(r) == writer_format_font(format),
{
    format.set_align(
        match alignment {
            Alignment::Left => rust_xlsxwriter::FormatAlign::Left,
            Alignment::Center => rust_xlsxwriter::FormatAlign::Center,
            Alignment::VerticalCenter => rust_xlsxwriter::FormatAlign::VerticalCenter,
        },
    )
}

/// Calls `Format::set_border_left` with the variant of `FormatBorder` that
/// has the name of the style, and `FormatBorder::None` for no border. Every
/// other attribute stays.
#[verifier::external_body]
pub(crate) fn format_set_border_left(format: rust_xlsxwriter::Format, style: BorderStyle) -> (r:
    rust_xlsxwriter::Format)
    ensures
        writer_format_numbers(r) == writer_format_numbers(format).update(5, border_number(style)),
        writer_format_font(r) == writer_format_font(format),
{
    format.set_border_left(
        match style {
            BorderStyle::NoBorder => rust_xlsxwriter::FormatBorder::None,
            BorderStyle::Thin => rust_xlsxwriter::FormatBorder::Thin,
            BorderStyle::Medium => rust_xlsxwriter::FormatBorder::Medium,
            BorderStyle::Hair => rust_xlsxwriter::FormatBorder::Hair,
        },
    )
}

/// Calls `Format::set_border_right`, as `format_set_border_left` calls
/// `Format::set_border_left`. Every other attribute stays.
#[verifier::external_body]
pub(crate) fn format_set_border_right(format: rust_xlsxwriter::Format, style: BorderStyle) -> (r:
    rust_xlsxwriter::Format)
    ensures
        writer_format_numbers(r) == writer_format_numbers(format).update(6, border_number(style)),
        writer_format_font(r) == writer_format_font(format),
{
    format.set_border_right(
        match style {
            BorderStyle::NoBorder => rust_xlsxwriter::FormatBorder::None,
            BorderStyle::Thin => rust_xlsxwriter::FormatBorder::Thin,
            BorderStyle::Medium => rust_xlsxwriter::FormatBorder::Medium,
            BorderStyle::Hair => rust_xlsxwriter::FormatBorder::Hair,
        },
    )
}

/// Calls `Format::set_border_top`, as `format_set_border_left` calls
/// `Format::set_border_left`. Every other attribute stays.
#[verifier::external_body]
pub(crate) fn format_set_border_top(format: rust_xlsxwriter::Format, style: BorderStyle) -> (r:
    rust_xlsxwriter::Format)
    ensures
        writer_format_numbers(r) == writer_format_numbers(format).update(7, border_number(style)),
        writer_format_font(r) == writer_format_font(format),
{
    format.set_border_top(
        match style {
            BorderStyle::NoBorder => rust_xlsxwriter::FormatBorder::None,
            BorderStyle::Thin => rust_xlsxwriter::FormatBorder::Thin,
            BorderStyle::Medium => rust_xlsxwriter::FormatBorder::Medium,
            BorderStyle::Hair => rust_xlsxwriter::FormatBorder::Hair,
        },
    )
}

/// Calls `Format::set_border_bottom`, as `format_set_border_left` calls
/// `Format::set_border_left`. Every other attribute stays.
#[verifier::external_body]
pub(crate) fn format_set_border_bottom(format: rust_xlsxwriter::Format, style: BorderStyle) -> (r:
    rust_xlsxwriter::Format)
    ensures
        writer_format_numbers(r) == writer_format_numbers(format).update(8, border_number(style)),
        writer_format_font(r) == writer_format_font(format),
{
    format.set_border_bottom(
        match style {
            BorderStyle::NoBorder => rust_xlsxwriter::FormatBorder::None,
            BorderStyle::Thin => rust_xlsxwriter::FormatBorder::Thin,
            BorderStyle::Medium => rust_xlsxwriter::FormatBorder::Medium,
            BorderStyle::Hair => rust_xlsxwriter::FormatBorder::Hair,
        },
    )
}

/// Calls `Format::set_indent`, which sets the indent and leaves every other
/// attribute.
#[verifier::external_body]
pub(crate) fn format_set_indent(format: rust_xlsxwriter::Format, level: u8) -> (r:
    rust_xlsxwriter::Format)
    ensures
        writer_format_numbers(r) == writer_format_numbers(format).update(9, level as int),
        writer_format_font(r) == writer_format_font(format),
{
    format.set_indent(level)
}

/// The name that a sheet of `rust_xlsxwriter` bears: its field `name`.
pub uninterp spec fn writer_sheet_name(sheet: rust_xlsxwriter::Worksheet) -> Seq<char>;

/// The cells that a sheet of `rust_xlsxwriter` holds in its table of cells,
/// by row and column. Of each cell it tells the kind and the text: a pair
/// as `blank_cell`, `text_cell` and `formula_cell` make it.
pub uninterp spec fn writer_sheet_cells(sheet: rust_xlsxwriter::Worksheet) -> Map<
    (u32, u16),
    (int, Seq<char>),
>;

/// For each cell of a sheet of `rust_xlsxwriter`, the numbers of its
/// format, as `writer_format_numbers` tells them: those of the format that
/// stands, in the table of formats that the cell points into, at the index
/// that the cell bears.
pub uninterp spec fn writer_sheet_cell_numbers(sheet: rust_xlsxwriter::Worksheet) -> Map<
    (u32, u16),
    Seq<int>,
>;

/// For each cell of a sheet of `rust_xlsxwriter`, the name of the font of
/// its format, found as `writer_sheet_cell_numbers` finds the numbers.
pub uninterp spec fn writer_sheet_cell_fonts(sheet: rust_xlsxwriter::Worksheet) -> Map<
    (u32, u16),
    Seq<char>,
>;

/// The rows of a sheet of `rust_xlsxwriter` that bear a format of their own.
/// This library gives none to any row; on a row that has one,
/// `rust_xlsxwriter` may give a cell a format that the caller did not name.
pub uninterp spec fn writer_sheet_row_formats(sheet: rust_xlsxwriter::Worksheet) -> Set<u32>;

/// The ranges that a sheet of `rust_xlsxwriter` holds in its list of merged
/// ranges, in the order of the list: first row, first column, last row and
/// last column of each.
pub uninterp spec fn writer_sheet_merges(sheet: rust_xlsxwriter::Worksheet) -> Seq<
    (u32, u16, u32, u16),
>;

/// The cells of a sheet of `rust_xlsxwriter` that are marked as part of a
/// merged range: the keys of its table of merged cells.
pub uninterp spec fn writer_sheet_marked(sheet: rust_xlsxwriter::Worksheet) -> Set<(u32, u16)>;

/// The columns of a sheet of `rust_xlsxwriter` that are marked as hidden.
pub uninterp spec fn writer_sheet_hidden(sheet: rust_xlsxwriter::Worksheet) -> Set<u16>;

/// The columns of a sheet of `rust_xlsxwriter` that are marked as collapsed.
/// The mark of a collapsed group stands on the column behind the group.
pub uninterp spec fn writer_sheet_collapsed(sheet: rust_xlsxwriter::Worksheet) -> Set<u16>;

/// The outline level of each column of a sheet of `rust_xlsxwriter` that
/// has one above zero: the number of groups that the column is in.
pub uninterp spec fn writer_sheet_levels(sheet: rust_xlsxwriter::Worksheet) -> Map<u16, int>;

/// The width in pixels of every column of a sheet of `rust_xlsxwriter`:
/// the width that is kept for the column, or the default width of the sheet
/// where none is kept.
pub uninterp spec fn writer_sheet_widths(sheet: rust_xlsxwriter::Worksheet) -> Map<u16, u32>;

/// The height in pixels that a sheet of `rust_xlsxwriter` keeps for each row
/// for which it keeps one.
pub uninterp spec fn writer_sheet_heights(sheet: rust_xlsxwriter::Worksheet) -> Map<u32, u32>;

/// The rows of a sheet of `rust_xlsxwriter` that are marked as hidden.
pub uninterp spec fn writer_sheet_hidden_rows(sheet: rust_xlsxwriter::Worksheet) -> Set<u32>;

/// Six settings of a sheet of `rust_xlsxwriter` as numbers, in this order:
/// the default height of a row in pixels; whether gridlines are shown on
/// screen, and whether they are printed, each as 1 or 0; the width of a
/// digit, the padding of a cell, and the largest width of a column, each in
/// pixels.
pub uninterp spec fn writer_sheet_settings(sheet: rust_xlsxwriter::Worksheet) -> Seq<int>;

/// The text that `Formula::new` of `rust_xlsxwriter` keeps of a formula as
/// it was written: without the mark at its start, and with the names of
/// newer functions marked.
pub uninterp spec fn kept_formula(written: Seq<char>) -> Seq<char>;

/// No merged ranges at all.
pub open spec fn no_merges() -> Seq<(u32, u16, u32, u16)> {
    Seq::empty()
}

/// No cells at all.
pub open spec fn no_cells() -> Map<(u32, u16), (int, Seq<char>)> {
    Map::empty()
}

/// No numbers for any cell.
pub open spec fn no_cell_numbers() -> Map<(u32, u16), Seq<int>> {
    Map::empty()
}

/// No font for any cell.
pub open spec fn no_cell_fonts() -> Map<(u32, u16), Seq<char>> {
    Map::empty()
}

/// No outline level for any column.
pub open spec fn no_levels() -> Map<u16, int> {
    Map::empty()
}

/// No height for any row.
pub open spec fn no_heights() -> Map<u32, u32> {
    Map::empty()
}

/// No marked cell.
pub open spec fn no_marks() -> Set<(u32, u16)> {
    Set::empty()
}

/// The settings of a new sheet: rows 20 pixels high, gridlines on screen
/// and not in print, digits 7 pixels wide, 5 pixels of padding, and columns
/// of 1790 pixels at most.
pub open spec fn fresh_settings() -> Seq<int> {
    seq![20int, 1, 0, 7, 5, 1790]
}

/// The widths of a new sheet: every column 64 pixels wide.
pub open spec fn fresh_widths() -> Map<u16, u32> {
    Map::total(|col: u16| 64u32)
}

/// Whether the settings give the measures of a new sheet for the width of a
/// digit, the padding of a cell and the largest width of a column.
pub open spec fn standard_measures(settings: Seq<int>) -> bool {
    settings.len() == 6 && settings[3] == 7 && settings[4] == 5 && settings[5] == 1790
}

/// The width in pixels of a column of so many characters, on a sheet with
/// the measures of a new sheet.
pub open spec fn width_pixels(width: u32) -> u32 {
    (7 * width + 5) as u32
}

/// 1 for yes and 0 for no.
pub open spec fn flag(yes: bool) -> int {
    if yes {
        1
    } else {
        0
    }
}

/// What stands for an empty cell.
pub open spec fn blank_cell() -> (int, Seq<char>) {
    (0, Seq::empty())
}

/// What stands for a cell that holds a text.
pub open spec fn text_cell(text: Seq<char>) -> (int, Seq<char>) {
    (1, text)
}

/// What stands for a cell that holds a formula, whether `rust_xlsxwriter`
/// keeps it as a plain formula or, as it does where the formula calls a
/// function with a dynamic result, as an array formula of one cell.
pub open spec fn formula_cell(formula: Seq<char>) -> (int, Seq<char>) {
    (2, formula)
}

/// What stands for a cell to which a text was written: a text without
/// characters leaves an empty cell.
pub open spec fn written_text(text: Seq<char>) -> (int, Seq<char>) {
    if text.len() == 0 {
        blank_cell()
    } else {
        text_cell(text)
    }
}

/// Whether a coordinate lies in a range.
pub open spec fn in_range(key: (u32, u16), range: (u32, u16, u32, u16)) -> bool {
    range.0 <= key.0 <= range.2 && range.1 <= key.1 <= range.3
}

/// The cells of a range.
pub open spec fn range_cells(range: (u32, u16, u32, u16)) -> Set<(u32, u16)> {
    Set::new(|key: (u32, u16)| in_range(key, range))
}

/// Whether a range has a shape that can be merged: both corners on the
/// sheet, the first not behind the last, and more than one cell.
pub open spec fn range_shaped(range: (u32, u16, u32, u16)) -> bool {
    in_bounds(range.0, range.1) && in_bounds(range.2, range.3) && range.0 <= range.2 && range.1
        <= range.3 && !(range.0 == range.2 && range.1 == range.3)
}

/// The cells after a range was merged: the first cell of the range is one
/// to which the text was written, every other cell of the range is empty,
/// and the cells outside the range are what they were.
pub open spec fn cells_after_merge(
    cells: Map<(u32, u16), (int, Seq<char>)>,
    range: (u32, u16, u32, u16),
    text: Seq<char>,
) -> Map<(u32, u16), (int, Seq<char>)> {
    Map::new(
        |key: (u32, u16)| cells.dom().contains(key) || in_range(key, range),
        |key: (u32, u16)|
            if in_range(key, range) {
                if key == (range.0, range.1) {
                    written_text(text)
                } else {
                    blank_cell()
                }
            } else {
                cells[key]
            },
    )
}

/// What is kept for each cell after every cell of a range was given one
/// value: the cells of the range have the value, the others what they had.
pub open spec fn range_filled<V>(
    kept: Map<(u32, u16), V>,
    range: (u32, u16, u32, u16),
    value: V,
) -> Map<(u32, u16), V> {
    Map::new(
        |key: (u32, u16)| kept.dom().contains(key) || in_range(key, range),
        |key: (u32, u16)|
            if in_range(key, range) {
                value
            } else {
                kept[key]
            },
    )
}

/// The outline level of a column: zero where none is kept.
pub open spec fn level_of(levels: Map<u16, int>, col: u16) -> int {
    if levels.dom().contains(col) {
        levels[col]
    } else {
        0
    }
}

/// Whether two sheets hold the same cells, with the same formats.
pub open spec fn same_cells(
    before: rust_xlsxwriter::Worksheet,
    after: rust_xlsxwriter::Worksheet,
) -> bool {
    writer_sheet_cells(after) == writer_sheet_cells(before) && writer_sheet_cell_numbers(after)
        == writer_sheet_cell_numbers(before) && writer_sheet_cell_fonts(after)
        == writer_sheet_cell_fonts(before)
}

/// Whether two sheets hold the same merged ranges and marks of them.
pub open spec fn same_merges(
    before: rust_xlsxwriter::Worksheet,
    after: rust_xlsxwriter::Worksheet,
) -> bool {
    writer_sheet_merges(after) == writer_sheet_merges(before) && writer_sheet_marked(after)
        == writer_sheet_marked(before)
}

/// Whether two sheets keep the same of their columns: marks, levels and
/// widths.
pub open spec fn same_columns(
    before: rust_xlsxwriter::Worksheet,
    after: rust_xlsxwriter::Worksheet,
) -> bool {
    writer_sheet_hidden(after) == writer_sheet_hidden(before) && writer_sheet_collapsed(after)
        == writer_sheet_collapsed(before) && writer_sheet_levels(after) == writer_sheet_levels(
        before,
    ) && writer_sheet_widths(after) == writer_sheet_widths(before)
}

/// Whether two sheets keep the same heights and marks of their rows.
pub open spec fn same_rows(
    before: rust_xlsxwriter::Worksheet,
    after: rust_xlsxwriter::Worksheet,
) -> bool {
    writer_sheet_heights(after) == writer_sheet_heights(before) && writer_sheet_hidden_rows(after)
        == writer_sheet_hidden_rows(before)
}

/// Whether two sheets bear the same name, have the same settings, and have
/// formats of their own on the same rows.
pub open spec fn same_frame(
    before: rust_xlsxwriter::Worksheet,
    after: rust_xlsxwriter::Worksheet,
) -> bool {
    writer_sheet_name(after) == writer_sheet_name(before) && writer_sheet_settings(after)
        == writer_sheet_settings(before) && writer_sheet_row_formats(after)
        == writer_sheet_row_formats(before)
}

/// Calls `Worksheet::new`, which makes a sheet without a name, without
/// cells and merged ranges, without a mark or a size on any column or row,
/// and with the settings of a new sheet.
#[verifier::external_body]
pub(crate) fn sheet_new() -> (r: rust_xlsxwriter::Worksheet)
    ensures
        writer_sheet_name(r) == Seq::<char>::empty(),
        writer_sheet_cells(r) == no_cells(),
        writer_sheet_cell_numbers(r) == no_cell_numbers(),
        writer_sheet_cell_fonts(r) == no_cell_fonts(),
        writer_sheet_row_formats(r) == Set::<u32>::empty(),
        writer_sheet_merges(r) == no_merges(),
        writer_sheet_marked(r) == no_marks(),
        writer_sheet_hidden(r) == Set::<u16>::empty(),
        writer_sheet_collapsed(r) == Set::<u16>::empty(),
        writer_sheet_levels(r) == no_levels(),
        writer_sheet_widths(r) == fresh_widths(),
        writer_sheet_heights(r) == no_heights(),
        writer_sheet_hidden_rows(r) == Set::<u32>::empty(),
        writer_sheet_settings(r) == fresh_settings(),
{
    rust_xlsxwriter::Worksheet::new()
}

/// Calls `Worksheet::set_name`. It is assumed to accept exactly the names
/// that are valid here: `rust_xlsxwriter` refuses a name that is empty, has
/// more than 31 characters, holds one of `* ? : [ ] \ /`, or starts or ends
/// with an apostrophe, and no other. A name that it accepts is the name of
/// the sheet from then on; one that it refuses changes nothing. Nothing but
/// the name changes.
#[verifier::external_body]
pub(crate) fn sheet_set_name(sheet: &mut rust_xlsxwriter::Worksheet, name: &str) -> (r: Result<
    (),
    rust_xlsxwriter::XlsxError,
>)
    ensures
        r is Ok <==> valid_sheet_name(name@),
        r is Ok ==> writer_sheet_name(*final(sheet)) == name@,
        r is Err ==> writer_sheet_name(*final(sheet)) == writer_sheet_name(*old(sheet)),
        writer_sheet_settings(*final(sheet)) == writer_sheet_settings(*old(sheet)),
        writer_sheet_row_formats(*final(sheet)) == writer_sheet_row_formats(*old(sheet)),
        same_cells(*old(sheet), *final(sheet)),
        same_merges(*old(sheet), *final(sheet)),
        same_columns(*old(sheet), *final(sheet)),
        same_rows(*old(sheet), *final(sheet)),
{
    match sheet.set_name(name) {
        Ok(_) => Ok(()),
        Err(e) => Err(e),
    }
}

/// Calls `Worksheet::write_blank`. It is assumed to fail exactly where the
/// coordinate does not lie on the sheet, and then to change no cell; where
/// it succeeds the cell at the coordinate is an empty one, whatever it was,
/// and, on a sheet without a format on any row, bears the format that is
/// given. Nothing but cells changes.
#[verifier::external_body]
pub(crate) fn sheet_write_blank(
    sheet: &mut rust_xlsxwriter::Worksheet,
    row: u32,
    col: u16,
    format: &rust_xlsxwriter::Format,
) -> (r: Result<(), rust_xlsxwriter::XlsxError>)
    ensures
        r is Ok <==> in_bounds(row, col),
        r is Ok ==> writer_sheet_cells(*final(sheet)) == writer_sheet_cells(*old(sheet)).insert(
            (row, col),
            blank_cell(),
        ),
        (r is Ok && writer_sheet_row_formats(*old(sheet)) == Set::<u32>::empty())
            ==> writer_sheet_cell_numbers(*final(sheet)) == writer_sheet_cell_numbers(
            *old(sheet),
        ).insert((row, col), writer_format_numbers(*format)) && writer_sheet_cell_fonts(
            *final(sheet),
        ) == writer_sheet_cell_fonts(*old(sheet)).insert((row, col), writer_format_font(*format)),
        r is Err ==> same_cells(*old(sheet), *final(sheet)),
        same_frame(*old(sheet), *final(sheet)),
        same_merges(*old(sheet), *final(sheet)),
        same_columns(*old(sheet), *final(sheet)),
        same_rows(*old(sheet), *final(sheet)),
{
    match sheet.write_blank(row, col, format) {
        Ok(_) => Ok(()),
        Err(e) => Err(e),
    }
}

/// Calls `Worksheet::write_string`. It is assumed to do nothing and succeed
/// on an empty text, and otherwise to fail exactly where the coordinate does
/// not lie on the sheet or the text has more than 32767 characters. Where it
/// succeeds on a text with characters, the cell at the coordinate holds the
/// text and, on a sheet without a format on any row, bears the format on
/// which nothing is set; in every other case no cell changes. Nothing but
/// cells changes.
#[verifier::external_body]
pub(crate) fn sheet_write_string(
    sheet: &mut rust_xlsxwriter::Worksheet,
    row: u32,
    col: u16,
    text: &str,
) -> (r: Result<(), rust_xlsxwriter::XlsxError>)
    ensures
        r is Ok <==> text@.len() == 0 || (in_bounds(row, col) && text@.len() <= TEXT_LIMIT),
        (r is Ok && text@.len() > 0) ==> writer_sheet_cells(*final(sheet)) == writer_sheet_cells(
            *old(sheet),
        ).insert((row, col), text_cell(text@)),
        (r is Ok && text@.len() > 0 && writer_sheet_row_formats(*old(sheet)) == Set::<u32>::empty())
            ==> writer_sheet_cell_numbers(*final(sheet)) == writer_sheet_cell_numbers(
            *old(sheet),
        ).insert((row, col), fresh_numbers()) && writer_sheet_cell_fonts(*final(sheet))
            == writer_sheet_cell_fonts(*old(sheet)).insert((row, col), fresh_font()),
        (r is Err || text@.len() == 0) ==> same_cells(*old(sheet), *final(sheet)),
        same_frame(*old(sheet), *final(sheet)),
        same_merges(*old(sheet), *final(sheet)),
        same_columns(*old(sheet), *final(sheet)),
        same_rows(*old(sheet), *final(sheet)),
{
    match sheet.write_string(row, col, text) {
        Ok(_) => Ok(()),
        Err(e) => Err(e),
    }
}

/// Calls `Worksheet::write_string_with_format`, which writes an empty text
/// as a blank cell. It is assumed to fail exactly where the coordinate does
/// not lie on the sheet or the text has more than 32767 characters, and then
/// to change no cell; where it succeeds the cell at the coordinate holds the
/// text, or is empty where the text has no characters, and, on a sheet
/// without a format on any row, bears the format that is given. Nothing but
/// cells changes.
#[verifier::external_body]
pub(crate) fn sheet_write_string_with_format(
    sheet: &mut rust_xlsxwriter::Worksheet,
    row: u32,
    col: u16,
    text: &str,
    format: &rust_xlsxwriter::Format,
) -> (r: Result<(), rust_xlsxwriter::XlsxError>)
    ensures
        r is Ok <==> (in_bounds(row, col) && text@.len() <= TEXT_LIMIT),
        r is Ok ==> writer_sheet_cells(*final(sheet)) == writer_sheet_cells(*old(sheet)).insert(
            (row, col),
            written_text(text@),
        ),
        (r is Ok && writer_sheet_row_formats(*old(sheet)) == Set::<u32>::empty())
            ==> writer_sheet_cell_numbers(*final(sheet)) == writer_sheet_cell_numbers(
            *old(sheet),
        ).insert((row, col), writer_format_numbers(*format)) && writer_sheet_cell_fonts(
            *final(sheet),
        ) == writer_sheet_cell_fonts(*old(sheet)).insert((row, col), writer_format_font(*format)),
        r is Err ==> same_cells(*old(sheet), *final(sheet)),
        same_frame(*old(sheet), *final(sheet)),
        same_merges(*old(sheet), *final(sheet)),
        same_columns(*old(sheet), *final(sheet)),
        same_rows(*old(sheet), *final(sheet)),
{
    match sheet.write_string_with_format(row, col, text, format) {
        Ok(_) => Ok(()),
        Err(e) => Err(e),
    }
}

/// Calls `Worksheet::write_formula`. It is assumed to fail exactly where the
/// coordinate does not lie on the sheet, and then to change no cell; where
/// it succeeds the cell at the coordinate holds the formula, in the text
/// that `Formula::new` keeps of it, and, on a sheet without a format on any
/// row, bears the format on which nothing is set. A formula that calls a
/// function with a dynamic result is kept as an array formula of its one
/// cell, under the same conditions. Nothing but cells changes.
#[verifier::external_body]
pub(crate) fn sheet_write_formula(
    sheet: &mut rust_xlsxwriter::Worksheet,
    row: u32,
    col: u16,
    formula: &str,
) -> (r: Result<(), rust_xlsxwriter::XlsxError>)
    ensures
        r is Ok <==> in_bounds(row, col),
        r is Ok ==> writer_sheet_cells(*final(sheet)) == writer_sheet_cells(*old(sheet)).insert(
            (row, col),
            formula_cell(kept_formula(formula@)),
        ),
        (r is Ok && writer_sheet_row_formats(*old(sheet)) == Set::<u32>::empty())
            ==> writer_sheet_cell_numbers(*final(sheet)) == writer_sheet_cell_numbers(
            *old(sheet),
        ).insert((row, col), fresh_numbers()) && writer_sheet_cell_fonts(*final(sheet))
            == writer_sheet_cell_fonts(*old(sheet)).insert((row, col), fresh_font()),
        r is Err ==> same_cells(*old(sheet), *final(sheet)),
        same_frame(*old(sheet), *final(sheet)),
        same_merges(*old(sheet), *final(sheet)),
        same_columns(*old(sheet), *final(sheet)),
        same_rows(*old(sheet), *final(sheet)),
{
    match sheet.write_formula(row, col, formula) {
        Ok(_) => Ok(()),
        Err(e) => Err(e),
    }
}

/// Calls `Worksheet::write_formula_with_format`. What is assumed of it is
/// what is assumed of `Worksheet::write_formula`, but that the cell bears
/// the format that is given.
#[verifier::external_body]
pub(crate) fn sheet_write_formula_with_format(
    sheet: &mut rust_xlsxwriter::Worksheet,
    row: u32,
    col: u16,
    formula: &str,
    format: &rust_xlsxwriter::Format,
) -> (r: Result<(), rust_xlsxwriter::XlsxError>)
    ensures
        r is Ok <==> in_bounds(row, col),
        r is Ok ==> writer_sheet_cells(*final(sheet)) == writer_sheet_cells(*old(sheet)).insert(
            (row, col),
            formula_cell(kept_formula(formula@)),
        ),
        (r is Ok && writer_sheet_row_formats(*old(sheet)) == Set::<u32>::empty())
            ==> writer_sheet_cell_numbers(*final(sheet)) == writer_sheet_cell_numbers(
            *old(sheet),
        ).insert((row, col), writer_format_numbers(*format)) && writer_sheet_cell_fonts(
            *final(sheet),
        ) == writer_sheet_cell_fonts(*old(sheet)).insert((row, col), writer_format_font(*format)),
        r is Err ==> same_cells(*old(sheet), *final(sheet)),
        same_frame(*old(sheet), *final(sheet)),
        same_merges(*old(sheet), *final(sheet)),
        same_columns(*old(sheet), *final(sheet)),
        same_rows(*old(sheet), *final(sheet)),
{
    match sheet.write_formula_with_format(row, col, formula, format) {
        Ok(_) => Ok(()),
        Err(e) => Err(e),
    }
}

/// Calls `Worksheet::merge_range`, and hands the sheet back where the call
/// succeeds. A sheet on which the call failed is given up: the call may have
/// marked some cells of the range before it failed, and a later call that
/// meets such a cell may not return. So every marked cell of the sheet has
/// to lie in one of its merged ranges. The call is assumed to succeed
/// exactly where the range has a shape that can be merged, the text has
/// 32767 characters at most, and no cell of the range is marked. Where it
/// succeeds, it has written the text to the first cell of the range and an
/// empty cell to every other cell of it, each, on a sheet without a format
/// on any row, with the format that is given; it has marked the cells of
/// the range, and has put the range behind the merged ranges that the sheet
/// had. Nothing else changes.
#[verifier::external_body]
pub(crate) fn sheet_merge_range(
    sheet: rust_xlsxwriter::Worksheet,
    range: (u32, u16, u32, u16),
    text: &str,
    format: &rust_xlsxwriter::Format,
) -> (r: Result<rust_xlsxwriter::Worksheet, rust_xlsxwriter::XlsxError>)
    requires
        forall|key: (u32, u16)| #[trigger]
            writer_sheet_marked(sheet).contains(key) ==> exists|i: int|
                0 <= i < writer_sheet_merges(sheet).len() && in_range(
                    key,
                    #[trigger] writer_sheet_merges(sheet)[i],
                ),
    ensures
        r is Ok <==> (range_shaped(range) && text@.len() <= TEXT_LIMIT && writer_sheet_marked(
            sheet,
        ).disjoint(range_cells(range))),
        r matches Ok(merged) ==> (writer_sheet_cells(merged) == cells_after_merge(
            writer_sheet_cells(sheet),
            range,
            text@,
        ) && writer_sheet_merges(merged) == writer_sheet_merges(sheet).push(range)
            && writer_sheet_marked(merged) == writer_sheet_marked(sheet).union(range_cells(range))),
        r matches Ok(merged) ==> (writer_sheet_row_formats(sheet) == Set::<u32>::empty()
            ==> writer_sheet_cell_numbers(merged) == range_filled(
            writer_sheet_cell_numbers(sheet),
            range,
            writer_format_numbers(*format),
        ) && writer_sheet_cell_fonts(merged) == range_filled(
            writer_sheet_cell_fonts(sheet),
            range,
            writer_format_font(*format),
        )),
        r matches Ok(merged) ==> (same_frame(sheet, merged) && same_columns(sheet, merged)
            && same_rows(sheet, merged)),
{
    let mut sheet = sheet;
    let failure = sheet.merge_range(range.0, range.1, range.2, range.3, text, format).err();
    match failure {
        None => Ok(sheet),
        Some(e) => Err(e),
    }
}

/// Calls `Worksheet::set_column_width` with a whole number of characters. It
/// is assumed to fail exactly where the column does not lie on the sheet.
/// `rust_xlsxwriter` converts the width to pixels in 32 bits, which a width
/// up to the largest one cannot overflow. Where it succeeds with a width of
/// zero it marks the column as hidden and keeps the width; where it succeeds
/// with another width it keeps, on a sheet with the measures of a new sheet,
/// seven pixels for each character and five more. Nothing else changes.
#[verifier::external_body]
pub(crate) fn sheet_set_column_width(
    sheet: &mut rust_xlsxwriter::Worksheet,
    col: u16,
    width: u32,
) -> (r: Result<(), rust_xlsxwriter::XlsxError>)
    requires
        width <= COLUMN_WIDTH_LIMIT,
    ensures
        r is Ok <==> col < COLUMN_LIMIT,
        (r is Ok && width == 0) ==> writer_sheet_hidden(*final(sheet)) == writer_sheet_hidden(
            *old(sheet),
        ).insert(col),
        (r is Err || width > 0) ==> writer_sheet_hidden(*final(sheet)) == writer_sheet_hidden(
            *old(sheet),
        ),
        (r is Ok && width > 0 && standard_measures(writer_sheet_settings(*old(sheet))))
            ==> writer_sheet_widths(*final(sheet)) == writer_sheet_widths(*old(sheet)).insert(
            col,
            width_pixels(width),
        ),
        (r is Err || width == 0) ==> writer_sheet_widths(*final(sheet)) == writer_sheet_widths(
            *old(sheet),
        ),
        writer_sheet_collapsed(*final(sheet)) == writer_sheet_collapsed(*old(sheet)),
        writer_sheet_levels(*final(sheet)) == writer_sheet_levels(*old(sheet)),
        same_frame(*old(sheet), *final(sheet)),
        same_cells(*old(sheet), *final(sheet)),
        same_merges(*old(sheet), *final(sheet)),
        same_rows(*old(sheet), *final(sheet)),
{
    match sheet.set_column_width(col, width) {
        Ok(_) => Ok(()),
        Err(e) => Err(e),
    }
}

/// Calls `Worksheet::set_row_height_pixels`, which takes the height in
/// pixels. It is assumed to fail exactly where the row does not lie on the
/// sheet, and then to change nothing. Where it succeeds with a height of
/// zero it marks the row as hidden, and keeps for it the default height of
/// the sheet where it kept none; where it succeeds with another height it
/// keeps that height for the row. Nothing else changes.
#[verifier::external_body]
pub(crate) fn sheet_set_row_height_pixels(
    sheet: &mut rust_xlsxwriter::Worksheet,
    row: u32,
    pixels: u32,
) -> (r: Result<(), rust_xlsxwriter::XlsxError>)
    ensures
        r is Ok <==> row < ROW_LIMIT,
        (r is Ok && pixels > 0) ==> writer_sheet_heights(*final(sheet)) == writer_sheet_heights(
            *old(sheet),
        ).insert(row, pixels) && writer_sheet_hidden_rows(*final(sheet))
            == writer_sheet_hidden_rows(*old(sheet)),
        (r is Ok && pixels == 0) ==> writer_sheet_hidden_rows(*final(sheet))
            == writer_sheet_hidden_rows(*old(sheet)).insert(row) && writer_sheet_heights(
            *final(sheet),
        ) == (if writer_sheet_heights(*old(sheet)).dom().contains(row) {
            writer_sheet_heights(*old(sheet))
        } else {
            writer_sheet_heights(*old(sheet)).insert(
                row,
                writer_sheet_settings(*old(sheet))[0] as u32,
            )
        }),
        r is Err ==> same_rows(*old(sheet), *final(sheet)),
        same_frame(*old(sheet), *final(sheet)),
        same_cells(*old(sheet), *final(sheet)),
        same_merges(*old(sheet), *final(sheet)),
        same_columns(*old(sheet), *final(sheet)),
{
    match sheet.set_row_height_pixels(row, pixels) {
        Ok(_) => Ok(()),
        Err(e) => Err(e),
    }
}

/// Calls `Worksheet::set_default_row_height_pixels`, which takes the height
/// in pixels. The call cannot fail. A height above zero is the default
/// height from then on; a height of zero changes nothing. Nothing else
/// changes.
#[verifier::external_body]
pub(crate) fn sheet_set_default_row_height_pixels(
    sheet: &mut rust_xlsxwriter::Worksheet,
    pixels: u32,
)
    ensures
        pixels > 0 ==> writer_sheet_settings(*final(sheet)) == writer_sheet_settings(
            *old(sheet),
        ).update(0, pixels as int),
        pixels == 0 ==> writer_sheet_settings(*final(sheet)) == writer_sheet_settings(*old(sheet)),
        writer_sheet_name(*final(sheet)) == writer_sheet_name(*old(sheet)),
        writer_sheet_row_formats(*final(sheet)) == writer_sheet_row_formats(*old(sheet)),
        same_cells(*old(sheet), *final(sheet)),
        same_merges(*old(sheet), *final(sheet)),
        same_columns(*old(sheet), *final(sheet)),
        same_rows(*old(sheet), *final(sheet)),
{
    sheet.set_default_row_height_pixels(pixels);
}

/// Calls `Worksheet::set_screen_gridlines`. The call cannot fail. It sets
/// whether gridlines are shown on screen, and nothing else.
#[verifier::external_body]
pub(crate) fn sheet_set_screen_gridlines(sheet: &mut rust_xlsxwriter::Worksheet, enable: bool)
    ensures
        writer_sheet_settings(*final(sheet)) == writer_sheet_settings(*old(sheet)).update(
            1,
            flag(enable),
        ),
        writer_sheet_name(*final(sheet)) == writer_sheet_name(*old(sheet)),
        writer_sheet_row_formats(*final(sheet)) == writer_sheet_row_formats(*old(sheet)),
        same_cells(*old(sheet), *final(sheet)),
        same_merges(*old(sheet), *final(sheet)),
        same_columns(*old(sheet), *final(sheet)),
        same_rows(*old(sheet), *final(sheet)),
{
    sheet.set_screen_gridlines(enable);
}

/// Calls `Worksheet::set_print_gridlines`. The call cannot fail. It sets
/// whether gridlines are printed, and nothing else that is spoken of here.
#[verifier::external_body]
pub(crate) fn sheet_set_print_gridlines(sheet: &mut rust_xlsxwriter::Worksheet, enable: bool)
    ensures
        writer_sheet_settings(*final(sheet)) == writer_sheet_settings(*old(sheet)).update(
            2,
            flag(enable),
        ),
        writer_sheet_name(*final(sheet)) == writer_sheet_name(*old(sheet)),
        writer_sheet_row_formats(*final(sheet)) == writer_sheet_row_formats(*old(sheet)),
        same_cells(*old(sheet), *final(sheet)),
        same_merges(*old(sheet), *final(sheet)),
        same_columns(*old(sheet), *final(sheet)),
        same_rows(*old(sheet), *final(sheet)),
{
    sheet.set_print_gridlines(enable);
}

/// Calls `Worksheet::set_column_hidden`. It is assumed to fail exactly where
/// the column does not lie on the sheet, and then to change no mark; where
/// it succeeds the column is marked as hidden. Nothing else changes.
#[verifier::external_body]
pub(crate) fn sheet_set_column_hidden(sheet: &mut rust_xlsxwriter::Worksheet, col: u16) -> (r:
    Result<(), rust_xlsxwriter::XlsxError>)
    ensures
        r is Ok <==> col < COLUMN_LIMIT,
        r is Ok ==> writer_sheet_hidden(*final(sheet)) == writer_sheet_hidden(*old(sheet)).insert(
            col,
        ),
        r is Err ==> writer_sheet_hidden(*final(sheet)) == writer_sheet_hidden(*old(sheet)),
        writer_sheet_collapsed(*final(sheet)) == writer_sheet_collapsed(*old(sheet)),
        writer_sheet_levels(*final(sheet)) == writer_sheet_levels(*old(sheet)),
        writer_sheet_widths(*final(sheet)) == writer_sheet_widths(*old(sheet)),
        same_frame(*old(sheet), *final(sheet)),
        same_cells(*old(sheet), *final(sheet)),
        same_merges(*old(sheet), *final(sheet)),
        same_rows(*old(sheet), *final(sheet)),
{
    match sheet.set_column_hidden(col) {
        Ok(_) => Ok(()),
        Err(e) => Err(e),
    }
}

/// Calls `Worksheet::group_columns_collapsed` for a group of one column.
/// `rust_xlsxwriter` marks the column behind the group and computes its index
/// in 16 bits, so the column has to be below the largest 16-bit number. The
/// call is assumed to succeed exactly where the column behind the group lies
/// on the sheet and the column is in fewer than seven groups. Where it
/// succeeds it has marked the column as hidden and the column behind it as
/// collapsed, and the column is in one group more. The widths stay, and so
/// does all that is no mark or level of a column.
#[verifier::external_body]
pub(crate) fn sheet_group_columns_collapsed(
    sheet: &mut rust_xlsxwriter::Worksheet,
    col: u16,
) -> (r: Result<(), rust_xlsxwriter::XlsxError>)
    requires
        col < u16::MAX,
    ensures
        r is Ok <==> (col + 1 < COLUMN_LIMIT && level_of(writer_sheet_levels(*old(sheet)), col) < 7),
        r is Ok ==> writer_sheet_hidden(*final(sheet)) == writer_sheet_hidden(*old(sheet)).insert(
            col,
        ),
        r is Ok ==> writer_sheet_collapsed(*final(sheet)) == writer_sheet_collapsed(
            *old(sheet),
        ).insert((col + 1) as u16),
        r is Ok ==> writer_sheet_levels(*final(sheet)) == writer_sheet_levels(*old(sheet)).insert(
            col,
            level_of(writer_sheet_levels(*old(sheet)), col) + 1,
        ),
        writer_sheet_widths(*final(sheet)) == writer_sheet_widths(*old(sheet)),
        same_frame(*old(sheet), *final(sheet)),
        same_cells(*old(sheet), *final(sheet)),
        same_merges(*old(sheet), *final(sheet)),
        same_rows(*old(sheet), *final(sheet)),
{
    match sheet.group_columns_collapsed(col, col) {
        Ok(_) => Ok(()),
        Err(e) => Err(e),
    }
}

/// The names of the sheets of a workbook of `rust_xlsxwriter`, in the order
/// of its list of sheets.
pub uninterp spec fn writer_book_names(book: rust_xlsxwriter::Workbook) -> Seq<Seq<char>>;

/// The cells of each sheet of a workbook of `rust_xlsxwriter`, in the order
/// of its list of sheets, as `writer_sheet_cells` tells them.
pub uninterp spec fn writer_book_cells(book: rust_xlsxwriter::Workbook) -> Seq<
    Map<(u32, u16), (int, Seq<char>)>,
>;

/// The numbers of the formats of the cells of each sheet of a workbook of
/// `rust_xlsxwriter`, as `writer_sheet_cell_numbers` tells them.
pub uninterp spec fn writer_book_cell_numbers(book: rust_xlsxwriter::Workbook) -> Seq<
    Map<(u32, u16), Seq<int>>,
>;

/// The fonts of the formats of the cells of each sheet of a workbook of
/// `rust_xlsxwriter`, as `writer_sheet_cell_fonts` tells them.
pub uninterp spec fn writer_book_cell_fonts(book: rust_xlsxwriter::Workbook) -> Seq<
    Map<(u32, u16), Seq<char>>,
>;

/// The merged ranges of each sheet of a workbook of `rust_xlsxwriter`, in
/// the order of its list of sheets, as `writer_sheet_merges` tells them.
pub uninterp spec fn writer_book_merges(book: rust_xlsxwriter::Workbook) -> Seq<
    Seq<(u32, u16, u32, u16)>,
>;

/// The hidden columns of each sheet of a workbook of `rust_xlsxwriter`, in
/// the order of its list of sheets, as `writer_sheet_hidden` tells them.
pub uninterp spec fn writer_book_hidden(book: rust_xlsxwriter::Workbook) -> Seq<Set<u16>>;

/// The collapsed columns of each sheet of a workbook of `rust_xlsxwriter`,
/// in the order of its list of sheets, as `writer_sheet_collapsed` tells
/// them.
pub uninterp spec fn writer_book_collapsed(book: rust_xlsxwriter::Workbook) -> Seq<Set<u16>>;

/// The outline levels of the columns of each sheet of a workbook of
/// `rust_xlsxwriter`, as `writer_sheet_levels` tells them.
pub uninterp spec fn writer_book_levels(book: rust_xlsxwriter::Workbook) -> Seq<Map<u16, int>>;

/// The widths of the columns of each sheet of a workbook of
/// `rust_xlsxwriter`, as `writer_sheet_widths` tells them.
pub uninterp spec fn writer_book_widths(book: rust_xlsxwriter::Workbook) -> Seq<Map<u16, u32>>;

/// The heights of the rows of each sheet of a workbook of `rust_xlsxwriter`,
/// as `writer_sheet_heights` tells them.
pub uninterp spec fn writer_book_heights(book: rust_xlsxwriter::Workbook) -> Seq<Map<u32, u32>>;

/// The hidden rows of each sheet of a workbook of `rust_xlsxwriter`, as
/// `writer_sheet_hidden_rows` tells them.
pub uninterp spec fn writer_book_hidden_rows(book: rust_xlsxwriter::Workbook) -> Seq<Set<u32>>;

/// The settings of each sheet of a workbook of `rust_xlsxwriter`, as
/// `writer_sheet_settings` tells them.
pub uninterp spec fn writer_book_settings(book: rust_xlsxwriter::Workbook) -> Seq<Seq<int>>;

/// Calls `Workbook::new`, which makes a workbook without sheets.
#[verifier::external_body]
pub(crate) fn book_new() -> (r: rust_xlsxwriter::Workbook)
    ensures
        writer_book_names(r).len() == 0,
        writer_book_cells(r).len() == 0,
        writer_book_cell_numbers(r).len() == 0,
        writer_book_cell_fonts(r).len() == 0,
        writer_book_merges(r).len() == 0,
        writer_book_hidden(r).len() == 0,
        writer_book_collapsed(r).len() == 0,
        writer_book_levels(r).len() == 0,
        writer_book_widths(r).len() == 0,
        writer_book_heights(r).len() == 0,
        writer_book_hidden_rows(r).len() == 0,
        writer_book_settings(r).len() == 0,
{
    rust_xlsxwriter::Workbook::new()
}

/// Calls `Workbook::push_worksheet`, which adds a sheet behind those that the
/// workbook has. The call cannot fail. The sheet keeps all that it holds,
/// and its name where it has one; to a sheet without a name
/// `rust_xlsxwriter` gives one, of which nothing is stated here.
#[verifier::external_body]
pub(crate) fn book_push_worksheet(
    book: &mut rust_xlsxwriter::Workbook,
    sheet: rust_xlsxwriter::Worksheet,
)
    ensures
        writer_sheet_name(sheet).len() > 0 ==> writer_book_names(*final(book)) == writer_book_names(
            *old(book),
        ).push(writer_sheet_name(sheet)),
        writer_book_cells(*final(book)) == writer_book_cells(*old(book)).push(
            writer_sheet_cells(sheet),
        ),
        writer_book_cell_numbers(*final(book)) == writer_book_cell_numbers(*old(book)).push(
            writer_sheet_cell_numbers(sheet),
        ),
        writer_book_cell_fonts(*final(book)) == writer_book_cell_fonts(*old(book)).push(
            writer_sheet_cell_fonts(sheet),
        ),
        writer_book_merges(*final(book)) == writer_book_merges(*old(book)).push(
            writer_sheet_merges(sheet),
        ),
        writer_book_hidden(*final(book)) == writer_book_hidden(*old(book)).push(
            writer_sheet_hidden(sheet),
        ),
        writer_book_collapsed(*final(book)) == writer_book_collapsed(*old(book)).push(
            writer_sheet_collapsed(sheet),
        ),
        writer_book_levels(*final(book)) == writer_book_levels(*old(book)).push(
            writer_sheet_levels(sheet),
        ),
        writer_book_widths(*final(book)) == writer_book_widths(*old(book)).push(
            writer_sheet_widths(sheet),
        ),
        writer_book_heights(*final(book)) == writer_book_heights(*old(book)).push(
            writer_sheet_heights(sheet),
        ),
        writer_book_hidden_rows(*final(book)) == writer_book_hidden_rows(*old(book)).push(
            writer_sheet_hidden_rows(sheet),
        ),
        writer_book_settings(*final(book)) == writer_book_settings(*old(book)).push(
            writer_sheet_settings(sheet),
        ),
{
    book.push_worksheet(sheet);
}

/// Calls `Workbook::save_to_buffer`, which encodes the workbook as the bytes
/// of a file. The bytes hold the time of the call, and the call fails, among
/// others, where two sheets have names that differ in case only. It is
/// assumed to hand back at least one byte where it succeeds:
/// `rust_xlsxwriter` writes the parts of the file and finishes the archive
/// before it does.
#[verifier::external_body]
pub(crate) fn book_save_to_buffer(book: &mut rust_xlsxwriter::Workbook) -> (r: Result<
    Vec<u8>,
    rust_xlsxwriter::XlsxError,
>)
    ensures
        r matches Ok(bytes) ==> bytes@.len() > 0,
{
    book.save_to_buffer()
}

/// Gives the message of an error of `rust_xlsxwriter`, as its `Display`
/// writes it. Nothing is assumed of the result.
#[verifier::external_body]
pub(crate) fn error_message(error: &rust_xlsxwriter::XlsxError) -> String {
    format!("{}", error)
}

} // verus!
