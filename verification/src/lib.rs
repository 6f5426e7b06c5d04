//! A verified in-memory model of a spreadsheet document: formats, cells,
//! worksheets and the workbook that names and finalizes them.
//!
//! A workbook gives out worksheets and formats. Worksheets take writes,
//! sizes, visibility settings and merged ranges, each checked when it is
//! made. Closing the workbook over a sequence of worksheets yields the
//! document, which `rust_xlsxwriter` encodes as the bytes of a file.

pub mod cell;
pub mod color;
mod encode;
pub mod format;
pub mod sheet_name;
pub mod text;
pub mod workbook;
pub mod worksheet;
mod writer;

pub use cell::{CellContent, MergeRange};
pub use color::color_from_string;
pub use format::{
    border_style_from_index, create_format, format_align_from_string, Alignment, BorderStyle,
    FormatError, FormatOptions, HorizontalAlign, RustFormat, VerticalAlign,
};
pub use sheet_name::{check_sheet_name, NameError};
pub use workbook::{encoded, CloseError, Document, RustWorkbook, WorkbookError};
pub use worksheet::{RustWorksheet, SheetError};
