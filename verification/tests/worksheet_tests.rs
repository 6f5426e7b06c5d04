use xlsx_rust::worksheet::shown_width;
use xlsx_rust::{
    CellContent, FormatOptions, MergeRange, RustFormat, RustWorkbook, RustWorksheet, SheetError,
};

fn new_sheet(name: &str) -> RustWorksheet {
    RustWorkbook::new().add_worksheet(name.to_string()).unwrap()
}

fn plain_text(s: &str) -> CellContent {
    CellContent::Text {
        text: s.to_string(),
        format: None,
    }
}

fn bold_format() -> RustFormat {
    RustFormat::new().set_bold(true)
}

#[test]
fn new_sheet_is_empty() {
    let ws = new_sheet("Data");
    assert_eq!(ws.get_name(), "Data");
    assert!(!ws.is_consumed());
    assert_eq!(ws.cell(0, 0), None);
    assert_eq!(ws.column_width(0), None);
    assert_eq!(ws.row_height(0), None);
    assert_eq!(ws.default_row_height(), None);
    assert!(!ws.is_column_hidden(0));
    assert!(!ws.is_column_collapsed(0));
    assert!(ws.screen_gridlines());
    assert!(!ws.print_gridlines());
    assert!(ws.merges().is_empty());
}

#[test]
fn write_string_is_read_back() {
    let mut ws = new_sheet("Data");
    assert_eq!(ws.write_string(0, 0, "Hello".to_string()), Ok(()));
    assert_eq!(ws.cell(0, 0), Some(&plain_text("Hello")));
    assert_eq!(ws.cell(0, 1), None);
    assert_eq!(ws.cell(1, 0), None);
}

#[test]
fn write_string_with_format_keeps_the_format() {
    let mut ws = new_sheet("Data");
    let format = bold_format();
    assert_eq!(
        ws.write_string_with_format(0, 1, "Bold".to_string(), &format),
        Ok(())
    );
    assert_eq!(
        ws.cell(0, 1),
        Some(&CellContent::Text {
            text: "Bold".to_string(),
            format: Some(bold_format()),
        })
    );
}

#[test]
fn write_blank_with_and_without_format() {
    let mut ws = new_sheet("Data");
    assert_eq!(ws.write_blank(2, 3, None), Ok(()));
    assert_eq!(
        ws.cell(2, 3),
        Some(&CellContent::Blank {
            format: RustFormat::new()
        })
    );
    let format = bold_format();
    assert_eq!(ws.write_blank(2, 4, Some(&format)), Ok(()));
    assert_eq!(
        ws.cell(2, 4),
        Some(&CellContent::Blank {
            format: bold_format()
        })
    );
}

#[test]
fn blank_without_format_is_blank_with_the_default_format() {
    let mut first = new_sheet("Data");
    let mut second = new_sheet("Data");
    first.write_blank(4, 4, None).unwrap();
    second.write_blank(4, 4, Some(&RustFormat::new())).unwrap();
    assert_eq!(first.cell(4, 4), second.cell(4, 4));
    assert_eq!(
        first.cell(4, 4),
        Some(&CellContent::Blank {
            format: RustFormat::new()
        })
    );
}

#[test]
fn formula_is_kept_verbatim() {
    let mut ws = new_sheet("Data");
    assert_eq!(ws.write_formula(1, 1, "=SUM(A1:A3)".to_string()), Ok(()));
    assert_eq!(
        ws.cell(1, 1),
        Some(&CellContent::Formula {
            formula: "=SUM(A1:A3)".to_string(),
            format: None,
        })
    );
    assert_eq!(ws.write_formula(1, 2, "not a formula ((".to_string()), Ok(()));
    assert_eq!(
        ws.cell(1, 2),
        Some(&CellContent::Formula {
            formula: "not a formula ((".to_string(),
            format: None,
        })
    );
    let format = bold_format();
    assert_eq!(
        ws.write_formula_with_format(1, 3, "A1+1".to_string(), &format),
        Ok(())
    );
    assert_eq!(
        ws.cell(1, 3),
        Some(&CellContent::Formula {
            formula: "A1+1".to_string(),
            format: Some(bold_format()),
        })
    );
}

#[test]
fn last_write_wins_blank_then_string() {
    let mut ws = new_sheet("Data");
    ws.write_blank(5, 5, None).unwrap();
    ws.write_string(5, 5, "later".to_string()).unwrap();
    assert_eq!(ws.cell(5, 5), Some(&plain_text("later")));
}

#[test]
fn last_write_wins_string_then_blank() {
    let mut ws = new_sheet("Data");
    ws.write_string(5, 5, "earlier".to_string()).unwrap();
    ws.write_formula(5, 5, "=1".to_string()).unwrap();
    ws.write_blank(5, 5, None).unwrap();
    assert_eq!(
        ws.cell(5, 5),
        Some(&CellContent::Blank {
            format: RustFormat::new()
        })
    );
}

#[test]
fn write_leaves_other_cells() {
    let mut ws = new_sheet("Data");
    ws.write_string(0, 0, "a".to_string()).unwrap();
    ws.write_string(0, 1, "b".to_string()).unwrap();
    ws.write_string(0, 0, "c".to_string()).unwrap();
    assert_eq!(ws.cell(0, 0), Some(&plain_text("c")));
    assert_eq!(ws.cell(0, 1), Some(&plain_text("b")));
}

#[test]
fn coordinates_at_the_edge_are_accepted() {
    let mut ws = new_sheet("Data");
    assert_eq!(ws.write_string(1_048_575, 16_383, "x".to_string()), Ok(()));
    assert_eq!(ws.cell(1_048_575, 16_383), Some(&plain_text("x")));
}

#[test]
fn row_out_of_range_is_refused() {
    let mut ws = new_sheet("Data");
    let format = bold_format();
    assert_eq!(
        ws.write_string(1_048_576, 0, "x".to_string()),
        Err(SheetError::RowOutOfRange)
    );
    assert_eq!(
        ws.write_string_with_format(u32::MAX, 0, "x".to_string(), &format),
        Err(SheetError::RowOutOfRange)
    );
    assert_eq!(ws.write_blank(1_048_576, 0, None), Err(SheetError::RowOutOfRange));
    assert_eq!(
        ws.write_formula(1_048_576, 0, "=1".to_string()),
        Err(SheetError::RowOutOfRange)
    );
    assert_eq!(
        ws.write_formula_with_format(1_048_576, 0, "=1".to_string(), &format),
        Err(SheetError::RowOutOfRange)
    );
    assert_eq!(ws.set_row_height(1_048_576, 20), Err(SheetError::RowOutOfRange));
    assert_eq!(ws.cell(1_048_576, 0), None);
    assert_eq!(ws.row_height(1_048_576), None);
}

#[test]
fn column_out_of_range_is_refused() {
    let mut ws = new_sheet("Data");
    assert_eq!(
        ws.write_string(0, 16_384, "x".to_string()),
        Err(SheetError::ColumnOutOfRange)
    );
    assert_eq!(ws.write_blank(0, u16::MAX, None), Err(SheetError::ColumnOutOfRange));
    assert_eq!(ws.set_column_width(16_384, 10), Err(SheetError::ColumnOutOfRange));
    assert_eq!(ws.set_column_hidden(16_384), Err(SheetError::ColumnOutOfRange));
    assert_eq!(
        ws.group_columns_collapsed(16_384),
        Err(SheetError::ColumnOutOfRange)
    );
    assert_eq!(ws.cell(0, 16_384), None);
    assert!(!ws.is_column_hidden(16_384));
}

#[test]
fn row_is_checked_before_column() {
    let mut ws = new_sheet("Data");
    assert_eq!(
        ws.write_string(1_048_576, 16_384, "x".to_string()),
        Err(SheetError::RowOutOfRange)
    );
}

#[test]
fn empty_string_out_of_range_is_refused_too() {
    let mut ws = new_sheet("Data");
    assert_eq!(
        ws.write_string(2_000_000, 0, String::new()),
        Err(SheetError::RowOutOfRange)
    );
}

#[test]
fn text_length_limit() {
    let mut ws = new_sheet("Data");
    let longest = "a".repeat(32_767);
    let too_long = "a".repeat(32_768);
    assert_eq!(ws.write_string(0, 0, longest.clone()), Ok(()));
    assert_eq!(
        ws.write_string(0, 1, too_long.clone()),
        Err(SheetError::TextTooLong)
    );
    assert_eq!(ws.cell(0, 1), None);
    let format = bold_format();
    assert_eq!(
        ws.write_string_with_format(0, 1, too_long.clone(), &format),
        Err(SheetError::TextTooLong)
    );
    assert_eq!(
        ws.merge_range(3, 0, 3, 1, too_long, &format),
        Err(SheetError::TextTooLong)
    );
    assert_eq!(ws.merge_range(3, 0, 3, 1, longest, &format), Ok(()));
}

#[test]
fn text_length_counts_characters() {
    let mut ws = new_sheet("Data");
    let wide = "\u{00e9}".repeat(32_767);
    assert!(wide.len() > 32_767);
    assert_eq!(ws.write_string(0, 0, wide), Ok(()));
}

#[test]
fn a_refused_write_changes_nothing() {
    let mut ws = new_sheet("Data");
    ws.write_string(0, 0, "kept".to_string()).unwrap();
    assert!(ws.write_string(0, 16_384, "lost".to_string()).is_err());
    assert!(ws.write_string(0, 0, "a".repeat(40_000)).is_err());
    assert_eq!(ws.cell(0, 0), Some(&plain_text("kept")));
}

#[test]
fn merge_range_is_recorded() {
    let mut ws = new_sheet("Data");
    let format = bold_format();
    assert_eq!(ws.merge_range(0, 0, 1, 1, "X".to_string(), &format), Ok(()));
    assert_eq!(
        ws.merges(),
        vec![MergeRange {
            first_row: 0,
            first_col: 0,
            last_row: 1,
            last_col: 1,
            text: "X".to_string(),
            format: bold_format(),
        }]
    );
}

#[test]
fn merge_is_no_cell_write() {
    let mut ws = new_sheet("Data");
    ws.write_string(0, 0, "a".to_string()).unwrap();
    ws.merge_range(0, 0, 1, 1, "X".to_string(), &bold_format()).unwrap();
    assert_eq!(ws.cell(0, 0), Some(&plain_text("a")));
    assert_eq!(ws.cell(1, 1), None);
}

#[test]
fn reversed_merge_is_refused() {
    let mut ws = new_sheet("Data");
    let format = bold_format();
    assert_eq!(
        ws.merge_range(1, 1, 0, 0, "X".to_string(), &format),
        Err(SheetError::MergeReversed)
    );
    assert_eq!(
        ws.merge_range(1, 0, 0, 5, "X".to_string(), &format),
        Err(SheetError::MergeReversed)
    );
    assert_eq!(
        ws.merge_range(0, 5, 3, 4, "X".to_string(), &format),
        Err(SheetError::MergeReversed)
    );
    assert!(ws.merges().is_empty());
}

#[test]
fn single_cell_merge_is_refused() {
    let mut ws = new_sheet("Data");
    assert_eq!(
        ws.merge_range(2, 2, 2, 2, "X".to_string(), &bold_format()),
        Err(SheetError::MergeSingleCell)
    );
    assert!(ws.merges().is_empty());
}

#[test]
fn merge_out_of_range_is_refused() {
    let mut ws = new_sheet("Data");
    let format = bold_format();
    assert_eq!(
        ws.merge_range(0, 0, 1_048_576, 1, "X".to_string(), &format),
        Err(SheetError::RowOutOfRange)
    );
    assert_eq!(
        ws.merge_range(0, 0, 1, 16_384, "X".to_string(), &format),
        Err(SheetError::ColumnOutOfRange)
    );
    assert_eq!(
        ws.merge_range(1_048_576, 16_384, 0, 0, "X".to_string(), &format),
        Err(SheetError::RowOutOfRange)
    );
    assert_eq!(
        ws.merge_range(0, 0, 1_048_575, 16_383, "X".to_string(), &format),
        Ok(())
    );
}

#[test]
fn overlapping_merge_is_refused() {
    let mut ws = new_sheet("Data");
    let format = bold_format();
    ws.merge_range(0, 0, 1, 1, "X".to_string(), &format).unwrap();
    assert_eq!(
        ws.merge_range(1, 1, 2, 2, "Y".to_string(), &format),
        Err(SheetError::MergeOverlap)
    );
    assert_eq!(
        ws.merge_range(0, 1, 0, 4, "Y".to_string(), &format),
        Err(SheetError::MergeOverlap)
    );
    assert_eq!(ws.merge_range(2, 0, 3, 1, "Y".to_string(), &format), Ok(()));
    assert_eq!(ws.merge_range(0, 2, 1, 3, "Z".to_string(), &format), Ok(()));
    assert_eq!(
        ws.merge_range(1, 1, 2, 2, "W".to_string(), &format),
        Err(SheetError::MergeOverlap)
    );
    assert_eq!(ws.merges().len(), 3);
}

#[test]
fn merge_range_overlap_is_symmetric() {
    let a = MergeRange {
        first_row: 0,
        first_col: 0,
        last_row: 2,
        last_col: 2,
        text: String::new(),
        format: RustFormat::new(),
    };
    let b = MergeRange {
        first_row: 2,
        first_col: 2,
        last_row: 4,
        last_col: 4,
        text: String::new(),
        format: RustFormat::new(),
    };
    let c = MergeRange {
        first_row: 3,
        first_col: 0,
        last_row: 4,
        last_col: 1,
        text: String::new(),
        format: RustFormat::new(),
    };
    assert!(a.overlaps(&b));
    assert!(b.overlaps(&a));
    assert!(!a.overlaps(&c));
    assert!(!c.overlaps(&a));
    assert!(!b.overlaps(&c));
}

#[test]
fn column_width_later_call_overwrites() {
    let mut ws = new_sheet("Data");
    assert_eq!(ws.set_column_width(2, 10), Ok(()));
    assert_eq!(ws.set_column_width(3, 30), Ok(()));
    assert_eq!(ws.set_column_width(2, 20), Ok(()));
    assert_eq!(ws.column_width(2), Some(20));
    assert_eq!(ws.column_width(3), Some(30));
    assert_eq!(ws.column_width(4), None);
}

#[test]
fn every_column_width_is_taken() {
    let mut ws = new_sheet("Data");
    assert_eq!(ws.set_column_width(0, 255), Ok(()));
    assert_eq!(ws.column_width(0), Some(255));
    assert_eq!(ws.set_column_width(0, 0), Ok(()));
    assert_eq!(ws.column_width(0), Some(0));
    assert_eq!(ws.set_column_width(0, 256), Ok(()));
    assert_eq!(ws.column_width(0), Some(256));
    assert_eq!(ws.set_column_width(1, u32::MAX), Ok(()));
    assert_eq!(ws.column_width(1), Some(u32::MAX));
    assert_eq!(ws.column_width(0), Some(256));
}

#[test]
fn shown_width_is_capped() {
    assert_eq!(shown_width(0), 0);
    assert_eq!(shown_width(1), 1);
    assert_eq!(shown_width(255), 255);
    assert_eq!(shown_width(256), 255);
    assert_eq!(shown_width(u32::MAX), 255);
}

#[test]
fn row_height_later_call_overwrites() {
    let mut ws = new_sheet("Data");
    assert_eq!(ws.set_row_height(7, 15), Ok(()));
    assert_eq!(ws.set_row_height(8, 40), Ok(()));
    assert_eq!(ws.set_row_height(7, 25), Ok(()));
    assert_eq!(ws.row_height(7), Some(25));
    assert_eq!(ws.row_height(8), Some(40));
    assert_eq!(ws.row_height(9), None);
}

#[test]
fn default_row_height_is_set() {
    let mut ws = new_sheet("Data");
    assert_eq!(ws.set_default_row_height(30), Ok(()));
    assert_eq!(ws.default_row_height(), Some(30));
    assert_eq!(ws.row_height(0), None);
    assert_eq!(ws.set_default_row_height(18), Ok(()));
    assert_eq!(ws.default_row_height(), Some(18));
}

#[test]
fn zero_default_row_height_is_taken() {
    let mut ws = new_sheet("Data");
    assert_eq!(ws.set_default_row_height(0), Ok(()));
    assert_eq!(ws.default_row_height(), Some(0));
    assert_eq!(ws.set_default_row_height(24), Ok(()));
    assert_eq!(ws.default_row_height(), Some(24));
}

#[test]
fn hidden_column_keeps_its_cells() {
    let mut ws = new_sheet("Data");
    ws.write_string(0, 3, "kept".to_string()).unwrap();
    ws.write_formula(1, 3, "=A1".to_string()).unwrap();
    assert_eq!(ws.set_column_hidden(3), Ok(()));
    assert!(ws.is_column_hidden(3));
    assert!(!ws.is_column_hidden(2));
    assert_eq!(ws.cell(0, 3), Some(&plain_text("kept")));
    assert_eq!(
        ws.cell(1, 3),
        Some(&CellContent::Formula {
            formula: "=A1".to_string(),
            format: None,
        })
    );
    ws.write_string(2, 3, "after".to_string()).unwrap();
    assert_eq!(ws.cell(2, 3), Some(&plain_text("after")));
    assert!(ws.is_column_hidden(3));
}

#[test]
fn collapsed_group_keeps_cells_and_hidden_columns() {
    let mut ws = new_sheet("Data");
    ws.write_string(0, 3, "kept".to_string()).unwrap();
    ws.set_column_hidden(5).unwrap();
    assert_eq!(ws.group_columns_collapsed(3), Ok(()));
    assert!(ws.is_column_collapsed(3));
    assert!(!ws.is_column_collapsed(4));
    assert!(!ws.is_column_hidden(3));
    assert!(ws.is_column_hidden(5));
    assert_eq!(ws.cell(0, 3), Some(&plain_text("kept")));
}

#[test]
fn collapsed_group_on_the_last_column_is_refused() {
    let mut ws = new_sheet("Data");
    assert_eq!(ws.group_columns_collapsed(16_382), Ok(()));
    assert_eq!(
        ws.group_columns_collapsed(16_383),
        Err(SheetError::ColumnOutOfRange)
    );
    assert!(!ws.is_column_collapsed(16_383));
}

#[test]
fn collapsed_group_declared_twice_is_one_group() {
    let mut ws = new_sheet("Data");
    for _ in 0..10 {
        assert_eq!(ws.group_columns_collapsed(2), Ok(()));
    }
    assert!(ws.is_column_collapsed(2));
}

#[test]
fn gridline_flags_are_independent() {
    let mut ws = new_sheet("Data");
    assert_eq!(ws.set_screen_gridlines(false), Ok(()));
    assert!(!ws.screen_gridlines());
    assert!(!ws.print_gridlines());
    assert_eq!(ws.set_print_gridlines(true), Ok(()));
    assert!(!ws.screen_gridlines());
    assert!(ws.print_gridlines());
    assert_eq!(ws.set_screen_gridlines(true), Ok(()));
    assert!(ws.screen_gridlines());
    assert!(ws.print_gridlines());
    assert_eq!(ws.set_print_gridlines(false), Ok(()));
    assert!(ws.screen_gridlines());
    assert!(!ws.print_gridlines());
}

#[test]
fn format_is_copied_into_the_cell() {
    let mut ws = new_sheet("Data");
    let format = bold_format();
    ws.write_blank(0, 0, Some(&format)).unwrap();
    let changed = format.set_bold(false).set_indent(3);
    ws.write_blank(0, 1, Some(&changed)).unwrap();
    assert_eq!(
        ws.cell(0, 0),
        Some(&CellContent::Blank {
            format: bold_format()
        })
    );
    assert_eq!(
        ws.cell(0, 1),
        Some(&CellContent::Blank {
            format: RustFormat::new().set_indent(3)
        })
    );
}

#[test]
fn one_format_serves_many_cells() {
    let mut ws = new_sheet("Data");
    let mut options = FormatOptions::new();
    options.bold = Some(true);
    let format = RustWorkbook::new().add_format(&options).unwrap();
    ws.write_string_with_format(0, 0, "a".to_string(), &format).unwrap();
    ws.write_string_with_format(0, 1, "b".to_string(), &format).unwrap();
    ws.write_string(0, 0, "plain".to_string()).unwrap();
    assert_eq!(ws.cell(0, 0), Some(&plain_text("plain")));
    assert_eq!(
        ws.cell(0, 1),
        Some(&CellContent::Text {
            text: "b".to_string(),
            format: Some(bold_format()),
        })
    );
}

#[test]
fn take_moves_the_content_and_leaves_a_shell() {
    let mut ws = new_sheet("Data");
    ws.write_string(0, 0, "moved".to_string()).unwrap();
    ws.set_column_hidden(1).unwrap();
    let taken = ws.take();
    assert_eq!(taken.get_name(), "Data");
    assert!(!taken.is_consumed());
    assert_eq!(taken.cell(0, 0), Some(&plain_text("moved")));
    assert!(taken.is_column_hidden(1));
    assert_eq!(ws.get_name(), "Data");
    assert!(ws.is_consumed());
    assert_eq!(ws.cell(0, 0), None);
    assert!(!ws.is_column_hidden(1));
}

#[test]
fn consumed_sheet_refuses_every_operation() {
    let mut ws = new_sheet("Data");
    let mut taken = ws.take();
    let format = bold_format();
    assert_eq!(ws.write_blank(0, 0, None), Err(SheetError::Consumed));
    assert_eq!(
        ws.write_string(0, 0, "x".to_string()),
        Err(SheetError::Consumed)
    );
    assert_eq!(
        ws.write_string_with_format(0, 0, "x".to_string(), &format),
        Err(SheetError::Consumed)
    );
    assert_eq!(
        ws.write_formula(0, 0, "=1".to_string()),
        Err(SheetError::Consumed)
    );
    assert_eq!(
        ws.write_formula_with_format(0, 0, "=1".to_string(), &format),
        Err(SheetError::Consumed)
    );
    assert_eq!(
        ws.merge_range(0, 0, 1, 1, "x".to_string(), &format),
        Err(SheetError::Consumed)
    );
    assert_eq!(ws.set_column_width(0, 10), Err(SheetError::Consumed));
    assert_eq!(ws.set_row_height(0, 10), Err(SheetError::Consumed));
    assert_eq!(ws.set_default_row_height(10), Err(SheetError::Consumed));
    assert_eq!(ws.set_screen_gridlines(false), Err(SheetError::Consumed));
    assert_eq!(ws.set_print_gridlines(true), Err(SheetError::Consumed));
    assert_eq!(ws.set_column_hidden(0), Err(SheetError::Consumed));
    assert_eq!(ws.group_columns_collapsed(0), Err(SheetError::Consumed));
    assert_eq!(
        ws.write_string(2_000_000, 0, "x".to_string()),
        Err(SheetError::Consumed)
    );
    assert_eq!(taken.write_string(0, 0, "x".to_string()), Ok(()));
    assert_eq!(taken.cell(0, 0), Some(&plain_text("x")));
    assert_eq!(ws.cell(0, 0), None);
}

#[test]
fn taking_a_shell_gives_a_shell() {
    let mut ws = new_sheet("Data");
    let _first = ws.take();
    let second = ws.take();
    assert!(second.is_consumed());
    assert!(ws.is_consumed());
}
