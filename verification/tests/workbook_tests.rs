use std::io::Read;
use xlsx_rust::{
    check_sheet_name, encoded, CloseError, FormatOptions, NameError, RustFormat, RustWorkbook,
    WorkbookError,
};

fn part(bytes: &[u8], name: &str) -> String {
    let mut archive = zip::ZipArchive::new(std::io::Cursor::new(bytes.to_vec())).unwrap();
    let mut file = archive.by_name(name).unwrap();
    let mut out = String::new();
    file.read_to_string(&mut out).unwrap();
    out
}

fn has_part(bytes: &[u8], name: &str) -> bool {
    let mut archive = zip::ZipArchive::new(std::io::Cursor::new(bytes.to_vec())).unwrap();
    let found = archive.by_name(name).is_ok();
    found
}

#[test]
fn round_trip_data_sheet() {
    let mut workbook = RustWorkbook::new();
    let mut sheet = workbook.add_worksheet("Data".to_string()).unwrap();
    let mut options = FormatOptions::new();
    options.bold = Some(true);
    let bold = workbook.add_format(&options).unwrap();
    sheet.write_string(0, 0, "Hello".to_string()).unwrap();
    sheet
        .write_string_with_format(0, 1, "Bold".to_string(), &bold)
        .unwrap();
    let bytes = workbook.close(vec![sheet]).unwrap();
    assert!(!bytes.is_empty());
    assert_eq!(&bytes[0..4], b"PK\x03\x04");
    assert!(part(&bytes, "xl/workbook.xml").contains("<sheet name=\"Data\" sheetId=\"1\""));
    let strings = part(&bytes, "xl/sharedStrings.xml");
    assert!(strings.contains("<t>Hello</t>"));
    assert!(strings.contains("<t>Bold</t>"));
    let cells = part(&bytes, "xl/worksheets/sheet1.xml");
    assert!(cells.contains("<c r=\"A1\" t=\"s\"><v>0</v></c>"));
    assert!(cells.contains("<c r=\"B1\" s=\"1\" t=\"s\"><v>1</v></c>"));
    assert!(part(&bytes, "xl/styles.xml").contains("<b/>"));
}

#[test]
fn add_worksheet_gives_the_name() {
    let mut workbook = RustWorkbook::new();
    assert_eq!(workbook.worksheet_count(), 0);
    assert!(!workbook.has_worksheet("Data"));
    let sheet = workbook.add_worksheet("Data".to_string()).unwrap();
    assert_eq!(sheet.get_name(), "Data");
    assert!(workbook.has_worksheet("Data"));
    assert!(!workbook.has_worksheet("data"));
    assert_eq!(workbook.worksheet_count(), 1);
}

#[test]
fn same_name_twice_is_refused() {
    let mut workbook = RustWorkbook::new();
    workbook.add_worksheet("Data".to_string()).unwrap();
    assert_eq!(
        workbook.add_worksheet("Data".to_string()).err(),
        Some(WorkbookError::DuplicateName)
    );
    assert_eq!(workbook.worksheet_count(), 1);
    assert!(workbook.add_worksheet("Other".to_string()).is_ok());
    assert_eq!(
        workbook.worksheet_names(),
        vec!["Data".to_string(), "Other".to_string()]
    );
    assert_eq!(
        workbook.add_worksheet("Other".to_string()).err(),
        Some(WorkbookError::DuplicateName)
    );
    assert_eq!(workbook.worksheet_count(), 2);
}

#[test]
fn blank_name_is_refused() {
    let mut workbook = RustWorkbook::new();
    assert_eq!(
        workbook.add_worksheet(String::new()).err(),
        Some(WorkbookError::InvalidName(NameError::Blank))
    );
    assert_eq!(check_sheet_name(""), Err(NameError::Blank));
    assert_eq!(workbook.worksheet_count(), 0);
}

#[test]
fn name_length_limit() {
    let mut workbook = RustWorkbook::new();
    let longest = "n".repeat(31);
    let too_long = "n".repeat(32);
    assert_eq!(check_sheet_name(&longest), Ok(()));
    assert_eq!(check_sheet_name(&too_long), Err(NameError::TooLong));
    assert_eq!(check_sheet_name(&"\u{00e9}".repeat(31)), Ok(()));
    assert!(workbook.add_worksheet(longest).is_ok());
    assert_eq!(
        workbook.add_worksheet(too_long).err(),
        Some(WorkbookError::InvalidName(NameError::TooLong))
    );
}

#[test]
fn name_with_forbidden_character_is_refused() {
    for name in ["a*b", "a?b", "a:b", "a[b", "a]b", "a\\b", "a/b", "*", "end/"] {
        assert_eq!(check_sheet_name(name), Err(NameError::InvalidCharacter));
        assert_eq!(
            RustWorkbook::new().add_worksheet(name.to_string()).err(),
            Some(WorkbookError::InvalidName(NameError::InvalidCharacter))
        );
    }
    assert_eq!(check_sheet_name("a b-c_d.e(f)"), Ok(()));
}

#[test]
fn name_with_apostrophe_at_an_end_is_refused() {
    assert_eq!(check_sheet_name("'start"), Err(NameError::Apostrophe));
    assert_eq!(check_sheet_name("end'"), Err(NameError::Apostrophe));
    assert_eq!(check_sheet_name("'"), Err(NameError::Apostrophe));
    assert_eq!(check_sheet_name("mid'dle"), Ok(()));
    assert_eq!(
        RustWorkbook::new().add_worksheet("'x".to_string()).err(),
        Some(WorkbookError::InvalidName(NameError::Apostrophe))
    );
}

#[test]
fn name_rules_are_checked_in_order() {
    assert_eq!(check_sheet_name(&"*".repeat(32)), Err(NameError::TooLong));
    assert_eq!(check_sheet_name("'a*"), Err(NameError::InvalidCharacter));
}

#[test]
fn finalize_keeps_the_given_order() {
    let mut workbook = RustWorkbook::new();
    let a = workbook.add_worksheet("A".to_string()).unwrap();
    let b = workbook.add_worksheet("B".to_string()).unwrap();
    let c = workbook.add_worksheet("C".to_string()).unwrap();
    let document = workbook.finalize(vec![c, a, b]).unwrap();
    assert_eq!(document.sheet_count(), 3);
    assert_eq!(
        document.sheet_names(),
        vec!["C".to_string(), "A".to_string(), "B".to_string()]
    );
    assert_eq!(document.sheet(0).unwrap().get_name(), "C");
    assert_eq!(document.sheet(2).unwrap().get_name(), "B");
    assert!(document.sheet(3).is_none());
}

#[test]
fn close_keeps_the_given_order() {
    let mut workbook = RustWorkbook::new();
    let mut first = workbook.add_worksheet("First".to_string()).unwrap();
    let mut second = workbook.add_worksheet("Second".to_string()).unwrap();
    first.write_string(0, 0, "one".to_string()).unwrap();
    second.write_string(0, 0, "two".to_string()).unwrap();
    let bytes = workbook.close(vec![second, first]).unwrap();
    let book = part(&bytes, "xl/workbook.xml");
    assert!(book.contains(
        "<sheet name=\"Second\" sheetId=\"1\" r:id=\"rId1\"/><sheet name=\"First\" sheetId=\"2\" r:id=\"rId2\"/>"
    ));
    let strings = part(&bytes, "xl/sharedStrings.xml");
    assert!(strings.find("<t>two</t>").unwrap() < strings.find("<t>one</t>").unwrap());
}

#[test]
fn close_in_creation_order() {
    let mut workbook = RustWorkbook::new();
    let first = workbook.add_worksheet("First".to_string()).unwrap();
    let second = workbook.add_worksheet("Second".to_string()).unwrap();
    let bytes = workbook.close(vec![first, second]).unwrap();
    let book = part(&bytes, "xl/workbook.xml");
    assert!(book.contains(
        "<sheet name=\"First\" sheetId=\"1\" r:id=\"rId1\"/><sheet name=\"Second\" sheetId=\"2\" r:id=\"rId2\"/>"
    ));
}

#[test]
fn close_over_some_of_the_sheets() {
    let mut workbook = RustWorkbook::new();
    let _left_out = workbook.add_worksheet("A".to_string()).unwrap();
    let b = workbook.add_worksheet("B".to_string()).unwrap();
    let bytes = workbook.close(vec![b]).unwrap();
    let book = part(&bytes, "xl/workbook.xml");
    assert!(book.contains("<sheet name=\"B\" sheetId=\"1\""));
    assert!(!book.contains("name=\"A\""));
    assert!(!has_part(&bytes, "xl/worksheets/sheet2.xml"));
}

#[test]
fn close_over_no_sheet() {
    let workbook = RustWorkbook::new();
    let document = RustWorkbook::new().finalize(vec![]).unwrap();
    assert_eq!(document.sheet_count(), 0);
    let bytes = workbook.close(vec![]).unwrap();
    assert_eq!(&bytes[0..2], b"PK");
    assert!(part(&bytes, "xl/workbook.xml").contains("<sheet name=\"Sheet1\" sheetId=\"1\""));
}

#[test]
fn encoded_hands_the_answer_on() {
    assert_eq!(encoded(Ok(vec![1, 2, 3])), Ok(vec![1, 2, 3]));
    assert_eq!(encoded(Ok(vec![])), Ok(vec![]));
    assert_eq!(
        encoded(Err("disk full".to_string())),
        Err(CloseError::Writer("disk full".to_string()))
    );
}

#[test]
fn merge_then_close_succeeds() {
    let mut workbook = RustWorkbook::new();
    let mut sheet = workbook.add_worksheet("Data".to_string()).unwrap();
    let format = workbook.add_format(&FormatOptions::new()).unwrap();
    sheet.merge_range(0, 0, 1, 1, "X".to_string(), &format).unwrap();
    let bytes = workbook.close(vec![sheet]).unwrap();
    let cells = part(&bytes, "xl/worksheets/sheet1.xml");
    assert!(cells.contains("<mergeCells count=\"1\"><mergeCell ref=\"A1:B2\"/></mergeCells>"));
    assert!(part(&bytes, "xl/sharedStrings.xml").contains("<t>X</t>"));
}

#[test]
fn several_merges_then_close_succeeds() {
    let mut workbook = RustWorkbook::new();
    let mut sheet = workbook.add_worksheet("Data".to_string()).unwrap();
    let format = RustFormat::new().set_bold(true);
    sheet.merge_range(0, 0, 1, 1, "X".to_string(), &format).unwrap();
    assert!(sheet.merge_range(1, 1, 2, 2, "Y".to_string(), &format).is_err());
    sheet.merge_range(2, 0, 2, 5, "Z".to_string(), &format).unwrap();
    let bytes = workbook.close(vec![sheet]).unwrap();
    let cells = part(&bytes, "xl/worksheets/sheet1.xml");
    assert!(cells.contains(
        "<mergeCells count=\"2\"><mergeCell ref=\"A1:B2\"/><mergeCell ref=\"A3:F3\"/></mergeCells>"
    ));
}

#[test]
fn last_write_wins_in_the_file() {
    let mut workbook = RustWorkbook::new();
    let mut sheet = workbook.add_worksheet("Data".to_string()).unwrap();
    sheet.write_blank(0, 0, None).unwrap();
    sheet.write_string(0, 0, "later".to_string()).unwrap();
    sheet.write_string(1, 0, "earlier".to_string()).unwrap();
    sheet.write_formula(1, 0, "=1+1".to_string()).unwrap();
    let bytes = workbook.close(vec![sheet]).unwrap();
    let cells = part(&bytes, "xl/worksheets/sheet1.xml");
    assert!(cells.contains("<c r=\"A1\" t=\"s\"><v>0</v></c>"));
    assert!(cells.contains("<c r=\"A2\"><f>1+1</f><v>0</v></c>"));
    assert_eq!(cells.matches("r=\"A1\"").count(), 1);
    assert_eq!(cells.matches("r=\"A2\"").count(), 1);
}

#[test]
fn empty_text_replaces_what_was_written() {
    let mut workbook = RustWorkbook::new();
    let mut sheet = workbook.add_worksheet("Data".to_string()).unwrap();
    sheet.write_string(0, 0, "gone".to_string()).unwrap();
    sheet.write_string(0, 0, String::new()).unwrap();
    sheet.write_string(0, 1, "stays".to_string()).unwrap();
    let bytes = workbook.close(vec![sheet]).unwrap();
    let cells = part(&bytes, "xl/worksheets/sheet1.xml");
    assert!(!cells.contains("<c r=\"A1\" t=\"s\">"));
    assert!(cells.contains("<c r=\"B1\" t=\"s\">"));
}

#[test]
fn formula_reaches_the_file() {
    let mut workbook = RustWorkbook::new();
    let mut sheet = workbook.add_worksheet("Data".to_string()).unwrap();
    let format = RustFormat::new().set_bold(true);
    sheet.write_formula(0, 0, "=SUM(B1:B3)".to_string()).unwrap();
    sheet
        .write_formula_with_format(1, 0, "A1*2".to_string(), &format)
        .unwrap();
    let bytes = workbook.close(vec![sheet]).unwrap();
    let cells = part(&bytes, "xl/worksheets/sheet1.xml");
    assert!(cells.contains("<c r=\"A1\"><f>SUM(B1:B3)</f><v>0</v></c>"));
    assert!(cells.contains("<c r=\"A2\" s=\"1\"><f>A1*2</f><v>0</v></c>"));
}

#[test]
fn blank_cells_reach_the_file() {
    let mut workbook = RustWorkbook::new();
    let mut sheet = workbook.add_worksheet("Data".to_string()).unwrap();
    let format = RustFormat::new().set_border_top(xlsx_rust::BorderStyle::Thin);
    sheet.write_blank(0, 0, Some(&format)).unwrap();
    sheet.write_blank(0, 1, None).unwrap();
    let bytes = workbook.close(vec![sheet]).unwrap();
    let cells = part(&bytes, "xl/worksheets/sheet1.xml");
    assert!(cells.contains("<c r=\"A1\" s=\"1\"/>"));
    assert!(part(&bytes, "xl/styles.xml").contains("<top style=\"thin\">"));
}

#[test]
fn sizes_and_visibility_reach_the_file() {
    let mut workbook = RustWorkbook::new();
    let mut sheet = workbook.add_worksheet("Data".to_string()).unwrap();
    sheet.write_string(0, 3, "kept".to_string()).unwrap();
    sheet.set_column_width(1, 20).unwrap();
    sheet.set_row_height(2, 40).unwrap();
    sheet.set_default_row_height(24).unwrap();
    sheet.set_column_hidden(3).unwrap();
    sheet.group_columns_collapsed(5).unwrap();
    sheet.set_screen_gridlines(false).unwrap();
    sheet.set_print_gridlines(true).unwrap();
    let bytes = workbook.close(vec![sheet]).unwrap();
    let cells = part(&bytes, "xl/worksheets/sheet1.xml");
    assert!(cells.contains("<col min=\"2\" max=\"2\" width=\"20.7109375\" customWidth=\"1\"/>"));
    assert!(cells.contains("<col min=\"4\" max=\"4\" width=\"0\" hidden=\"1\" customWidth=\"1\"/>"));
    assert!(cells.contains(
        "<col min=\"6\" max=\"6\" width=\"0\" hidden=\"1\" customWidth=\"1\" outlineLevel=\"1\"/>"
    ));
    assert!(cells.contains("<col min=\"7\" max=\"7\" width=\"9.140625\" collapsed=\"1\"/>"));
    assert!(cells.contains("<row r=\"3\" spans=\"4:4\" ht=\"30\" customHeight=\"1\"/>"));
    assert!(cells.contains("defaultRowHeight=\"18\""));
    assert!(cells.contains("showGridLines=\"0\""));
    assert!(cells.contains("<printOptions gridLines=\"1\"/>"));
    assert!(cells.contains("<c r=\"D1\" t=\"s\"><v>0</v></c>"));
    assert!(part(&bytes, "xl/sharedStrings.xml").contains("<t>kept</t>"));
}

#[test]
fn row_height_reaches_the_file_to_the_pixel() {
    let mut workbook = RustWorkbook::new();
    let mut sheet = workbook.add_worksheet("Data".to_string()).unwrap();
    sheet.set_row_height(0, 30).unwrap();
    sheet.set_row_height(1, 21).unwrap();
    let bytes = workbook.close(vec![sheet]).unwrap();
    let cells = part(&bytes, "xl/worksheets/sheet1.xml");
    assert!(cells.contains("<row r=\"1\" ht=\"22.5\" customHeight=\"1\"/>"));
    assert!(cells.contains("<row r=\"2\" ht=\"15.75\" customHeight=\"1\"/>"));
}

#[test]
fn format_attributes_reach_the_file() {
    let mut workbook = RustWorkbook::new();
    let mut sheet = workbook.add_worksheet("Data".to_string()).unwrap();
    let options = FormatOptions {
        bold: Some(true),
        font_name: Some("Courier New".to_string()),
        font_size: Some(14),
        font_color: Some("#FF0000".to_string()),
        align: Some("center".to_string()),
        valign: Some("vcenter".to_string()),
        left: Some(1),
        right: Some(2),
        top: Some(7),
        bottom: Some(1),
        indent: None,
        bg_color: Some("#00FF00".to_string()),
        text_wrap: None,
        num_format: None,
    };
    let format = workbook.add_format(&options).unwrap();
    sheet
        .write_string_with_format(0, 0, "styled".to_string(), &format)
        .unwrap();
    let bytes = workbook.close(vec![sheet]).unwrap();
    let styles = part(&bytes, "xl/styles.xml");
    assert!(styles.contains("<b/>"));
    assert!(styles.contains("<sz val=\"14\"/>"));
    assert!(styles.contains("<color rgb=\"FFFF0000\"/>"));
    assert!(styles.contains("<name val=\"Courier New\"/>"));
    assert!(styles.contains("<fgColor rgb=\"FF00FF00\"/>"));
    assert!(styles.contains("<left style=\"thin\">"));
    assert!(styles.contains("<right style=\"medium\">"));
    assert!(styles.contains("<top style=\"hair\">"));
    assert!(styles.contains("<bottom style=\"thin\">"));
    assert!(styles.contains("<alignment horizontal=\"center\" vertical=\"center\"/>"));
}

#[test]
fn indent_reaches_the_file() {
    let mut workbook = RustWorkbook::new();
    let mut sheet = workbook.add_worksheet("Data".to_string()).unwrap();
    let format = RustFormat::new().set_indent(2);
    sheet
        .write_string_with_format(0, 0, "indented".to_string(), &format)
        .unwrap();
    let bytes = workbook.close(vec![sheet]).unwrap();
    assert!(part(&bytes, "xl/styles.xml").contains("<alignment horizontal=\"left\" indent=\"2\"/>"));
}

#[test]
fn close_refuses_a_consumed_worksheet() {
    let mut workbook = RustWorkbook::new();
    let mut sheet = workbook.add_worksheet("Data".to_string()).unwrap();
    let _taken = sheet.take();
    assert_eq!(
        workbook.close(vec![sheet]),
        Err(CloseError::ConsumedWorksheet)
    );
}

#[test]
fn close_accepts_a_taken_worksheet() {
    let mut workbook = RustWorkbook::new();
    let mut sheet = workbook.add_worksheet("Data".to_string()).unwrap();
    sheet.write_string(0, 0, "moved".to_string()).unwrap();
    let taken = sheet.take();
    let bytes = workbook.close(vec![taken]).unwrap();
    assert!(part(&bytes, "xl/sharedStrings.xml").contains("<t>moved</t>"));
    assert!(sheet.write_string(0, 1, "late".to_string()).is_err());
}

#[test]
fn close_refuses_an_unknown_worksheet() {
    let mut workbook = RustWorkbook::new();
    let mut other = RustWorkbook::new();
    let own = workbook.add_worksheet("Own".to_string()).unwrap();
    let foreign = other.add_worksheet("Foreign".to_string()).unwrap();
    assert_eq!(
        workbook.close(vec![own, foreign]),
        Err(CloseError::UnknownWorksheet)
    );
}

#[test]
fn close_refuses_two_worksheets_of_one_name() {
    let mut workbook = RustWorkbook::new();
    let mut other = RustWorkbook::new();
    let own = workbook.add_worksheet("Data".to_string()).unwrap();
    let twin = other.add_worksheet("Data".to_string()).unwrap();
    assert_eq!(
        workbook.finalize(vec![own, twin]).err(),
        Some(CloseError::DuplicateWorksheet)
    );
}

#[test]
fn first_bad_worksheet_decides_the_close_error() {
    let mut workbook = RustWorkbook::new();
    let mut other = RustWorkbook::new();
    let mut a = workbook.add_worksheet("A".to_string()).unwrap();
    let b = workbook.add_worksheet("B".to_string()).unwrap();
    let foreign = other.add_worksheet("Foreign".to_string()).unwrap();
    let _taken = a.take();
    assert_eq!(
        workbook.close(vec![b, foreign, a]),
        Err(CloseError::UnknownWorksheet)
    );
}

#[test]
fn names_that_differ_in_case_are_refused() {
    let mut workbook = RustWorkbook::new();
    workbook.add_worksheet("Data".to_string()).unwrap();
    assert_eq!(
        workbook.add_worksheet("data".to_string()).err(),
        Some(WorkbookError::DuplicateName)
    );
    assert_eq!(
        workbook.add_worksheet("DATA".to_string()).err(),
        Some(WorkbookError::DuplicateName)
    );
    workbook.add_worksheet("\u{00c4}B".to_string()).unwrap();
    assert_eq!(
        workbook.add_worksheet("\u{00e4}b".to_string()).err(),
        Some(WorkbookError::DuplicateName)
    );
    assert!(workbook.add_worksheet("Data2".to_string()).is_ok());
    assert_eq!(
        workbook.worksheet_names(),
        vec!["Data".to_string(), "\u{00c4}B".to_string(), "Data2".to_string()]
    );
}

#[test]
fn has_key_looks_for_the_lowercase_form() {
    let mut workbook = RustWorkbook::new();
    assert!(!workbook.has_key("data"));
    workbook.add_worksheet("Data".to_string()).unwrap();
    assert!(workbook.has_key("data"));
    assert!(!workbook.has_key("Data"));
    assert!(!workbook.has_key("dat"));
    assert!(workbook.has_worksheet("Data"));
    assert!(!workbook.has_worksheet("data"));
}

#[test]
fn close_refuses_a_foreign_worksheet_that_differs_in_case() {
    let mut workbook = RustWorkbook::new();
    let mut other = RustWorkbook::new();
    let own = workbook.add_worksheet("Sheet".to_string()).unwrap();
    let foreign = other.add_worksheet("SHEET".to_string()).unwrap();
    assert_eq!(
        workbook.finalize(vec![own, foreign]).err(),
        Some(CloseError::UnknownWorksheet)
    );
}

#[test]
fn close_refuses_the_same_name_from_two_workbooks() {
    let mut first = RustWorkbook::new();
    let mut second = RustWorkbook::new();
    let a = first.add_worksheet("Sheet".to_string()).unwrap();
    let b = second.add_worksheet("Sheet".to_string()).unwrap();
    assert_eq!(
        first.close(vec![a, b]),
        Err(CloseError::DuplicateWorksheet)
    );
}

#[test]
fn key_seen_finds_a_lowercase_form() {
    let seen = vec!["data".to_string(), "summary".to_string()];
    assert!(RustWorkbook::key_seen(&seen, "data"));
    assert!(RustWorkbook::key_seen(&seen, "summary"));
    assert!(!RustWorkbook::key_seen(&seen, "Data"));
    assert!(!RustWorkbook::key_seen(&seen, "dat"));
    assert!(!RustWorkbook::key_seen(&Vec::new(), "data"));
}

#[test]
fn width_above_the_limit_reaches_the_file_capped() {
    let mut workbook = RustWorkbook::new();
    let mut sheet = workbook.add_worksheet("Data".to_string()).unwrap();
    sheet.set_column_width(0, 255).unwrap();
    sheet.set_column_width(1, 256).unwrap();
    sheet.set_column_width(2, 4_000_000_000).unwrap();
    assert_eq!(sheet.column_width(2), Some(4_000_000_000));
    let bytes = workbook.close(vec![sheet]).unwrap();
    let cells = part(&bytes, "xl/worksheets/sheet1.xml");
    assert!(cells.contains("<col min=\"1\" max=\"3\" width=\"255.7109375\" customWidth=\"1\"/>"));
}

#[test]
fn zero_default_row_height_leaves_the_file_as_it_was() {
    let mut workbook = RustWorkbook::new();
    let mut plain = workbook.add_worksheet("Plain".to_string()).unwrap();
    plain.set_default_row_height(0).unwrap();
    let mut set = workbook.add_worksheet("Set".to_string()).unwrap();
    set.set_default_row_height(24).unwrap();
    set.set_default_row_height(0).unwrap();
    assert_eq!(set.default_row_height(), Some(0));
    let bytes = workbook.close(vec![plain, set]).unwrap();
    let first = part(&bytes, "xl/worksheets/sheet1.xml");
    let second = part(&bytes, "xl/worksheets/sheet2.xml");
    assert!(first.contains("defaultRowHeight=\"15\""));
    assert!(second.contains("defaultRowHeight=\"18\""));
}

#[test]
fn merge_over_written_cells_then_close_succeeds() {
    let mut workbook = RustWorkbook::new();
    let mut sheet = workbook.add_worksheet("Data".to_string()).unwrap();
    sheet.write_string(0, 0, "old".to_string()).unwrap();
    sheet.write_string(1, 1, "inner".to_string()).unwrap();
    sheet
        .merge_range(0, 0, 1, 1, "X".to_string(), &RustFormat::new())
        .unwrap();
    sheet.write_string(1, 1, "late".to_string()).unwrap();
    sheet.group_columns_collapsed(2).unwrap();
    sheet.group_columns_collapsed(3).unwrap();
    let bytes = workbook.close(vec![sheet]).unwrap();
    let cells = part(&bytes, "xl/worksheets/sheet1.xml");
    assert!(cells.contains("<mergeCell ref=\"A1:B2\"/>"));
    let strings = part(&bytes, "xl/sharedStrings.xml");
    assert!(strings.contains("<t>X</t>"));
    assert!(strings.contains("<t>late</t>"));
    assert!(!strings.contains("<t>old</t>"));
    assert!(!strings.contains("<t>inner</t>"));
}
