use xlsx_rust::cell::copy_opt_format;
use xlsx_rust::text::{copy_opt_text, same_text};
use xlsx_rust::{CellContent, MergeRange, RustFormat};

#[test]
fn same_text_compares_characters() {
    assert!(same_text("", ""));
    assert!(same_text("left", "left"));
    assert!(!same_text("left", "lefT"));
    assert!(!same_text("left", "lef"));
    assert!(!same_text("left", "left "));
    assert!(same_text("na\u{00ef}ve \u{1f600}", "na\u{00ef}ve \u{1f600}"));
    assert!(!same_text("na\u{00ef}ve", "naive"));
    assert!(!same_text("\u{00e9}", "e\u{0301}"));
}

#[test]
fn copies_hold_the_same_text() {
    assert_eq!(copy_opt_text(&None), None);
    assert_eq!(
        copy_opt_text(&Some("Arial".to_string())),
        Some("Arial".to_string())
    );
    assert_eq!(copy_opt_format(&None), None);
    let format = RustFormat::new()
        .set_bold(true)
        .set_font_name("Arial".to_string());
    assert_eq!(
        copy_opt_format(&Some(format.clone())),
        Some(
            RustFormat::new()
                .set_bold(true)
                .set_font_name("Arial".to_string())
        )
    );
}

#[test]
fn clones_are_equal_to_what_they_copy() {
    let format = RustFormat::new()
        .set_font_size(9)
        .unwrap()
        .set_background_color(0xABCDEF)
        .unwrap();
    assert_eq!(format.clone(), format);
    let cell = CellContent::Text {
        text: "t".to_string(),
        format: Some(format.clone()),
    };
    assert_eq!(cell.clone(), cell);
    let formula = CellContent::Formula {
        formula: "=A1".to_string(),
        format: None,
    };
    assert_eq!(formula.clone(), formula);
    let blank = CellContent::Blank {
        format: format.clone(),
    };
    assert_eq!(blank.clone(), blank);
    let range = MergeRange {
        first_row: 1,
        first_col: 2,
        last_row: 3,
        last_col: 4,
        text: "m".to_string(),
        format,
    };
    assert_eq!(range.clone(), range);
}
