use xlsx_rust::{
    border_style_from_index, color_from_string, create_format, format_align_from_string,
    Alignment, BorderStyle,
    FormatError, FormatOptions, HorizontalAlign, RustFormat, RustWorkbook, VerticalAlign,
};

#[test]
fn border_index_maps_to_style() {
    assert_eq!(border_style_from_index(0), Ok(BorderStyle::NoBorder));
    assert_eq!(border_style_from_index(1), Ok(BorderStyle::Thin));
    assert_eq!(border_style_from_index(2), Ok(BorderStyle::Medium));
    assert_eq!(border_style_from_index(7), Ok(BorderStyle::Hair));
}

#[test]
fn border_index_out_of_range_is_refused() {
    for index in [3u32, 4, 5, 6, 8, 13, 255, u32::MAX] {
        assert_eq!(
            border_style_from_index(index),
            Err(FormatError::UnknownBorderStyle)
        );
    }
}

#[test]
fn alignment_tokens_are_read() {
    assert_eq!(format_align_from_string("left"), Ok(Alignment::Left));
    assert_eq!(format_align_from_string("center"), Ok(Alignment::Center));
    assert_eq!(
        format_align_from_string("vcenter"),
        Ok(Alignment::VerticalCenter)
    );
}

#[test]
fn unknown_alignment_token_is_refused() {
    for token in ["", "right", "Left", "LEFT", "left ", "centre", "vcentre", "centerx"] {
        assert_eq!(
            format_align_from_string(token),
            Err(FormatError::UnknownAlignment)
        );
    }
}

#[test]
fn new_format_has_defaults() {
    let format = RustFormat::new();
    assert!(!format.is_bold());
    assert_eq!(format.font_name(), None);
    assert_eq!(format.font_size(), None);
    assert_eq!(format.font_color(), None);
    assert_eq!(format.horizontal_align(), HorizontalAlign::Default);
    assert_eq!(format.vertical_align(), VerticalAlign::Default);
    assert_eq!(format.border_left(), BorderStyle::NoBorder);
    assert_eq!(format.border_right(), BorderStyle::NoBorder);
    assert_eq!(format.border_top(), BorderStyle::NoBorder);
    assert_eq!(format.border_bottom(), BorderStyle::NoBorder);
    assert_eq!(format.indent(), 0);
    assert_eq!(format.background_color(), None);
}

#[test]
fn empty_options_give_the_default_format() {
    let format = create_format(&FormatOptions::new()).unwrap();
    assert_eq!(format, RustFormat::new());
}

#[test]
fn every_option_sets_its_attribute() {
    let options = FormatOptions {
        bold: Some(true),
        font_name: Some("Arial".to_string()),
        font_size: Some(14),
        font_color: Some("#FF0000".to_string()),
        align: Some("center".to_string()),
        valign: Some("vcenter".to_string()),
        left: Some(1),
        right: Some(2),
        top: Some(7),
        bottom: Some(0),
        indent: Some(3),
        bg_color: Some("#00FF00".to_string()),
        text_wrap: None,
        num_format: None,
    };
    let format = create_format(&options).unwrap();
    assert!(format.is_bold());
    assert_eq!(format.font_name(), Some("Arial".to_string()));
    assert_eq!(format.font_size(), Some(14));
    assert_eq!(format.font_color(), Some(0xFF0000));
    assert_eq!(format.horizontal_align(), HorizontalAlign::Center);
    assert_eq!(format.vertical_align(), VerticalAlign::Center);
    assert_eq!(format.border_left(), BorderStyle::Thin);
    assert_eq!(format.border_right(), BorderStyle::Medium);
    assert_eq!(format.border_top(), BorderStyle::Hair);
    assert_eq!(format.border_bottom(), BorderStyle::NoBorder);
    assert_eq!(format.indent(), 3);
    assert_eq!(format.background_color(), Some(0x00FF00));
}

#[test]
fn only_supplied_options_change_the_format() {
    let mut options = FormatOptions::new();
    options.top = Some(2);
    let format = create_format(&options).unwrap();
    assert_eq!(format, RustFormat::new().set_border_top(BorderStyle::Medium));
    assert!(!format.is_bold());
    assert_eq!(format.border_bottom(), BorderStyle::NoBorder);
}

#[test]
fn bold_false_leaves_bold_off() {
    let mut options = FormatOptions::new();
    options.bold = Some(false);
    assert_eq!(create_format(&options).unwrap(), RustFormat::new());
}

#[test]
fn align_token_decides_the_axis() {
    let mut options = FormatOptions::new();
    options.align = Some("vcenter".to_string());
    let format = create_format(&options).unwrap();
    assert_eq!(format.horizontal_align(), HorizontalAlign::Default);
    assert_eq!(format.vertical_align(), VerticalAlign::Center);

    let mut options = FormatOptions::new();
    options.valign = Some("left".to_string());
    let format = create_format(&options).unwrap();
    assert_eq!(format.horizontal_align(), HorizontalAlign::Left);
    assert_eq!(format.vertical_align(), VerticalAlign::Default);
}

#[test]
fn valign_is_applied_after_align() {
    let mut options = FormatOptions::new();
    options.align = Some("left".to_string());
    options.valign = Some("center".to_string());
    let format = create_format(&options).unwrap();
    assert_eq!(format.horizontal_align(), HorizontalAlign::Center);
}

#[test]
fn bad_align_token_fails_at_once() {
    let mut options = FormatOptions::new();
    options.align = Some("middle".to_string());
    assert_eq!(create_format(&options), Err(FormatError::UnknownAlignment));
    let mut options = FormatOptions::new();
    options.valign = Some("top".to_string());
    assert_eq!(create_format(&options), Err(FormatError::UnknownAlignment));
}

#[test]
fn bad_border_index_fails_at_once() {
    for side in 0..4 {
        let mut options = FormatOptions::new();
        match side {
            0 => options.left = Some(3),
            1 => options.right = Some(8),
            2 => options.top = Some(6),
            _ => options.bottom = Some(100),
        }
        assert_eq!(
            create_format(&options),
            Err(FormatError::UnknownBorderStyle)
        );
    }
}

#[test]
fn zero_font_size_is_refused() {
    let mut options = FormatOptions::new();
    options.font_size = Some(0);
    assert_eq!(create_format(&options), Err(FormatError::ZeroFontSize));
    assert_eq!(
        RustFormat::new().set_font_size(0),
        Err(FormatError::ZeroFontSize)
    );
    assert_eq!(
        RustFormat::new().set_font_size(1).unwrap().font_size(),
        Some(1)
    );
}

#[test]
fn indent_above_255_is_refused() {
    let mut options = FormatOptions::new();
    options.indent = Some(256);
    assert_eq!(create_format(&options), Err(FormatError::IndentTooLarge));
    options.indent = Some(255);
    assert_eq!(create_format(&options).unwrap().indent(), 255);
}

#[test]
fn first_bad_setting_decides_the_error() {
    let mut options = FormatOptions::new();
    options.bg_color = Some("no color".to_string());
    assert_eq!(create_format(&options), Err(FormatError::InvalidColor));
    options.indent = Some(1000);
    assert_eq!(create_format(&options), Err(FormatError::IndentTooLarge));
    options.bottom = Some(9);
    assert_eq!(
        create_format(&options),
        Err(FormatError::UnknownBorderStyle)
    );
    options.align = Some("nowhere".to_string());
    assert_eq!(create_format(&options), Err(FormatError::UnknownAlignment));
    options.font_color = Some("red".to_string());
    assert_eq!(create_format(&options), Err(FormatError::InvalidColor));
    options.font_size = Some(0);
    assert_eq!(create_format(&options), Err(FormatError::ZeroFontSize));
}

#[test]
fn colors_are_read_from_text() {
    assert_eq!(color_from_string("#FF0000"), Ok(0xFF0000));
    assert_eq!(color_from_string("ff0000"), Ok(0xFF0000));
    assert_eq!(color_from_string("#6495ED"), Ok(0x6495ED));
    assert_eq!(color_from_string("#6495ed"), Ok(0x6495ED));
    assert_eq!(color_from_string("#000000"), Ok(0));
    assert_eq!(color_from_string("#FFFFFF"), Ok(0xFFFFFF));
    assert_eq!(color_from_string("FFF"), Ok(0xFFF));
    assert_eq!(color_from_string("#0"), Ok(0));
    assert_eq!(color_from_string("+1A"), Ok(0x1A));
    assert_eq!(color_from_string("#+1a"), Ok(0x1A));
    assert_eq!(color_from_string("#0000000000FF"), Ok(0xFF));
    assert_eq!(color_from_string("aBcDeF"), Ok(0xABCDEF));
    assert_eq!(color_from_string("123456"), Ok(0x123456));
    assert_eq!(color_from_string("789"), Ok(0x789));
}

#[test]
fn texts_that_write_no_color_are_refused() {
    for text in [
        "", "#", "+", "#+", "red", "#GG0000", "#1000000", "#FFFFFFFF", "#FFFFFFFFFF", " FF",
        "FF ", "-1", "#-1", "##FF", "+#FF", "++1", "0x10", "#FF\u{00e9}", "\u{00e9}", "F_F",
        "#12345g", "@AB", "`ab", "/12", ":12", "G", "g",
    ] {
        assert_eq!(color_from_string(text), Err(FormatError::InvalidColor));
    }
}

#[test]
fn colors_are_read_as_the_writer_reads_them() {
    for text in [
        "#FF0000", "ff0000", "#6495ED", "FFF", "+1A", "#+1a", "#0000000000FF", "", "#", "+",
        "#+", "red", "#GG0000", "#1000000", "#FFFFFFFF", "#FFFFFFFFFF", " FF", "FF ", "-1",
        "##FF", "+#FF", "++1", "0x10", "#FF\u{00e9}", "F_F", "#FFFFFF", "#000000", "9", "a",
        "A", "f", "F", "0", "@", "G", "`", "g", "/", ":",
    ] {
        let theirs = match rust_xlsxwriter::Color::from(text) {
            rust_xlsxwriter::Color::RGB(rgb) if rgb <= 0xFFFFFF => Some(rgb),
            _ => None,
        };
        assert_eq!(color_from_string(text).ok(), theirs);
    }
}

#[test]
fn color_above_the_limit_is_refused() {
    assert_eq!(
        RustFormat::new().set_font_color(0x1000000),
        Err(FormatError::InvalidColor)
    );
    assert_eq!(
        RustFormat::new().set_background_color(u32::MAX),
        Err(FormatError::InvalidColor)
    );
    assert_eq!(
        RustFormat::new().set_font_color(0xFFFFFF).unwrap().font_color(),
        Some(0xFFFFFF)
    );
    assert_eq!(
        RustFormat::new()
            .set_background_color(0)
            .unwrap()
            .background_color(),
        Some(0)
    );
}

#[test]
fn bad_color_fails_at_once() {
    let mut options = FormatOptions::new();
    options.font_color = Some("red".to_string());
    assert_eq!(create_format(&options), Err(FormatError::InvalidColor));
    let mut options = FormatOptions::new();
    options.bg_color = Some("#1234567".to_string());
    assert_eq!(create_format(&options), Err(FormatError::InvalidColor));
}

#[test]
fn setters_commute_top_then_bottom() {
    let a = RustFormat::new()
        .set_border_top(BorderStyle::Thin)
        .set_border_bottom(BorderStyle::Hair);
    let b = RustFormat::new()
        .set_border_bottom(BorderStyle::Hair)
        .set_border_top(BorderStyle::Thin);
    assert_eq!(a, b);
    assert_eq!(a.border_top(), BorderStyle::Thin);
    assert_eq!(a.border_bottom(), BorderStyle::Hair);
}

#[test]
fn options_apply_in_any_grouping() {
    let bold_top = FormatOptions {
        bold: Some(true),
        top: Some(1),
        ..FormatOptions::new()
    };
    let bottom = FormatOptions {
        bottom: Some(2),
        ..FormatOptions::new()
    };
    let top = FormatOptions {
        top: Some(1),
        ..FormatOptions::new()
    };
    let bold_bottom = FormatOptions {
        bold: Some(true),
        bottom: Some(2),
        ..FormatOptions::new()
    };
    let all = FormatOptions {
        bold: Some(true),
        top: Some(1),
        bottom: Some(2),
        ..FormatOptions::new()
    };
    let first = RustFormat::new().apply(&bold_top).unwrap().apply(&bottom).unwrap();
    let second = RustFormat::new().apply(&top).unwrap().apply(&bold_bottom).unwrap();
    let third = RustFormat::new().apply(&bottom).unwrap().apply(&bold_top).unwrap();
    let at_once = create_format(&all).unwrap();
    assert_eq!(first, second);
    assert_eq!(first, third);
    assert_eq!(first, at_once);
    assert!(first.is_bold());
    assert_eq!(first.border_top(), BorderStyle::Thin);
    assert_eq!(first.border_bottom(), BorderStyle::Medium);
}

#[test]
fn later_setting_of_the_same_attribute_wins() {
    let thin = FormatOptions {
        top: Some(1),
        ..FormatOptions::new()
    };
    let medium = FormatOptions {
        top: Some(2),
        ..FormatOptions::new()
    };
    let a = RustFormat::new().apply(&thin).unwrap().apply(&medium).unwrap();
    let b = RustFormat::new().apply(&medium).unwrap().apply(&thin).unwrap();
    assert_eq!(a.border_top(), BorderStyle::Medium);
    assert_eq!(b.border_top(), BorderStyle::Thin);
}

#[test]
fn apply_keeps_what_is_not_supplied() {
    let base = RustFormat::new()
        .set_bold(true)
        .set_font_name("Courier".to_string())
        .set_indent(4);
    let options = FormatOptions {
        left: Some(7),
        ..FormatOptions::new()
    };
    let format = base.apply(&options).unwrap();
    assert!(format.is_bold());
    assert_eq!(format.font_name(), Some("Courier".to_string()));
    assert_eq!(format.indent(), 4);
    assert_eq!(format.border_left(), BorderStyle::Hair);
}

#[test]
fn creating_a_format_leaves_earlier_formats() {
    let workbook = RustWorkbook::new();
    let plain = workbook.add_format(&FormatOptions::new()).unwrap();
    let copy = plain.clone();
    let mut options = FormatOptions::new();
    options.bold = Some(true);
    let bold = workbook.add_format(&options).unwrap();
    assert!(bold.is_bold());
    assert_eq!(plain, copy);
    assert!(!plain.is_bold());
}

#[test]
fn each_setter_sets_its_attribute() {
    let format = RustFormat::new()
        .set_bold(true)
        .set_font_name("Arial".to_string())
        .set_font_color(0x112233)
        .unwrap()
        .set_align(Alignment::Left)
        .set_align(Alignment::VerticalCenter)
        .set_border_left(BorderStyle::Thin)
        .set_border_right(BorderStyle::Medium)
        .set_border_top(BorderStyle::Hair)
        .set_border_bottom(BorderStyle::Thin)
        .set_indent(2)
        .set_background_color(0x445566)
        .unwrap();
    assert!(format.is_bold());
    assert_eq!(format.font_name(), Some("Arial".to_string()));
    assert_eq!(format.font_color(), Some(0x112233));
    assert_eq!(format.horizontal_align(), HorizontalAlign::Left);
    assert_eq!(format.vertical_align(), VerticalAlign::Center);
    assert_eq!(format.border_left(), BorderStyle::Thin);
    assert_eq!(format.border_right(), BorderStyle::Medium);
    assert_eq!(format.border_top(), BorderStyle::Hair);
    assert_eq!(format.border_bottom(), BorderStyle::Thin);
    assert_eq!(format.indent(), 2);
    assert_eq!(format.background_color(), Some(0x445566));
    assert!(!format.set_bold(false).is_bold());
}

#[test]
fn text_wrap_is_refused() {
    let options = FormatOptions {
        text_wrap: Some(true),
        ..FormatOptions::new()
    };
    assert_eq!(create_format(&options), Err(FormatError::UnsupportedTextWrap));
    let off = FormatOptions {
        text_wrap: Some(false),
        font_size: Some(0),
        ..FormatOptions::new()
    };
    assert_eq!(create_format(&off), Err(FormatError::UnsupportedTextWrap));
}

#[test]
fn num_format_is_refused() {
    let options = FormatOptions {
        num_format: Some("0.00".to_string()),
        ..FormatOptions::new()
    };
    assert_eq!(
        create_format(&options),
        Err(FormatError::UnsupportedNumberFormat)
    );
    assert_eq!(
        RustFormat::new().apply(&options),
        Err(FormatError::UnsupportedNumberFormat)
    );
    let both = FormatOptions {
        text_wrap: Some(true),
        num_format: Some("0.00".to_string()),
        ..FormatOptions::new()
    };
    assert_eq!(create_format(&both), Err(FormatError::UnsupportedTextWrap));
}

#[test]
fn two_groups_that_agree_apply_in_any_order() {
    let by_align = FormatOptions {
        align: Some("left".to_string()),
        top: Some(1),
        font_color: Some("#FF0000".to_string()),
        ..FormatOptions::new()
    };
    let by_valign = FormatOptions {
        valign: Some("left".to_string()),
        top: Some(1),
        font_color: Some("ff0000".to_string()),
        ..FormatOptions::new()
    };
    let a = RustFormat::new().apply(&by_align).unwrap().apply(&by_valign).unwrap();
    let b = RustFormat::new().apply(&by_valign).unwrap().apply(&by_align).unwrap();
    assert_eq!(a, b);
    assert_eq!(a.horizontal_align(), HorizontalAlign::Left);
    assert_eq!(a.border_top(), BorderStyle::Thin);
    assert_eq!(a.font_color(), Some(0xFF0000));
}

#[test]
fn two_groups_at_odds_over_one_axis_depend_on_order() {
    let left = FormatOptions {
        align: Some("left".to_string()),
        ..FormatOptions::new()
    };
    let center = FormatOptions {
        valign: Some("center".to_string()),
        ..FormatOptions::new()
    };
    let a = RustFormat::new().apply(&left).unwrap().apply(&center).unwrap();
    let b = RustFormat::new().apply(&center).unwrap().apply(&left).unwrap();
    assert_eq!(a.horizontal_align(), HorizontalAlign::Center);
    assert_eq!(b.horizontal_align(), HorizontalAlign::Left);
}

#[test]
fn vertical_placement_does_not_depend_on_order() {
    let first = FormatOptions {
        align: Some("vcenter".to_string()),
        ..FormatOptions::new()
    };
    let second = FormatOptions {
        valign: Some("vcenter".to_string()),
        bold: Some(true),
        ..FormatOptions::new()
    };
    let a = RustFormat::new().apply(&first).unwrap().apply(&second).unwrap();
    let b = RustFormat::new().apply(&second).unwrap().apply(&first).unwrap();
    assert_eq!(a, b);
    assert_eq!(a.vertical_align(), VerticalAlign::Center);
}
