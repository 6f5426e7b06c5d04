//! Cell formats: a value type holding style attributes, built attribute by
//! attribute or in one step from a record of optional settings.

use crate::color::{color_from_string, color_of, COLOR_LIMIT};
use crate::text::{copy_opt_text, opt_text, same_text};
use crate::writer::{
    alignment_number, border_number, format_new, format_set_align, format_set_background_color,
    format_set_bold, format_set_border_bottom, format_set_border_left, format_set_border_right,
    format_set_border_top, format_set_font_color, format_set_font_name, format_set_font_size,
    format_set_indent, fresh_font, fresh_numbers, writer_format_font, writer_format_numbers,
};
use vstd::prelude::*;

verus! {

/// The line style of one side of a cell border.
#[derive(Clone, Copy, Debug, PartialEq, Eq, Structural)]
pub enum BorderStyle {
    NoBorder,
    Thin,
    Medium,
    Hair,
}

/// An alignment as a caller names it. `Left` and `Center` place text along
/// the horizontal axis, `VerticalCenter` along the vertical one.
#[derive(Clone, Copy, Debug, PartialEq, Eq, Structural)]
pub enum Alignment {
    Left,
    Center,
    VerticalCenter,
}

/// Horizontal placement of text in a cell. `Default` is the placement of a
/// format on which none was set.
#[derive(Clone, Copy, Debug, PartialEq, Eq, Structural)]
pub enum HorizontalAlign {
    Default,
    Left,
    Center,
}

/// Vertical placement of text in a cell. `Default` is the placement of a
/// format on which none was set.
#[derive(Clone, Copy, Debug, PartialEq, Eq, Structural)]
pub enum VerticalAlign {
    Default,
    Center,
}

/// A value that a format setting rejects.
#[derive(Clone, Copy, Debug, PartialEq, Eq, Structural)]
pub enum FormatError {
    /// An alignment token other than `left`, `center` and `vcenter`.
    UnknownAlignment,
    /// A border style index other than 0, 1, 2 and 7.
    UnknownBorderStyle,
    /// A font size of zero.
    ZeroFontSize,
    /// An indent level above 255.
    IndentTooLarge,
    /// A text that writes no color, or a number that is none.
    InvalidColor,
    /// A setting for the wrapping of text: formats have no such attribute.
    UnsupportedTextWrap,
    /// A setting for the format of numbers: formats have no such attribute.
    UnsupportedNumberFormat,
}

/// The border style that a style index stands for, if it stands for one.
pub open spec fn border_style_of(index: u32) -> Option<BorderStyle> {
    if index == 0 {
        Some(BorderStyle::NoBorder)
    } else if index == 1 {
        Some(BorderStyle::Thin)
    } else if index == 2 {
        Some(BorderStyle::Medium)
    } else if index == 7 {
        Some(BorderStyle::Hair)
    } else {
        None
    }
}

/// Converts a border style index to the style it stands for: 0 is no border,
/// 1 thin, 2 medium and 7 hair. Every other index is refused.
pub fn border_style_from_index(index: u32) -> (r: Result<BorderStyle, FormatError>)
    ensures
        match border_style_of(index) {
            Some(style) => r == Ok::<BorderStyle, FormatError>(style),
            None => r == Err::<BorderStyle, FormatError>(FormatError::UnknownBorderStyle),
        },
{
    match index {
        0 => Ok(BorderStyle::NoBorder),
        1 => Ok(BorderStyle::Thin),
        2 => Ok(BorderStyle::Medium),
        7 => Ok(BorderStyle::Hair),
        _ => Err(FormatError::UnknownBorderStyle),
    }
}

/// The characters of the token `left`.
pub open spec fn left_token() -> Seq<char> {
    seq!['l', 'e', 'f', 't']
}

/// The characters of the token `center`.
pub open spec fn center_token() -> Seq<char> {
    seq!['c', 'e', 'n', 't', 'e', 'r']
}

/// The characters of the token `vcenter`.
pub open spec fn vcenter_token() -> Seq<char> {
    seq!['v', 'c', 'e', 'n', 't', 'e', 'r']
}

/// The alignment that a token names, if it names one.
#[verifier::opaque]
pub open spec fn alignment_of(token: Seq<char>) -> Option<Alignment> {
    if token == left_token() {
        Some(Alignment::Left)
    } else if token == center_token() {
        Some(Alignment::Center)
    } else if token == vcenter_token() {
        Some(Alignment::VerticalCenter)
    } else {
        None
    }
}

/// Converts an alignment token to the alignment it names. The tokens are
/// `left`, `center` and `vcenter`, in exactly this spelling; every other
/// string is refused.
pub fn format_align_from_string(token: &str) -> (r: Result<Alignment, FormatError>)
    ensures
        match alignment_of(token@) {
            Some(alignment) => r == Ok::<Alignment, FormatError>(alignment),
            None => r == Err::<Alignment, FormatError>(FormatError::UnknownAlignment),
        },
{
    proof {
        reveal(alignment_of);
        reveal_strlit("left");
        reveal_strlit("center");
        reveal_strlit("vcenter");
        assert("left"@ =~= left_token());
        assert("center"@ =~= center_token());
        assert("vcenter"@ =~= vcenter_token());
    }
    if same_text(token, "left") {
        Ok(Alignment::Left)
    } else if same_text(token, "center") {
        Ok(Alignment::Center)
    } else if same_text(token, "vcenter") {
        Ok(Alignment::VerticalCenter)
    } else {
        Err(FormatError::UnknownAlignment)
    }
}

/// What a format is: the value of each of its attributes.
pub struct FormatView {
    pub bold: bool,
    pub font_name: Option<Seq<char>>,
    pub font_size: Option<u32>,
    pub font_color: Option<u32>,
    pub horizontal: HorizontalAlign,
    pub vertical: VerticalAlign,
    pub left: BorderStyle,
    pub right: BorderStyle,
    pub top: BorderStyle,
    pub bottom: BorderStyle,
    pub indent: u8,
    pub background_color: Option<u32>,
}

impl FormatView {
    /// The format on which nothing was set.
    pub open spec fn initial() -> FormatView {
        FormatView {
            bold: false,
            font_name: None,
            font_size: None,
            font_color: None,
            horizontal: HorizontalAlign::Default,
            vertical: VerticalAlign::Default,
            left: BorderStyle::NoBorder,
            right: BorderStyle::NoBorder,
            top: BorderStyle::NoBorder,
            bottom: BorderStyle::NoBorder,
            indent: 0,
            background_color: None,
        }
    }

    /// A font size, where one is set, is positive, and a color, where one is
    /// set, is a color.
    pub open spec fn wf(self) -> bool {
        &&& self.font_size matches Some(size) ==> size > 0
        &&& self.font_color matches Some(rgb) ==> rgb <= COLOR_LIMIT
        &&& self.background_color matches Some(rgb) ==> rgb <= COLOR_LIMIT
    }

    /// This format with one alignment set: the axis that the alignment
    /// belongs to changes, the other axis stays.
    pub open spec fn with_alignment(self, alignment: Alignment) -> FormatView {
        match alignment {
            Alignment::Left => FormatView { horizontal: HorizontalAlign::Left, ..self },
            Alignment::Center => FormatView { horizontal: HorizontalAlign::Center, ..self },
            Alignment::VerticalCenter => FormatView { vertical: VerticalAlign::Center, ..self },
        }
    }
}

/// A set of cell style attributes. A format is a plain value: a cell that is
/// written with one keeps a copy, so formats never couple cells together.
#[derive(Debug, PartialEq, Eq)]
pub struct RustFormat {
    bold: bool,
    font_name: Option<String>,
    font_size: Option<u32>,
    font_color: Option<u32>,
    horizontal: HorizontalAlign,
    vertical: VerticalAlign,
    left: BorderStyle,
    right: BorderStyle,
    top: BorderStyle,
    bottom: BorderStyle,
    indent: u8,
    background_color: Option<u32>,
}

impl View for RustFormat {
    type V = FormatView;

    closed spec fn view(&self) -> FormatView {
        FormatView {
            bold: self.bold,
            font_name: opt_text(self.font_name),
            font_size: self.font_size,
            font_color: self.font_color,
            horizontal: self.horizontal,
            vertical: self.vertical,
            left: self.left,
            right: self.right,
            top: self.top,
            bottom: self.bottom,
            indent: self.indent,
            background_color: self.background_color,
        }
    }
}

impl Clone for RustFormat {
    fn clone(&self) -> (r: RustFormat)
        ensures
            r@ == self@,
    {
        proof {
            use_type_invariant(self);
        }
        RustFormat {
            bold: self.bold,
            font_name: copy_opt_text(&self.font_name),
            font_size: self.font_size,
            font_color: self.font_color,
            horizontal: self.horizontal,
            vertical: self.vertical,
            left: self.left,
            right: self.right,
            top: self.top,
            bottom: self.bottom,
            indent: self.indent,
            background_color: self.background_color,
        }
    }
}

impl RustFormat {
    /// Holds of every format there is: its font size, where one is set, is
    /// positive, and its colors, where they are set, are colors.
    #[verifier::type_invariant]
    pub open spec fn inv(self) -> bool {
        self@.wf()
    }

    /// The format on which nothing is set.
    pub fn new() -> (r: RustFormat)
        ensures
            r@ == FormatView::initial(),
    {
        RustFormat {
            bold: false,
            font_name: None,
            font_size: None,
            font_color: None,
            horizontal: HorizontalAlign::Default,
            vertical: VerticalAlign::Default,
            left: BorderStyle::NoBorder,
            right: BorderStyle::NoBorder,
            top: BorderStyle::NoBorder,
            bottom: BorderStyle::NoBorder,
            indent: 0,
            background_color: None,
        }
    }

    /// Turns bold face on or off.
    pub fn set_bold(self, bold: bool) -> (r: RustFormat)
        ensures
            r@ == (FormatView { bold, ..self@ }),
    {
        proof {
            use_type_invariant(&self);
        }
        let mut f = self;
        f.bold = bold;
        f
    }

    /// Sets the font by its name.
    pub fn set_font_name(self, name: String) -> (r: RustFormat)
        ensures
            r@ == (FormatView { font_name: Some(name@), ..self@ }),
    {
        proof {
            use_type_invariant(&self);
        }
        let mut f = self;
        f.font_name = Some(name);
        f
    }

    /// Sets the font size. A size of zero is refused.
    pub fn set_font_size(self, size: u32) -> (r: Result<RustFormat, FormatError>)
        ensures
            size == 0 ==> r == Err::<RustFormat, FormatError>(FormatError::ZeroFontSize),
            size > 0 ==> r is Ok && r->Ok_0@ == (FormatView { font_size: Some(size), ..self@ }),
    {
        proof {
            use_type_invariant(&self);
        }
        if size == 0 {
            return Err(FormatError::ZeroFontSize);
        }
        let mut f = self;
        f.font_size = Some(size);
        Ok(f)
    }

    /// Sets the font color. A number above `FFFFFF` is no color and is
    /// refused.
    pub fn set_font_color(self, rgb: u32) -> (r: Result<RustFormat, FormatError>)
        ensures
            rgb > COLOR_LIMIT ==> r == Err::<RustFormat, FormatError>(FormatError::InvalidColor),
            rgb <= COLOR_LIMIT ==> r is Ok && r->Ok_0@ == (FormatView {
                font_color: Some(rgb),
                ..self@
            }),
    {
        proof {
            use_type_invariant(&self);
        }
        if rgb > COLOR_LIMIT {
            return Err(FormatError::InvalidColor);
        }
        let mut f = self;
        f.font_color = Some(rgb);
        Ok(f)
    }

    /// Sets one alignment. `Left` and `Center` set the horizontal placement
    /// and leave the vertical one; `VerticalCenter` does the reverse.
    pub fn set_align(self, alignment: Alignment) -> (r: RustFormat)
        ensures
            r@ == self@.with_alignment(alignment),
    {
        proof {
            use_type_invariant(&self);
        }
        let mut f = self;
        match alignment {
            Alignment::Left => {
                f.horizontal = HorizontalAlign::Left;
            },
            Alignment::Center => {
                f.horizontal = HorizontalAlign::Center;
            },
            Alignment::VerticalCenter => {
                f.vertical = VerticalAlign::Center;
            },
        }
        f
    }

    /// Sets the style of the left border.
    pub fn set_border_left(self, style: BorderStyle) -> (r: RustFormat)
        ensures
            r@ == (FormatView { left: style, ..self@ }),
    {
        proof {
            use_type_invariant(&self);
        }
        let mut f = self;
        f.left = style;
        f
    }

    /// Sets the style of the right border.
    pub fn set_border_right(self, style: BorderStyle) -> (r: RustFormat)
        ensures
            r@ == (FormatView { right: style, ..self@ }),
    {
        proof {
            use_type_invariant(&self);
        }
        let mut f = self;
        f.right = style;
        f
    }

    /// Sets the style of the top border.
    pub fn set_border_top(self, style: BorderStyle) -> (r: RustFormat)
        ensures
            r@ == (FormatView { top: style, ..self@ }),
    {
        proof {
            use_type_invariant(&self);
        }
        let mut f = self;
        f.top = style;
        f
    }

    /// Sets the style of the bottom border.
    pub fn set_border_bottom(self, style: BorderStyle) -> (r: RustFormat)
        ensures
            r@ == (FormatView { bottom: style, ..self@ }),
    {
        proof {
            use_type_invariant(&self);
        }
        let mut f = self;
        f.bottom = style;
        f
    }

    /// Sets the indent level.
    pub fn set_indent(self, level: u8) -> (r: RustFormat)
        ensures
            r@ == (FormatView { indent: level, ..self@ }),
    {
        proof {
            use_type_invariant(&self);
        }
        let mut f = self;
        f.indent = level;
        f
    }

    /// Sets the background color. A number above `FFFFFF` is no color and
    /// is refused.
    pub fn set_background_color(self, rgb: u32) -> (r: Result<RustFormat, FormatError>)
        ensures
            rgb > COLOR_LIMIT ==> r == Err::<RustFormat, FormatError>(FormatError::InvalidColor),
            rgb <= COLOR_LIMIT ==> r is Ok && r->Ok_0@ == (FormatView {
                background_color: Some(rgb),
                ..self@
            }),
    {
        proof {
            use_type_invariant(&self);
        }
        if rgb > COLOR_LIMIT {
            return Err(FormatError::InvalidColor);
        }
        let mut f = self;
        f.background_color = Some(rgb);
        Ok(f)
    }
}

impl RustFormat {
    /// Whether the text is in bold face.
    pub fn is_bold(&self) -> (r: bool)
        ensures
            r == self@.bold,
            self@.wf(),
    {
        proof {
            use_type_invariant(self);
        }
        self.bold
    }

    /// The name of the font, if one was set.
    pub fn font_name(&self) -> (r: Option<String>)
        ensures
            opt_text(r) == self@.font_name,
    {
        copy_opt_text(&self.font_name)
    }

    /// The font size, if one was set. It is positive.
    pub fn font_size(&self) -> (r: Option<u32>)
        ensures
            r == self@.font_size,
            r matches Some(size) ==> size > 0,
    {
        proof {
            use_type_invariant(self);
        }
        self.font_size
    }

    /// The font color, if one was set. It is `FFFFFF` at most.
    pub fn font_color(&self) -> (r: Option<u32>)
        ensures
            r == self@.font_color,
            r matches Some(rgb) ==> rgb <= COLOR_LIMIT,
    {
        proof {
            use_type_invariant(self);
        }
        self.font_color
    }

    /// The horizontal placement of text.
    pub fn horizontal_align(&self) -> (r: HorizontalAlign)
        ensures
            r == self@.horizontal,
    {
        self.horizontal
    }

    /// The vertical placement of text.
    pub fn vertical_align(&self) -> (r: VerticalAlign)
        ensures
            r == self@.vertical,
    {
        self.vertical
    }

    /// The style of the left border.
    pub fn border_left(&self) -> (r: BorderStyle)
        ensures
            r == self@.left,
    {
        self.left
    }

    /// The style of the right border.
    pub fn border_right(&self) -> (r: BorderStyle)
        ensures
            r == self@.right,
    {
        self.right
    }

    /// The style of the top border.
    pub fn border_top(&self) -> (r: BorderStyle)
        ensures
            r == self@.top,
    {
        self.top
    }

    /// The style of the bottom border.
    pub fn border_bottom(&self) -> (r: BorderStyle)
        ensures
            r == self@.bottom,
    {
        self.bottom
    }

    /// The indent level.
    pub fn indent(&self) -> (r: u8)
        ensures
            r == self@.indent,
    {
        self.indent
    }

    /// The background color, if one was set. It is `FFFFFF` at most.
    pub fn background_color(&self) -> (r: Option<u32>)
        ensures
            r == self@.background_color,
            r matches Some(rgb) ==> rgb <= COLOR_LIMIT,
    {
        proof {
            use_type_invariant(self);
        }
        self.background_color
    }

    /// Builds the format of `rust_xlsxwriter` that stands for this one: each
    /// attribute that differs from that of a format on which nothing is set
    /// is set on it. The format that is built has the attributes of this
    /// one, and those of the format of `rust_xlsxwriter` on which nothing is
    /// set where this one has none.
    pub(crate) fn to_writer(&self) -> (r: rust_xlsxwriter::Format)
        ensures
            writer_format_numbers(r) == encoded_numbers(self@),
            writer_format_font(r) == encoded_font(self@),
    {
        proof {
            use_type_invariant(self);
        }
        let ghost f = self@;
        let mut out = format_new();
        proof {
            lemma_numbers_start(f);
        }
        if self.bold {
            proof {
                lemma_numbers_set(f, 0, writer_format_numbers(out));
            }
            out = format_set_bold(out);
        } else {
            proof {
                lemma_numbers_keep(f, 0);
            }
        }
        if let Some(name) = &self.font_name {
            out = format_set_font_name(out, name.as_str());
        }
        if let Some(size) = self.font_size {
            proof {
                lemma_numbers_set(f, 1, writer_format_numbers(out));
            }
            out = format_set_font_size(out, size);
        } else {
            proof {
                lemma_numbers_keep(f, 1);
            }
        }
        if let Some(rgb) = self.font_color {
            proof {
                lemma_numbers_set(f, 2, writer_format_numbers(out));
            }
            out = format_set_font_color(out, rgb);
        } else {
            proof {
                lemma_numbers_keep(f, 2);
            }
        }
        match self.horizontal {
            HorizontalAlign::Default => {
                proof {
                    lemma_numbers_keep(f, 3);
                }
            },
            HorizontalAlign::Left => {
                proof {
                    lemma_numbers_set(f, 3, writer_format_numbers(out));
                }
                out = format_set_align(out, Alignment::Left);
            },
            HorizontalAlign::Center => {
                proof {
                    lemma_numbers_set(f, 3, writer_format_numbers(out));
                }
                out = format_set_align(out, Alignment::Center);
            },
        }
        match self.vertical {
            VerticalAlign::Default => {
                proof {
                    lemma_numbers_keep(f, 4);
                }
            },
            VerticalAlign::Center => {
                proof {
                    lemma_numbers_set(f, 4, writer_format_numbers(out));
                }
                out = format_set_align(out, Alignment::VerticalCenter);
            },
        }
        proof {
            lemma_numbers_set(f, 5, writer_format_numbers(out));
        }
        out = format_set_border_left(out, self.left);
        proof {
            lemma_numbers_set(f, 6, writer_format_numbers(out));
        }
        out = format_set_border_right(out, self.right);
        proof {
            lemma_numbers_set(f, 7, writer_format_numbers(out));
        }
        out = format_set_border_top(out, self.top);
        proof {
            lemma_numbers_set(f, 8, writer_format_numbers(out));
        }
        out = format_set_border_bottom(out, self.bottom);
        proof {
            lemma_numbers_set(f, 9, writer_format_numbers(out));
        }
        out = format_set_indent(out, self.indent);
        if let Some(rgb) = self.background_color {
            proof {
                lemma_numbers_set(f, 10, writer_format_numbers(out));
            }
            out = format_set_background_color(out, rgb);
        } else {
            proof {
                lemma_numbers_keep(f, 10);
            }
        }
        proof {
            lemma_numbers_end(f);
        }
        out
    }
}

/// The numbers that stand in the encoder for the attributes of a format, in
/// the order in which `writer_format_numbers` tells them. Where no font size
/// is set, the size is 11; where no color is set, the color is -1.
pub(crate) open spec fn encoded_numbers(f: FormatView) -> Seq<int> {
    seq![
        if f.bold {
            1int
        } else {
            0int
        },
        match f.font_size {
            Some(size) => size as int,
            None => 11int,
        },
        match f.font_color {
            Some(rgb) => rgb as int,
            None => -1int,
        },
        match f.horizontal {
            HorizontalAlign::Default => 0int,
            HorizontalAlign::Left => alignment_number(Alignment::Left),
            HorizontalAlign::Center => alignment_number(Alignment::Center),
        },
        match f.vertical {
            VerticalAlign::Default => 0int,
            VerticalAlign::Center => alignment_number(Alignment::VerticalCenter),
        },
        border_number(f.left),
        border_number(f.right),
        border_number(f.top),
        border_number(f.bottom),
        f.indent as int,
        match f.background_color {
            Some(rgb) => rgb as int,
            None => -1int,
        },
    ]
}

/// The numbers of a format of the encoder on which the first `done`
/// attributes of a format were set, and no other.
pub(crate) open spec fn numbers_so_far(f: FormatView, done: int) -> Seq<int> {
    Seq::new(
        11,
        |i: int|
            if i < done {
                encoded_numbers(f)[i]
            } else {
                fresh_numbers()[i]
            },
    )
}

/// Before any attribute was set, the numbers are those of the format on
/// which nothing is set.
proof fn lemma_numbers_start(f: FormatView)
    ensures
        numbers_so_far(f, 0) == fresh_numbers(),
{
    assert(numbers_so_far(f, 0) =~= fresh_numbers());
}

/// Setting the attribute at the next place gives the numbers with one more
/// attribute set.
proof fn lemma_numbers_set(f: FormatView, place: int, before: Seq<int>)
    requires
        0 <= place < 11,
        before == numbers_so_far(f, place),
    ensures
        before.update(place, encoded_numbers(f)[place]) == numbers_so_far(f, place + 1),
{
    assert(before.update(place, encoded_numbers(f)[place]) =~= numbers_so_far(f, place + 1));
}

/// Where the attribute at the next place is that of the format on which
/// nothing is set, the numbers have it set already.
proof fn lemma_numbers_keep(f: FormatView, place: int)
    requires
        0 <= place < 11,
        encoded_numbers(f)[place] == fresh_numbers()[place],
    ensures
        numbers_so_far(f, place) == numbers_so_far(f, place + 1),
{
    assert(numbers_so_far(f, place) =~= numbers_so_far(f, place + 1));
}

/// Once every attribute was set, the numbers are those of the format.
proof fn lemma_numbers_end(f: FormatView)
    ensures
        numbers_so_far(f, 11) == encoded_numbers(f),
{
    assert(numbers_so_far(f, 11) =~= encoded_numbers(f));
}

/// The name of the font that stands in the encoder for that of a format:
/// the name that is set, or that of the encoder's own font.
pub(crate) open spec fn encoded_font(f: FormatView) -> Seq<char> {
    match f.font_name {
        Some(name) => name,
        None => fresh_font(),
    }
}

/// Settings for a format, each of them optional. A setting that is absent
/// leaves its attribute as it was. Alignments are given as tokens, border
/// styles as indexes and colors as text, as a caller outside the library
/// writes them. The record has a place for the wrapping of text and for the
/// format of numbers, which a caller may know from other libraries; a
/// format has neither, and a record that sets one of them is refused.
#[derive(Debug, PartialEq, Eq)]
pub struct FormatOptions {
    pub bold: Option<bool>,
    pub font_name: Option<String>,
    pub font_size: Option<u32>,
    pub font_color: Option<String>,
    pub align: Option<String>,
    pub valign: Option<String>,
    pub left: Option<u32>,
    pub right: Option<u32>,
    pub top: Option<u32>,
    pub bottom: Option<u32>,
    pub indent: Option<u32>,
    pub bg_color: Option<String>,
    pub text_wrap: Option<bool>,
    pub num_format: Option<String>,
}

/// What a record of format settings holds.
pub struct FormatOptionsView {
    pub bold: Option<bool>,
    pub font_name: Option<Seq<char>>,
    pub font_size: Option<u32>,
    pub font_color: Option<Seq<char>>,
    pub align: Option<Seq<char>>,
    pub valign: Option<Seq<char>>,
    pub left: Option<u32>,
    pub right: Option<u32>,
    pub top: Option<u32>,
    pub bottom: Option<u32>,
    pub indent: Option<u32>,
    pub bg_color: Option<Seq<char>>,
    pub text_wrap: Option<bool>,
    pub num_format: Option<Seq<char>>,
}

/// Whether an optional alignment token is present and names no alignment.
pub open spec fn bad_alignment(token: Option<Seq<char>>) -> bool {
    token matches Some(t) && alignment_of(t) is None
}

/// Whether an optional color is present and writes no color.
pub open spec fn bad_color(text: Option<Seq<char>>) -> bool {
    text matches Some(t) && color_of(t) is None
}

/// The color to use after an optional text was applied to `before`.
pub open spec fn color_after(before: Option<u32>, text: Option<Seq<char>>) -> Option<u32> {
    match text {
        Some(t) => match color_of(t) {
            Some(rgb) => Some(rgb),
            None => before,
        },
        None => before,
    }
}

/// Whether an optional border style index is present and stands for no style.
pub open spec fn bad_border(index: Option<u32>) -> bool {
    index matches Some(i) && border_style_of(i) is None
}

/// A format with an optional alignment token applied, where the token names
/// an alignment.
pub open spec fn aligned(f: FormatView, token: Option<Seq<char>>) -> FormatView {
    match token {
        Some(t) => match alignment_of(t) {
            Some(alignment) => f.with_alignment(alignment),
            None => f,
        },
        None => f,
    }
}

/// The border style to use after an optional index was applied to `before`.
pub open spec fn border_after(before: BorderStyle, index: Option<u32>) -> BorderStyle {
    match index {
        Some(i) => match border_style_of(i) {
            Some(style) => style,
            None => before,
        },
        None => before,
    }
}

/// The horizontal placement that an optional alignment token names, if it
/// names one.
pub open spec fn horizontal_of(token: Option<Seq<char>>) -> Option<HorizontalAlign> {
    match token {
        Some(t) => match alignment_of(t) {
            Some(Alignment::Left) => Some(HorizontalAlign::Left),
            Some(Alignment::Center) => Some(HorizontalAlign::Center),
            _ => None,
        },
        None => None,
    }
}

/// Whether an optional alignment token names the vertical placement.
pub open spec fn vertical_named(token: Option<Seq<char>>) -> bool {
    token matches Some(t) && alignment_of(t) == Some(Alignment::VerticalCenter)
}

/// The color that an optional text sets, if it sets one.
pub open spec fn color_set(text: Option<Seq<char>>) -> Option<u32> {
    match text {
        Some(t) => color_of(t),
        None => None,
    }
}

/// The border style that an optional index sets, if it sets one.
pub open spec fn border_set(index: Option<u32>) -> Option<BorderStyle> {
    match index {
        Some(i) => border_style_of(i),
        None => None,
    }
}

/// Whether two optional values are not both present and different.
pub open spec fn agree<T>(a: Option<T>, b: Option<T>) -> bool {
    a is Some && b is Some ==> a == b
}

impl FormatOptionsView {
    /// The record in which nothing is set.
    pub open spec fn empty() -> FormatOptionsView {
        FormatOptionsView {
            bold: None,
            font_name: None,
            font_size: None,
            font_color: None,
            align: None,
            valign: None,
            left: None,
            right: None,
            top: None,
            bottom: None,
            indent: None,
            bg_color: None,
            text_wrap: None,
            num_format: None,
        }
    }

    /// Why these settings are refused, if they are: a setting for which a
    /// format has no attribute, or else the first setting, in the order of
    /// the fields, that holds a value which its attribute rejects.
    pub open spec fn first_error(self) -> Option<FormatError> {
        if self.text_wrap is Some {
            Some(FormatError::UnsupportedTextWrap)
        } else if self.num_format is Some {
            Some(FormatError::UnsupportedNumberFormat)
        } else if self.font_size == Some(0u32) {
            Some(FormatError::ZeroFontSize)
        } else if bad_color(self.font_color) {
            Some(FormatError::InvalidColor)
        } else if bad_alignment(self.align) || bad_alignment(self.valign) {
            Some(FormatError::UnknownAlignment)
        } else if bad_border(self.left) || bad_border(self.right) || bad_border(self.top)
            || bad_border(self.bottom) {
            Some(FormatError::UnknownBorderStyle)
        } else if self.indent matches Some(level) && level > 255 {
            Some(FormatError::IndentTooLarge)
        } else if bad_color(self.bg_color) {
            Some(FormatError::InvalidColor)
        } else {
            None
        }
    }

    /// Every setting that is present has an attribute, and holds a value
    /// which the attribute accepts.
    pub open spec fn valid(self) -> bool {
        self.first_error() is None
    }

    /// The format that results from applying these settings to `f`: each
    /// setting that is present replaces its attribute, `align` before `valign`,
    /// and every other attribute is that of `f`.
    pub open spec fn apply_to(self, f: FormatView) -> FormatView {
        let placed = aligned(aligned(f, self.align), self.valign);
        FormatView {
            bold: match self.bold {
                Some(b) => b,
                None => f.bold,
            },
            font_name: match self.font_name {
                Some(name) => Some(name),
                None => f.font_name,
            },
            font_size: match self.font_size {
                Some(size) => Some(size),
                None => f.font_size,
            },
            font_color: color_after(f.font_color, self.font_color),
            horizontal: placed.horizontal,
            vertical: placed.vertical,
            left: border_after(f.left, self.left),
            right: border_after(f.right, self.right),
            top: border_after(f.top, self.top),
            bottom: border_after(f.bottom, self.bottom),
            indent: match self.indent {
                Some(level) => level as u8,
                None => f.indent,
            },
            background_color: color_after(f.background_color, self.bg_color),
        }
    }

    /// The horizontal placement that these settings leave, where they set
    /// one: that of `valign`, where it names one, and else that of `align`.
    pub open spec fn horizontal_set(self) -> Option<HorizontalAlign> {
        if horizontal_of(self.valign) is Some {
            horizontal_of(self.valign)
        } else {
            horizontal_of(self.align)
        }
    }

    /// No attribute is given one value by this record and another by
    /// `other`. The vertical placement has one value only that a record can
    /// give, so that no two records are at odds over it.
    pub open spec fn independent_of(self, other: FormatOptionsView) -> bool {
        &&& agree(self.bold, other.bold)
        &&& agree(self.font_name, other.font_name)
        &&& agree(self.font_size, other.font_size)
        &&& agree(color_set(self.font_color), color_set(other.font_color))
        &&& agree(self.horizontal_set(), other.horizontal_set())
        &&& agree(border_set(self.left), border_set(other.left))
        &&& agree(border_set(self.right), border_set(other.right))
        &&& agree(border_set(self.top), border_set(other.top))
        &&& agree(border_set(self.bottom), border_set(other.bottom))
        &&& agree(self.indent, other.indent)
        &&& agree(color_set(self.bg_color), color_set(other.bg_color))
    }

    /// No setting is present in both records.
    pub open spec fn shares_no_setting(self, other: FormatOptionsView) -> bool {
        &&& !(self.bold is Some && other.bold is Some)
        &&& !(self.font_name is Some && other.font_name is Some)
        &&& !(self.font_size is Some && other.font_size is Some)
        &&& !(self.font_color is Some && other.font_color is Some)
        &&& !(self.align is Some && other.align is Some)
        &&& !(self.valign is Some && other.valign is Some)
        &&& !(self.left is Some && other.left is Some)
        &&& !(self.right is Some && other.right is Some)
        &&& !(self.top is Some && other.top is Some)
        &&& !(self.bottom is Some && other.bottom is Some)
        &&& !(self.indent is Some && other.indent is Some)
        &&& !(self.bg_color is Some && other.bg_color is Some)
        &&& !(self.text_wrap is Some && other.text_wrap is Some)
        &&& !(self.num_format is Some && other.num_format is Some)
    }

    /// The record that holds every setting of this record and of `other`.
    /// Where both hold one, this record's stands.
    pub open spec fn joined_with(self, other: FormatOptionsView) -> FormatOptionsView {
        FormatOptionsView {
            bold: if self.bold is Some { self.bold } else { other.bold },
            font_name: if self.font_name is Some { self.font_name } else { other.font_name },
            font_size: if self.font_size is Some { self.font_size } else { other.font_size },
            font_color: if self.font_color is Some { self.font_color } else { other.font_color },
            align: if self.align is Some { self.align } else { other.align },
            valign: if self.valign is Some { self.valign } else { other.valign },
            left: if self.left is Some { self.left } else { other.left },
            right: if self.right is Some { self.right } else { other.right },
            top: if self.top is Some { self.top } else { other.top },
            bottom: if self.bottom is Some { self.bottom } else { other.bottom },
            indent: if self.indent is Some { self.indent } else { other.indent },
            bg_color: if self.bg_color is Some { self.bg_color } else { other.bg_color },
            text_wrap: if self.text_wrap is Some { self.text_wrap } else { other.text_wrap },
            num_format: if self.num_format is Some { self.num_format } else { other.num_format },
        }
    }
}

impl View for FormatOptions {
    type V = FormatOptionsView;

    open spec fn view(&self) -> FormatOptionsView {
        FormatOptionsView {
            bold: self.bold,
            font_name: opt_text(self.font_name),
            font_size: self.font_size,
            font_color: opt_text(self.font_color),
            align: opt_text(self.align),
            valign: opt_text(self.valign),
            left: self.left,
            right: self.right,
            top: self.top,
            bottom: self.bottom,
            indent: self.indent,
            bg_color: opt_text(self.bg_color),
            text_wrap: self.text_wrap,
            num_format: opt_text(self.num_format),
        }
    }
}

impl FormatOptions {
    /// The record in which nothing is set.
    pub fn new() -> (r: FormatOptions)
        ensures
            r@ == FormatOptionsView::empty(),
    {
        FormatOptions {
            bold: None,
            font_name: None,
            font_size: None,
            font_color: None,
            align: None,
            valign: None,
            left: None,
            right: None,
            top: None,
            bottom: None,
            indent: None,
            bg_color: None,
            text_wrap: None,
            num_format: None,
        }
    }
}

/// The border style for one side after an optional index was applied, or the
/// error where the index stands for no style.
fn border_from_option(before: BorderStyle, index: Option<u32>) -> (r: Result<
    BorderStyle,
    FormatError,
>)
    ensures
        bad_border(index) ==> r == Err::<BorderStyle, FormatError>(FormatError::UnknownBorderStyle),
        !bad_border(index) ==> r == Ok::<BorderStyle, FormatError>(border_after(before, index)),
{
    match index {
        Some(i) => border_style_from_index(i),
        None => Ok(before),
    }
}

/// The color after an optional text was applied, or the error where the text
/// writes no color.
fn color_from_option(before: Option<u32>, text: &Option<String>) -> (r: Result<
    Option<u32>,
    FormatError,
>)
    ensures
        bad_color(opt_text(*text)) ==> r == Err::<Option<u32>, FormatError>(
            FormatError::InvalidColor,
        ),
        !bad_color(opt_text(*text)) ==> r == Ok::<Option<u32>, FormatError>(
            color_after(before, opt_text(*text)),
        ),
{
    match text {
        Some(t) => match color_from_string(t.as_str()) {
            Ok(rgb) => Ok(Some(rgb)),
            Err(e) => Err(e),
        },
        None => Ok(before),
    }
}

/// The alignment that an optional token names, `None` where the token is
/// absent, or the error where it names no alignment.
fn alignment_from_option(token: &Option<String>) -> (r: Result<Option<Alignment>, FormatError>)
    ensures
        bad_alignment(opt_text(*token)) ==> r == Err::<Option<Alignment>, FormatError>(
            FormatError::UnknownAlignment,
        ),
        !bad_alignment(opt_text(*token)) ==> r is Ok && r->Ok_0 == match opt_text(*token) {
            Some(t) => alignment_of(t),
            None => None,
        },
{
    match token {
        Some(t) => match format_align_from_string(t.as_str()) {
            Ok(alignment) => Ok(Some(alignment)),
            Err(e) => Err(e),
        },
        None => Ok(None),
    }
}

/// The two placements after an optional alignment was set: the axis that the
/// alignment belongs to changes, the other stays.
fn place(placement: (HorizontalAlign, VerticalAlign), alignment: Option<Alignment>) -> (r: (
    HorizontalAlign,
    VerticalAlign,
))
    ensures
        r == match alignment {
            Some(Alignment::Left) => (HorizontalAlign::Left, placement.1),
            Some(Alignment::Center) => (HorizontalAlign::Center, placement.1),
            Some(Alignment::VerticalCenter) => (placement.0, VerticalAlign::Center),
            None => placement,
        },
{
    match alignment {
        Some(Alignment::Left) => (HorizontalAlign::Left, placement.1),
        Some(Alignment::Center) => (HorizontalAlign::Center, placement.1),
        Some(Alignment::VerticalCenter) => (placement.0, VerticalAlign::Center),
        None => placement,
    }
}

impl RustFormat {
    /// Applies a record of settings to this format. Each setting that is
    /// present replaces its attribute; the others keep the value they have
    /// in this format. A setting for the wrapping of text or for the format
    /// of numbers is refused, since a format has no such attribute. Where a
    /// setting holds a value that its attribute rejects, the first such
    /// setting in the order of the record's fields decides the error, and no
    /// format results.
    pub fn apply(self, options: &FormatOptions) -> (r: Result<RustFormat, FormatError>)
        ensures
            match options@.first_error() {
                Some(e) => r == Err::<RustFormat, FormatError>(e),
                None => r is Ok && r->Ok_0@ == options@.apply_to(self@),
            },
    {
        proof {
            use_type_invariant(&self);
        }
        if options.text_wrap.is_some() {
            return Err(FormatError::UnsupportedTextWrap);
        }
        if options.num_format.is_some() {
            return Err(FormatError::UnsupportedNumberFormat);
        }
        if let Some(size) = options.font_size {
            if size == 0 {
                return Err(FormatError::ZeroFontSize);
            }
        }
        let font_color = match color_from_option(self.font_color, &options.font_color) {
            Ok(color) => color,
            Err(e) => {
                return Err(e);
            },
        };
        let align = match alignment_from_option(&options.align) {
            Ok(a) => a,
            Err(e) => {
                return Err(e);
            },
        };
        let valign = match alignment_from_option(&options.valign) {
            Ok(a) => a,
            Err(e) => {
                return Err(e);
            },
        };
        let left = match border_from_option(self.left, options.left) {
            Ok(style) => style,
            Err(e) => {
                return Err(e);
            },
        };
        let right = match border_from_option(self.right, options.right) {
            Ok(style) => style,
            Err(e) => {
                return Err(e);
            },
        };
        let top = match border_from_option(self.top, options.top) {
            Ok(style) => style,
            Err(e) => {
                return Err(e);
            },
        };
        let bottom = match border_from_option(self.bottom, options.bottom) {
            Ok(style) => style,
            Err(e) => {
                return Err(e);
            },
        };
        let indent: u8 = match options.indent {
            Some(level) => {
                if level > 255 {
                    return Err(FormatError::IndentTooLarge);
                }
                level as u8
            },
            None => self.indent,
        };
        let background_color = match color_from_option(self.background_color, &options.bg_color) {
            Ok(color) => color,
            Err(e) => {
                return Err(e);
            },
        };
        let bold = match options.bold {
            Some(b) => b,
            None => self.bold,
        };
        let font_name = match &options.font_name {
            Some(name) => Some(name.clone()),
            None => self.font_name,
        };
        let font_size = match options.font_size {
            Some(size) => Some(size),
            None => self.font_size,
        };
        let (horizontal, vertical) = place(place((self.horizontal, self.vertical), align), valign);
        let f = RustFormat {
            bold,
            font_name,
            font_size,
            font_color,
            horizontal,
            vertical,
            left,
            right,
            top,
            bottom,
            indent,
            background_color,
        };
        proof {
            let want = options@.apply_to(self@);
            assert(f@.bold == want.bold);
            assert(f@.font_name == want.font_name);
            assert(f@.font_size == want.font_size);
            assert(f@.font_color == want.font_color);
            assert(f@.horizontal == want.horizontal);
            assert(f@.vertical == want.vertical);
            assert(f@.left == want.left);
            assert(f@.right == want.right);
            assert(f@.top == want.top);
            assert(f@.bottom == want.bottom);
            assert(f@.indent == want.indent);
            assert(f@.background_color == want.background_color);
        }
        Ok(f)
    }
}

/// Makes a format from a record of settings: the format on which nothing is
/// set, with each setting that is present applied to it.
pub fn create_format(options: &FormatOptions) -> (r: Result<RustFormat, FormatError>)
    ensures
        match options@.first_error() {
            Some(e) => r == Err::<RustFormat, FormatError>(e),
            None => r is Ok && r->Ok_0@ == options@.apply_to(FormatView::initial())
                && r->Ok_0@.wf(),
        },
{
    proof {
        if options@.valid() {
            lemma_apply_keeps_wf(options@, FormatView::initial());
        }
    }
    RustFormat::new().apply(options)
}

/// Settings that are valid turn a format whose font size is positive, or
/// absent, into another such format.
pub proof fn lemma_apply_keeps_wf(options: FormatOptionsView, f: FormatView)
    requires
        options.valid(),
        f.wf(),
    ensures
        options.apply_to(f).wf(),
{
}

/// Applying two records of settings one after the other gives the same
/// format in either order, where no attribute is given two values: one by
/// each record.
pub proof fn lemma_apply_order_independent(
    f: FormatView,
    a: FormatOptionsView,
    b: FormatOptionsView,
)
    requires
        a.valid(),
        b.valid(),
        a.independent_of(b),
    ensures
        b.apply_to(a.apply_to(f)) == a.apply_to(b.apply_to(f)),
{
    let ab = b.apply_to(a.apply_to(f));
    let ba = a.apply_to(b.apply_to(f));
    assert(ab.bold == ba.bold);
    assert(ab.font_name == ba.font_name);
    assert(ab.font_size == ba.font_size);
    assert(ab.font_color == ba.font_color);
    lemma_placement_after_two(f, a, b);
    lemma_placement_after_two(f, b, a);
    assert(ab.horizontal == ba.horizontal);
    assert(ab.vertical == ba.vertical);
    assert(ab.left == ba.left);
    assert(ab.right == ba.right);
    assert(ab.top == ba.top);
    assert(ab.bottom == ba.bottom);
    assert(ab.indent == ba.indent);
    assert(ab.background_color == ba.background_color);
}

/// Where some attribute is given one value by one record of settings and
/// another by a second, the order in which the two are applied shows in the
/// format: the record that is applied last decides.
pub proof fn lemma_apply_order_matters(f: FormatView, a: FormatOptionsView, b: FormatOptionsView)
    requires
        a.valid(),
        b.valid(),
        !a.independent_of(b),
    ensures
        b.apply_to(a.apply_to(f)) != a.apply_to(b.apply_to(f)),
{
    let ab = b.apply_to(a.apply_to(f));
    let ba = a.apply_to(b.apply_to(f));
    lemma_placement_after_two(f, a, b);
    lemma_placement_after_two(f, b, a);
    if !agree(a.bold, b.bold) {
        assert(ab.bold != ba.bold);
    } else if !agree(a.font_name, b.font_name) {
        assert(ab.font_name != ba.font_name);
    } else if !agree(a.font_size, b.font_size) {
        assert(ab.font_size != ba.font_size);
    } else if !agree(color_set(a.font_color), color_set(b.font_color)) {
        assert(ab.font_color != ba.font_color);
    } else if !agree(a.horizontal_set(), b.horizontal_set()) {
        assert(ab.horizontal != ba.horizontal);
    } else if !agree(border_set(a.left), border_set(b.left)) {
        assert(ab.left != ba.left);
    } else if !agree(border_set(a.right), border_set(b.right)) {
        assert(ab.right != ba.right);
    } else if !agree(border_set(a.top), border_set(b.top)) {
        assert(ab.top != ba.top);
    } else if !agree(border_set(a.bottom), border_set(b.bottom)) {
        assert(ab.bottom != ba.bottom);
    } else if !agree(a.indent, b.indent) {
        assert(ab.indent != ba.indent);
    } else {
        assert(ab.background_color != ba.background_color);
    }
}

/// The placements that a record of settings leaves: the horizontal one that
/// it sets, where it sets one, and the vertical one in the centre, where one
/// of its tokens says so; else those that were there.
proof fn lemma_placement_after(f: FormatView, a: FormatOptionsView)
    ensures
        a.apply_to(f).horizontal == (match a.horizontal_set() {
            Some(h) => h,
            None => f.horizontal,
        }),
        a.apply_to(f).vertical == (if vertical_named(a.align) || vertical_named(a.valign) {
            VerticalAlign::Center
        } else {
            f.vertical
        }),
{
}

/// The placements that two records of settings leave, one applied after
/// the other.
proof fn lemma_placement_after_two(f: FormatView, a: FormatOptionsView, b: FormatOptionsView)
    ensures
        b.apply_to(a.apply_to(f)).horizontal == (match b.horizontal_set() {
            Some(h) => h,
            None => match a.horizontal_set() {
                Some(h) => h,
                None => f.horizontal,
            },
        }),
        b.apply_to(a.apply_to(f)).vertical == (if vertical_named(a.align) || vertical_named(
            a.valign,
        ) || vertical_named(b.align) || vertical_named(b.valign) {
            VerticalAlign::Center
        } else {
            f.vertical
        }),
{
    lemma_placement_after(f, a);
    lemma_placement_after(a.apply_to(f), b);
}

/// Applying two records of settings one after the other gives the format
/// that their union gives in one step, where no setting is present in both
/// and no attribute is given two values. So a format depends on the
/// settings made, not on how they were grouped.
pub proof fn lemma_apply_in_parts(f: FormatView, a: FormatOptionsView, b: FormatOptionsView)
    requires
        a.valid(),
        b.valid(),
        a.shares_no_setting(b),
        a.independent_of(b),
    ensures
        a.joined_with(b).valid(),
        b.apply_to(a.apply_to(f)) == a.joined_with(b).apply_to(f),
        a.joined_with(b) == b.joined_with(a),
{
    let ab = b.apply_to(a.apply_to(f));
    let joined = a.joined_with(b).apply_to(f);
    lemma_placement_after_two(f, a, b);
    lemma_placement_after(f, a.joined_with(b));
    assert(ab.horizontal == joined.horizontal);
    assert(ab.vertical == joined.vertical);
}

} // verus!
