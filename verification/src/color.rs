//! Colors: a color is a number that holds eight bits each of red, green
//! and blue, and is written as text in hexadecimal digits.

use crate::format::FormatError;
use vstd::prelude::*;
use vstd::string::*;
use vstd::utf8::is_ascii_chars;

verus! {

/// The largest color: all of red, green and blue.
pub const COLOR_LIMIT: u32 = 0xFF_FFFF;

/// The value of a hexadecimal digit, in either case, if the character is
/// one.
pub open spec fn hex_digit(c: char) -> Option<u32> {
    if '0' <= c && c <= '9' {
        Some((c as u32 - '0' as u32) as u32)
    } else if 'a' <= c && c <= 'f' {
        Some((c as u32 - 'a' as u32 + 10) as u32)
    } else if 'A' <= c && c <= 'F' {
        Some((c as u32 - 'A' as u32 + 10) as u32)
    } else {
        None
    }
}

/// Whether every character is a hexadecimal digit.
pub open spec fn all_hex(digits: Seq<char>) -> bool {
    forall|i: int| 0 <= i < digits.len() ==> hex_digit(#[trigger] digits[i]) is Some
}

/// The number that hexadecimal digits write, the first digit counting most.
pub open spec fn hex_value(digits: Seq<char>) -> nat
    decreases digits.len(),
{
    if digits.len() == 0 {
        0
    } else {
        hex_value(digits.drop_last()) * 16 + match hex_digit(digits.last()) {
            Some(d) => d as nat,
            None => 0,
        }
    }
}

/// The digits of a color written as text: what follows one `#`, where the
/// text starts with one, and then one `+`, where the rest starts with one.
pub open spec fn color_digits(text: Seq<char>) -> Seq<char> {
    let rest = if text.len() > 0 && text[0] == '#' {
        text.skip(1)
    } else {
        text
    };
    if rest.len() > 0 && rest[0] == '+' {
        rest.skip(1)
    } else {
        rest
    }
}

/// The color that a text writes, if it writes one: it has at least one
/// digit, all its digits are hexadecimal, and they write a number that is
/// a color. Digits beyond six are accepted where they are leading zeros.
pub open spec fn color_of(text: Seq<char>) -> Option<u32> {
    let digits = color_digits(text);
    if digits.len() > 0 && all_hex(digits) && hex_value(digits) <= COLOR_LIMIT {
        Some(hex_value(digits) as u32)
    } else {
        None
    }
}

/// One more digit multiplies the number by sixteen and adds the digit.
proof fn lemma_hex_step(digits: Seq<char>, k: int)
    requires
        0 <= k < digits.len(),
    ensures
        hex_value(digits.take(k + 1)) == hex_value(digits.take(k)) * 16 + match hex_digit(
            digits[k],
        ) {
            Some(d) => d as nat,
            None => 0,
        },
{
    assert(digits.take(k + 1).drop_last() =~= digits.take(k));
}

/// The first digits write a number that is no larger than what all digits
/// write.
proof fn lemma_hex_prefix(digits: Seq<char>, k: int)
    requires
        0 <= k <= digits.len(),
    ensures
        hex_value(digits.take(k)) <= hex_value(digits),
    decreases digits.len() - k,
{
    if k < digits.len() {
        lemma_hex_step(digits, k);
        lemma_hex_prefix(digits, k + 1);
    } else {
        assert(digits.take(k) =~= digits);
    }
}

/// The value of a byte as a hexadecimal digit, if it is one.
fn digit_of(byte: u8) -> (r: Option<u32>)
    ensures
        r == hex_digit(byte as char),
{
    if 48 <= byte && byte <= 57 {
        Some((byte - 48) as u32)
    } else if 97 <= byte && byte <= 102 {
        Some((byte - 87) as u32)
    } else if 65 <= byte && byte <= 70 {
        Some((byte - 55) as u32)
    } else {
        None
    }
}

/// A text that holds a character outside ASCII writes no color.
proof fn lemma_not_ascii_is_no_color(text: Seq<char>)
    requires
        !is_ascii_chars(text),
    ensures
        color_of(text) is None,
{
    let i = choose|i: int| 0 <= i < text.len() && !('\0' <= #[trigger] text[i] <= '\u{7f}');
    let digits = color_digits(text);
    let offset = text.len() - digits.len();
    assert(offset <= i) by {
        if text[0] == '#' && text.len() > 1 && text[1] == '+' {
            assert(i != 0 && i != 1);
        }
    }
    assert(digits[i - offset] == text[i]);
    assert(hex_digit(digits[i - offset]) is None);
}

/// Reads a color that is written as text: hexadecimal digits in either case,
/// behind an optional `#` and an optional `+`, that write a number up to
/// `FFFFFF`. Every other text is refused.
pub fn color_from_string(text: &str) -> (r: Result<u32, FormatError>)
    ensures
        match color_of(text@) {
            Some(rgb) => r == Ok::<u32, FormatError>(rgb),
            None => r == Err::<u32, FormatError>(FormatError::InvalidColor),
        },
{
    if !text.is_ascii() {
        proof {
            lemma_not_ascii_is_no_color(text@);
        }
        return Err(FormatError::InvalidColor);
    }
    let n = text.unicode_len();
    let mut start: usize = 0;
    if start < n && text.get_ascii(start) == 35 {
        start += 1;
    }
    if start < n && text.get_ascii(start) == 43 {
        start += 1;
    }
    let ghost digits = color_digits(text@);
    proof {
        assert(digits =~= text@.skip(start as int));
    }
    if start == n {
        return Err(FormatError::InvalidColor);
    }
    let mut value: u32 = 0;
    let mut i: usize = start;
    while i < n
        invariant
            start <= i <= n,
            start < n,
            n == text@.len(),
            is_ascii(text),
            digits == color_digits(text@),
            digits == text@.skip(start as int),
            all_hex(digits.take(i - start)),
            value == hex_value(digits.take(i - start)),
            value <= COLOR_LIMIT,
        decreases n - i,
    {
        let byte = text.get_ascii(i);
        proof {
            lemma_hex_step(digits, i - start);
            assert(digits[i - start] == text@[i as int]);
            assert(byte as char == text@[i as int]);
        }
        let digit = match digit_of(byte) {
            Some(d) => d,
            None => {
                return Err(FormatError::InvalidColor);
            },
        };
        value = value * 16 + digit;
        if value > COLOR_LIMIT {
            proof {
                lemma_hex_prefix(digits, i - start + 1);
            }
            return Err(FormatError::InvalidColor);
        }
        proof {
            assert forall|j: int| 0 <= j < i + 1 - start implies hex_digit(
                #[trigger] digits.take(i + 1 - start)[j],
            ) is Some by {
                if j < i - start {
                    assert(digits.take(i - start)[j] == digits.take(i + 1 - start)[j]);
                }
            }
        }
        i += 1;
    }
    proof {
        assert(digits.take(n - start) =~= digits);
    }
    Ok(value)
}

} // verus!
