//! The rules that a worksheet name has to meet.

use vstd::prelude::*;
use vstd::string::*;

verus! {

/// The largest number of characters that a worksheet name may have.
pub const NAME_LIMIT: usize = 31;

/// Why a worksheet name is refused.
#[derive(Clone, Copy, Debug, PartialEq, Eq, Structural)]
pub enum NameError {
    /// The name has no characters.
    Blank,
    /// The name has more than 31 characters.
    TooLong,
    /// The name holds one of the characters `* ? : [ ] \ /`.
    InvalidCharacter,
    /// The name starts or ends with an apostrophe.
    Apostrophe,
}

/// The characters that may not occur in a worksheet name.
pub open spec fn forbidden(c: char) -> bool {
    c == '*' || c == '?' || c == ':' || c == '[' || c == ']' || c == '\\' || c == '/'
}

/// The first rule, in the order of the variants of `NameError`, that a name
/// breaks.
pub open spec fn name_error(name: Seq<char>) -> Option<NameError> {
    if name.len() == 0 {
        Some(NameError::Blank)
    } else if name.len() > NAME_LIMIT {
        Some(NameError::TooLong)
    } else if exists|i: int| 0 <= i < name.len() && forbidden(#[trigger] name[i]) {
        Some(NameError::InvalidCharacter)
    } else if name[0] == '\'' || name[name.len() - 1] == '\'' {
        Some(NameError::Apostrophe)
    } else {
        None
    }
}

/// A name that breaks no rule: it has between 1 and 31 characters, none of
/// them forbidden, and neither starts nor ends with an apostrophe.
pub open spec fn valid_sheet_name(name: Seq<char>) -> bool {
    name_error(name) is None
}

fn is_forbidden(c: char) -> (r: bool)
    ensures
        r == forbidden(c),
{
    c == '*' || c == '?' || c == ':' || c == '[' || c == ']' || c == '\\' || c == '/'
}

/// Checks a worksheet name against the rules and names the first one that it
/// breaks.
pub fn check_sheet_name(name: &str) -> (r: Result<(), NameError>)
    ensures
        match name_error(name@) {
            Some(e) => r == Err::<(), NameError>(e),
            None => r == Ok::<(), NameError>(()),
        },
{
    let n = name.unicode_len();
    if n == 0 {
        return Err(NameError::Blank);
    }
    if n > NAME_LIMIT {
        return Err(NameError::TooLong);
    }
    let mut i: usize = 0;
    while i < n
        invariant
            i <= n,
            0 < n <= NAME_LIMIT,
            n == name@.len(),
            forall|j: int| 0 <= j < i ==> !forbidden(#[trigger] name@[j]),
        decreases n - i,
    {
        if is_forbidden(name.get_char(i)) {
            assert(forbidden(name@[i as int]));
            return Err(NameError::InvalidCharacter);
        }
        i += 1;
    }
    if name.get_char(0) == '\'' || name.get_char(n - 1) == '\'' {
        return Err(NameError::Apostrophe);
    }
    Ok(())
}

} // verus!
