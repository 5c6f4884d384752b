//! Digit characters and the values they stand for.

use vstd::prelude::*;

verus! {

/// The smallest base in which a numeral can be written.
pub const MIN_RADIX: u32 = 2;

/// The largest base: ten decimal digits and twenty-six letters.
pub const MAX_RADIX: u32 = 36;

/// Whether `radix` is a base this library can parse.
pub open spec fn radix_in_range(radix: u32) -> bool {
    MIN_RADIX <= radix <= MAX_RADIX
}

/// The value that the character `c` stands for as a digit: `'0'` to `'9'`
/// are 0 to 9, and the ASCII letters, in either case, are 10 to 35.
/// Every other character stands for no digit.
pub open spec fn digit_value(c: char) -> Option<nat> {
    if '0' <= c <= '9' {
        Some((c as u32 - '0' as u32) as nat)
    } else if 'a' <= c <= 'z' {
        Some((c as u32 - 'a' as u32 + 10) as nat)
    } else if 'A' <= c <= 'Z' {
        Some((c as u32 - 'A' as u32 + 10) as nat)
    } else {
        None
    }
}

/// `c` with an ASCII capital letter replaced by its small letter.
pub open spec fn ascii_lowercase(c: char) -> char {
    if 'A' <= c <= 'Z' {
        (c as u32 + 0x20) as char
    } else {
        c
    }
}

/// Two characters that differ only in case stand for the same digit.
pub proof fn lemma_digit_ignores_case(c: char, d: char)
    requires
        ascii_lowercase(c) == ascii_lowercase(d),
    ensures
        digit_value(c) == digit_value(d),
{
}

/// Whether `c` is a digit of the base `radix`.
pub open spec fn is_digit_in(c: char, radix: u32) -> bool {
    match digit_value(c) {
        Some(d) => d < radix,
        None => false,
    }
}

/// Whether `radix` lies between `MIN_RADIX` and `MAX_RADIX`.
pub fn is_valid_radix(radix: u32) -> (ok: bool)
    ensures
        ok == radix_in_range(radix),
{
    MIN_RADIX <= radix && radix <= MAX_RADIX
}

/// The digit that `c` stands for in the base `radix`, or `None` where `c`
/// is no digit of that base.
pub fn to_digit(c: char, radix: u32) -> (d: Option<u32>)
    ensures
        d is Some <==> is_digit_in(c, radix),
        d is Some ==> digit_value(c) == Some(d->0 as nat),
{
    let code: u32 = c as u32;
    let value: u32 = if '0' <= c && c <= '9' {
        code - '0' as u32
    } else if 'a' <= c && c <= 'z' {
        code - 'a' as u32 + 10
    } else if 'A' <= c && c <= 'Z' {
        code - 'A' as u32 + 10
    } else {
        return None;
    };
    if value < radix {
        Some(value)
    } else {
        None
    }
}

} // verus!
