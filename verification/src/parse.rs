//! Reading a text as an unsigned 32-bit number in a given base.

use crate::digit::{is_digit_in, is_valid_radix, radix_in_range, to_digit};
use crate::error::{message_text, ParseError};
use crate::numeral::{
    digit_prefix_len, lemma_digit_prefix_len, lemma_digit_prefix_len_is, lemma_value_monotone,
    lemma_value_step, numeral_value,
};
use crate::outcome::parse_outcome;
use std::str::Chars;
use vstd::prelude::*;
use vstd::std_specs::iter::IteratorSpec;
use vstd::string::StrSliceExecFns;

verus! {

/// Appends the digit `digit` to a numeral whose value so far is `total`:
/// `total * radix + digit`, or `None` where that exceeds 32 unsigned bits.
pub fn accumulate(total: u32, radix: u32, digit: u32) -> (next: Option<u32>)
    ensures
        match next {
            Some(t) => t == total * radix + digit,
            None => total * radix + digit > u32::MAX,
        },
{
    match total.checked_mul(radix) {
        None => None,
        Some(scaled) => scaled.checked_add(digit),
    }
}

/// Parses `text` as an unsigned number written in the base `radix`.
///
/// The digits are `'0'` to `'9'` and the ASCII letters, upper or lower
/// case, for 10 to 35. No sign, whitespace or separator is accepted.
pub fn parse_radix(text: &str, radix: u32) -> (result: Result<u32, ParseError>)
    ensures
        result == parse_outcome(text@, radix),
{
    if text.is_empty() {
        return Err(ParseError::EmptyInput);
    }
    if !is_valid_radix(radix) {
        return Err(ParseError::InvalidRadix);
    }
    let length: usize = text.unicode_len();
    let mut chars: Chars<'_> = text.chars();
    let mut total: u32 = 0;
    let mut position: usize = 0;
    proof {
        broadcast use vstd::string::axiom_spec_iter;

        assert(text@.skip(0) =~= text@);
    }
    loop
        invariant
            radix_in_range(radix),
            0 < length == text@.len(),
            position <= length,
            chars.remaining() == text@.skip(position as int),
            forall|i: int| 0 <= i < position ==> is_digit_in(#[trigger] text@[i], radix),
            total == numeral_value(text@.take(position as int), radix),
        decreases length - position,
    {
        proof {
            broadcast use vstd::string::next_postcondition;

        }
        let c: char = match chars.next() {
            Some(c) => c,
            None => {
                proof {
                    lemma_digit_prefix_len_is(text@, radix, position as int);
                    assert(text@.take(position as int) =~= text@);
                }
                return Ok(total);
            },
        };
        let digit: u32 = match to_digit(c, radix) {
            Some(d) => d,
            None => {
                proof {
                    lemma_digit_prefix_len_is(text@, radix, position as int);
                }
                return Err(ParseError::InvalidDigit { character: c, position });
            },
        };
        proof {
            lemma_value_step(text@, radix, position as int);
        }
        total = match accumulate(total, radix, digit) {
            Some(t) => t,
            None => {
                proof {
                    let n = digit_prefix_len(text@, radix);
                    lemma_digit_prefix_len(text@, radix);
                    if n <= position {
                        assert(!is_digit_in(text@[n as int], radix));
                    }
                    lemma_value_monotone(text@, radix, position + 1, n as int);
                }
                return Err(ParseError::Overflow);
            },
        };
        position = position + 1;
        assert(chars.remaining() =~= text@.skip(position as int));
    }
}

/// Parses `src` as an unsigned number written in the base `radix`, and
/// describes a failure in words.
///
/// The result is that of `parse_radix`, with the error replaced by its
/// message.
pub fn from_str_radix(src: &str, radix: u32) -> (result: Result<u32, String>)
    ensures
        match parse_outcome(src@, radix) {
            Ok(value) => result == Ok::<u32, String>(value),
            Err(e) => result is Err && result->Err_0@ == message_text(e),
        },
{
    match parse_radix(src, radix) {
        Ok(value) => Ok(value),
        Err(e) => Err(e.message()),
    }
}

} // verus!
