//! What parsing gives, stated over sequences of characters, and what
//! follows from that statement.

use crate::digit::{ascii_lowercase, is_digit_in, lemma_digit_ignores_case, radix_in_range};
use crate::error::ParseError;
use crate::numeral::{
    all_digits, digit_prefix_len, lemma_digit_prefix_len, lemma_digit_prefix_len_is,
    lemma_value_ignores_case, max_value, numeral_value, same_ignoring_case,
};
use vstd::prelude::*;

verus! {

/// What parsing `text` in the base `radix` gives.
///
/// An empty text is refused first, then a base outside 2 to 36. Otherwise
/// the leading run of digits decides: if the number it writes is too large
/// the outcome is `Overflow`; if it fits and a character follows that is no
/// digit, that character and its index are reported; and if the run is the
/// whole text, the outcome is the number.
pub open spec fn parse_outcome(text: Seq<char>, radix: u32) -> Result<u32, ParseError> {
    if text.len() == 0 {
        Err(ParseError::EmptyInput)
    } else if !radix_in_range(radix) {
        Err(ParseError::InvalidRadix)
    } else {
        let n = digit_prefix_len(text, radix);
        let value = numeral_value(text.take(n as int), radix);
        if value > max_value() {
            Err(ParseError::Overflow)
        } else if n < text.len() {
            Err(ParseError::InvalidDigit { character: text[n as int], position: n as usize })
        } else {
            Ok(value as u32)
        }
    }
}

/// Parsing succeeds exactly on a non-empty text, in a base from 2 to 36,
/// whose characters are all digits of the base and whose number fits in 32
/// unsigned bits; and the result is then that number.
pub proof fn lemma_success_is_exact(text: Seq<char>, radix: u32)
    ensures
        parse_outcome(text, radix) is Ok <==> text.len() > 0 && radix_in_range(radix)
            && all_digits(text, radix) && numeral_value(text, radix) <= max_value(),
        parse_outcome(text, radix) is Ok ==> parse_outcome(text, radix)->Ok_0 == numeral_value(
            text,
            radix,
        ),
{
    lemma_digit_prefix_len(text, radix);
    let n = digit_prefix_len(text, radix);
    if all_digits(text, radix) {
        lemma_digit_prefix_len_is(text, radix, text.len() as int);
    }
    if n == text.len() {
        assert(text.take(n as int) =~= text);
    }
}

/// A valid numeral whose number fits in 32 unsigned bits parses to that
/// number.
pub proof fn lemma_valid_numeral_parses(text: Seq<char>, radix: u32)
    requires
        text.len() > 0,
        radix_in_range(radix),
        all_digits(text, radix),
        numeral_value(text, radix) <= max_value(),
    ensures
        parse_outcome(text, radix) == Ok::<u32, ParseError>(numeral_value(text, radix) as u32),
{
    lemma_success_is_exact(text, radix);
}

/// An empty text is refused as empty, whatever the base.
pub proof fn lemma_empty_is_refused(text: Seq<char>, radix: u32)
    requires
        text.len() == 0,
    ensures
        parse_outcome(text, radix) == Err::<u32, ParseError>(ParseError::EmptyInput),
{
}

/// A base below 2 or above 36 is refused, whatever the text, unless the
/// text is empty.
pub proof fn lemma_bad_radix_is_refused(text: Seq<char>, radix: u32)
    requires
        text.len() > 0,
        !radix_in_range(radix),
    ensures
        parse_outcome(text, radix) == Err::<u32, ParseError>(ParseError::InvalidRadix),
{
}

/// A text that holds a character that is no digit of the base is refused
/// for its first such character, provided the digits before that character
/// write a number that fits in 32 unsigned bits.
pub proof fn lemma_bad_digit_is_refused(text: Seq<char>, radix: u32, i: int)
    requires
        radix_in_range(radix),
        0 <= i < text.len(),
        !is_digit_in(text[i], radix),
        numeral_value(text.take(digit_prefix_len(text, radix) as int), radix) <= max_value(),
    ensures
        digit_prefix_len(text, radix) <= i,
        !is_digit_in(text[digit_prefix_len(text, radix) as int], radix),
        parse_outcome(text, radix) == Err::<u32, ParseError>(
            ParseError::InvalidDigit {
                character: text[digit_prefix_len(text, radix) as int],
                position: digit_prefix_len(text, radix) as usize,
            },
        ),
{
    lemma_digit_prefix_len(text, radix);
    let n = digit_prefix_len(text, radix);
    if n > i {
        assert(text.take(n as int)[i] == text[i]);
    }
}

/// A valid numeral whose number does not fit in 32 unsigned bits is
/// refused as too large.
pub proof fn lemma_too_large_is_refused(text: Seq<char>, radix: u32)
    requires
        radix_in_range(radix),
        all_digits(text, radix),
        numeral_value(text, radix) > max_value(),
    ensures
        parse_outcome(text, radix) == Err::<u32, ParseError>(ParseError::Overflow),
{
    lemma_digit_prefix_len_is(text, radix, text.len() as int);
    assert(text.take(text.len() as int) =~= text);
}

/// Two texts that differ only in the case of their ASCII letters parse
/// alike: to the same number, or to the same failure at the same index.
pub proof fn lemma_case_is_ignored(a: Seq<char>, b: Seq<char>, radix: u32)
    requires
        same_ignoring_case(a, b),
    ensures
        match (parse_outcome(a, radix), parse_outcome(b, radix)) {
            (Ok(x), Ok(y)) => x == y,
            (
                Err(ParseError::InvalidDigit { character: c, position: p }),
                Err(ParseError::InvalidDigit { character: d, position: q }),
            ) => p == q && ascii_lowercase(c) == ascii_lowercase(d),
            (Err(e), Err(f)) => e == f,
            _ => false,
        },
{
    let n = digit_prefix_len(a, radix);
    lemma_digit_prefix_len(a, radix);
    assert forall|i: int| 0 <= i < n implies is_digit_in(#[trigger] b[i], radix) by {
        assert(a.take(n as int)[i] == a[i]);
        lemma_digit_ignores_case(a[i], b[i]);
    }
    if n < b.len() {
        lemma_digit_ignores_case(a[n as int], b[n as int]);
    }
    lemma_digit_prefix_len_is(b, radix, n as int);
    lemma_value_ignores_case(a.take(n as int), b.take(n as int), radix);
}

} // verus!
