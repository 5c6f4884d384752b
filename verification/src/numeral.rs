//! The mathematical meaning of a numeral: a sequence of digit characters
//! read most significant digit first.

use crate::digit::{ascii_lowercase, digit_value, is_digit_in, lemma_digit_ignores_case};
use vstd::prelude::*;

verus! {

/// The largest value that fits in 32 unsigned bits.
pub open spec fn max_value() -> nat {
    0xffff_ffff
}

/// What `c` adds to a numeral's value: its digit value, or nothing where
/// `c` is no digit.
pub open spec fn digit_or_zero(c: char) -> nat {
    match digit_value(c) {
        Some(d) => d,
        None => 0,
    }
}

/// The number that `digits` writes in the base `radix`, the first
/// character being the most significant digit. The empty sequence writes 0.
pub open spec fn numeral_value(digits: Seq<char>, radix: u32) -> nat
    decreases digits.len(),
{
    if digits.len() == 0 {
        0
    } else {
        numeral_value(digits.drop_last(), radix) * (radix as nat) + digit_or_zero(digits.last())
    }
}

/// Whether every character of `text` is a digit of the base `radix`.
pub open spec fn all_digits(text: Seq<char>, radix: u32) -> bool {
    forall|i: int| 0 <= i < text.len() ==> is_digit_in(#[trigger] text[i], radix)
}

/// How many characters at the start of `text` are digits of the base
/// `radix`: the index of the first character that is none, or the length
/// of `text` where all are.
pub open spec fn digit_prefix_len(text: Seq<char>, radix: u32) -> nat
    decreases text.len(),
{
    if text.len() == 0 || !is_digit_in(text[0], radix) {
        0
    } else {
        1 + digit_prefix_len(text.drop_first(), radix)
    }
}

/// `digit_prefix_len` stops at the first character that is no digit, and
/// not before.
pub proof fn lemma_digit_prefix_len(text: Seq<char>, radix: u32)
    ensures
        digit_prefix_len(text, radix) <= text.len(),
        all_digits(text.take(digit_prefix_len(text, radix) as int), radix),
        digit_prefix_len(text, radix) < text.len() ==> !is_digit_in(
            text[digit_prefix_len(text, radix) as int],
            radix,
        ),
    decreases text.len(),
{
    if text.len() > 0 && is_digit_in(text[0], radix) {
        let rest = text.drop_first();
        lemma_digit_prefix_len(rest, radix);
        let n = digit_prefix_len(text, radix);
        assert forall|i: int| 0 <= i < n implies is_digit_in(
            #[trigger] text.take(n as int)[i],
            radix,
        ) by {
            if i > 0 {
                assert(text[i] == rest.take(n - 1)[i - 1]);
            }
        }
    }
}

/// A position up to which all characters are digits, and which is the end
/// of `text` or holds a character that is no digit, is `digit_prefix_len`.
pub proof fn lemma_digit_prefix_len_is(text: Seq<char>, radix: u32, n: int)
    requires
        0 <= n <= text.len(),
        forall|i: int| 0 <= i < n ==> is_digit_in(#[trigger] text[i], radix),
        n < text.len() ==> !is_digit_in(text[n], radix),
    ensures
        digit_prefix_len(text, radix) == n,
    decreases n,
{
    if n > 0 {
        let rest = text.drop_first();
        assert(is_digit_in(text[0], radix));
        assert forall|i: int| 0 <= i < n - 1 implies is_digit_in(#[trigger] rest[i], radix) by {
            assert(rest[i] == text[i + 1]);
        }
        lemma_digit_prefix_len_is(rest, radix, n - 1);
    }
}

/// One more digit multiplies the value by the base and adds the digit.
pub proof fn lemma_value_step(text: Seq<char>, radix: u32, i: int)
    requires
        0 <= i < text.len(),
    ensures
        numeral_value(text.take(i + 1), radix) == numeral_value(text.take(i), radix) * (
        radix as nat) + digit_or_zero(text[i]),
{
    let longer = text.take(i + 1);
    assert(longer.drop_last() =~= text.take(i));
    assert(longer.last() == text[i]);
}

/// In a base of at least 1, a longer prefix never writes a smaller number.
pub proof fn lemma_value_monotone(text: Seq<char>, radix: u32, i: int, j: int)
    requires
        1 <= radix,
        0 <= i <= j <= text.len(),
    ensures
        numeral_value(text.take(i), radix) <= numeral_value(text.take(j), radix),
    decreases j - i,
{
    if i < j {
        lemma_value_monotone(text, radix, i, j - 1);
        lemma_value_step(text, radix, j - 1);
        let shorter = numeral_value(text.take(j - 1), radix);
        assert(shorter <= shorter * (radix as nat)) by (nonlinear_arith)
            requires
                1 <= radix,
        ;
    }
}

/// Whether `a` and `b` are the same text but for the case of their ASCII
/// letters.
pub open spec fn same_ignoring_case(a: Seq<char>, b: Seq<char>) -> bool {
    &&& a.len() == b.len()
    &&& forall|i: int|
        0 <= i < a.len() ==> ascii_lowercase(#[trigger] a[i]) == ascii_lowercase(b[i])
}

/// Texts that differ only in case write the same number.
pub proof fn lemma_value_ignores_case(a: Seq<char>, b: Seq<char>, radix: u32)
    requires
        same_ignoring_case(a, b),
    ensures
        numeral_value(a, radix) == numeral_value(b, radix),
    decreases a.len(),
{
    if a.len() > 0 {
        let last = a.len() - 1;
        assert(ascii_lowercase(a[last]) == ascii_lowercase(b[last]));
        lemma_digit_ignores_case(a[last], b[last]);
        assert forall|i: int| 0 <= i < last implies ascii_lowercase(
            #[trigger] a.drop_last()[i],
        ) == ascii_lowercase(b.drop_last()[i]) by {
            assert(ascii_lowercase(a[i]) == ascii_lowercase(b[i]));
        }
        lemma_value_ignores_case(a.drop_last(), b.drop_last(), radix);
    }
}

} // verus!
