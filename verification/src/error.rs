//! The ways in which parsing a numeral can fail, and how each is worded.

use vstd::prelude::*;
use vstd::string::StringExecFns;

verus! {

/// Why a text could not be read as a number.
#[derive(Clone, Copy, Debug, PartialEq, Eq, Structural)]
pub enum ParseError {
    /// The text has no characters.
    EmptyInput,
    /// The base is below 2 or above 36.
    InvalidRadix,
    /// The character at index `position`, counted in characters from 0, is
    /// no digit of the base.
    InvalidDigit { character: char, position: usize },
    /// The number does not fit in 32 unsigned bits.
    Overflow,
}

/// The character that writes the decimal digit `d`, for `d` below 10.
pub open spec fn decimal_digit(d: nat) -> char {
    ('0' as u32 + d) as char
}

/// `n` written in base ten, without leading zeros.
pub open spec fn decimal_text(n: nat) -> Seq<char>
    decreases n,
{
    if n < 10 {
        seq![decimal_digit(n)]
    } else {
        decimal_text(n / 10).push(decimal_digit(n % 10))
    }
}

/// The message that describes the failure `e`.
pub open spec fn message_text(e: ParseError) -> Seq<char> {
    match e {
        ParseError::EmptyInput => "cannot parse integer from empty string"@,
        ParseError::InvalidRadix => "radix must lie between 2 and 36"@,
        ParseError::InvalidDigit { character, position } => "invalid digit '"@.push(character)
            + "' at position "@ + decimal_text(position as nat),
        ParseError::Overflow => "number too large to fit in 32 unsigned bits"@,
    }
}

/// `String::push` of the standard library: the string afterwards is the
/// string before with the one character `c` added at its end.
#[verifier::external_body]
fn push_char(text: &mut String, c: char)
    ensures
        final(text)@ == old(text)@.push(c),
{
    text.push(c);
}

/// Appends `n`, written in base ten, to `out`.
pub fn push_decimal(out: &mut String, n: usize)
    ensures
        final(out)@ == old(out)@ + decimal_text(n as nat),
    decreases n,
{
    if n >= 10 {
        push_decimal(out, n / 10);
    }
    let low: u8 = (n % 10) as u8;
    push_char(out, (0x30u8 + low) as char);
}

impl ParseError {
    /// A sentence that describes the failure. For an invalid digit it
    /// names the character and its index.
    pub fn message(&self) -> (text: String)
        ensures
            text@ == message_text(*self),
    {
        match *self {
            ParseError::EmptyInput => String::from_str("cannot parse integer from empty string"),
            ParseError::InvalidRadix => String::from_str("radix must lie between 2 and 36"),
            ParseError::InvalidDigit { character, position } => {
                let mut text = String::from_str("invalid digit '");
                push_char(&mut text, character);
                text.append("' at position ");
                push_decimal(&mut text, position);
                text
            },
            ParseError::Overflow => String::from_str("number too large to fit in 32 unsigned bits"),
        }
    }
}

} // verus!
