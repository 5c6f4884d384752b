//! Parsing of unsigned 32-bit integers written in a positional numeral
//! system with a base between 2 and 36.
//!
//! `parse_radix` reads a text and reports a failure as a `ParseError`;
//! `from_str_radix` does the same and reports a failure in words. What
//! both return is stated by `outcome::parse_outcome`.

pub mod digit;
pub mod error;
pub mod numeral;
pub mod outcome;
pub mod parse;

pub use error::ParseError;
pub use parse::{from_str_radix, parse_radix};
