//! Text handling from the standard library that the parsers use: splitting a
//! string at a separator and reading a decimal integer, each with the
//! contract that the standard library documents for it.
use std::num::ParseIntError;
use vstd::prelude::*;

verus! {

/// `std::num::ParseIntError`, carried through as an opaque value.
#[verifier::external_type_specification]
#[verifier::external_body]
pub struct ExParseIntError(std::num::ParseIntError);

/// `std::num::ParseFloatError`, carried through as an opaque value.
#[verifier::external_type_specification]
#[verifier::external_body]
pub struct ExParseFloatError(std::num::ParseFloatError);

/// `std::io::Error`, carried through as an opaque value.
#[verifier::external_type_specification]
#[verifier::external_body]
pub struct ExIoError(std::io::Error);

/// The pieces of `s` between the occurrences of `sep`, in order: one more
/// piece than there are separators, empty pieces included.
pub open spec fn split_pieces(s: Seq<char>, sep: char) -> Seq<Seq<char>>
    decreases s.len(),
{
    if s.len() == 0 {
        seq![Seq::<char>::empty()]
    } else {
        let r = split_pieces(s.drop_last(), sep);
        if s.last() == sep {
            r.push(Seq::<char>::empty())
        } else {
            r.update(r.len() - 1, r.last().push(s.last()))
        }
    }
}

/// Calls `str::split` with a character separator and collects the pieces:
/// std documents them as the substrings between the matches of the
/// separator, from the first to the last.
#[verifier::external_body]
pub(crate) fn split_by<'a>(s: &'a str, sep: char) -> (r: Vec<&'a str>)
    ensures
        r@.map_values(|p: &str| p@) == split_pieces(s@, sep),
{
    s.split(sep).collect()
}

/// Calls `str::split_once` with a character separator: std documents the
/// result as the text before and after the first occurrence of the
/// separator, or `None` where it does not occur.
#[verifier::external_body]
pub(crate) fn split_once_at<'a>(s: &'a str, sep: char) -> (r: Option<(&'a str, &'a str)>)
    ensures
        match r {
            None => !s@.contains(sep),
            Some((before, after)) => before@ + seq![sep] + after@ == s@ && !before@.contains(sep),
        },
{
    s.split_once(sep)
}

pub open spec fn is_decimal_digit(c: char) -> bool {
    '0' <= c && c <= '9'
}

/// The value of a string of decimal digits.
pub open spec fn decimal_value(s: Seq<char>) -> int
    decreases s.len(),
{
    if s.len() == 0 {
        0
    } else {
        decimal_value(s.drop_last()) * 10 + (s.last() as int - '0' as int)
    }
}

/// The value that `str::parse::<usize>` gives: an optional `+` followed by
/// at least one decimal digit, and a value that fits in `usize`.
pub open spec fn usize_literal(s: Seq<char>) -> Option<int> {
    let digits = if s.len() > 0 && s[0] == '+' {
        s.drop_first()
    } else {
        s
    };
    if digits.len() > 0 && (forall|i: int| 0 <= i < digits.len() ==> #[trigger] is_decimal_digit(
        digits[i],
    )) && decimal_value(digits) <= usize::MAX {
        Some(decimal_value(digits))
    } else {
        None
    }
}

/// Calls `str::parse::<usize>`: std documents that it accepts an optional `+`
/// sign followed by decimal digits only, and fails on an empty string, any
/// other character, or a value that does not fit.
#[verifier::external_body]
pub(crate) fn parse_usize(s: &str) -> (r: Result<usize, ParseIntError>)
    ensures
        match usize_literal(s@) {
            Some(v) => r matches Ok(x) && x == v,
            None => r is Err,
        },
{
    s.parse::<usize>()
}

} // verus!
