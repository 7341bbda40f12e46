//! Numbers from text.

use std::num::ParseIntError;
use std::str::FromStr;
use vstd::prelude::*;

verus! {

/// The error of the functions of the standard library that parse integers.
#[verifier::external_type_specification]
#[verifier::external_body]
pub struct ExParseIntError(std::num::ParseIntError);

/// The value of a character as a digit: the ten decimal digits, then the letters of either case.
pub open spec fn digit_value(c: char) -> Option<nat> {
    if '0' <= c && c <= '9' {
        Some((c as int - '0' as int) as nat)
    } else if 'a' <= c && c <= 'z' {
        Some((c as int - 'a' as int + 10) as nat)
    } else if 'A' <= c && c <= 'Z' {
        Some((c as int - 'A' as int + 10) as nat)
    } else {
        None
    }
}

/// Whether a character is a digit of a base.
pub open spec fn is_digit(c: char, base: nat) -> bool {
    digit_value(c) is Some && digit_value(c)->Some_0 < base
}

/// The number that some digits of a base stand for.
pub open spec fn digits_value(digits: Seq<char>, base: nat) -> nat
    decreases digits.len(),
{
    if digits.len() == 0 {
        0
    } else {
        digits_value(digits.drop_last(), base) * base + digit_value(digits.last())->Some_0
    }
}

/// The number that some digits of a base stand for, if they are digits of that base, and at least
/// one.
pub open spec fn digits_read(digits: Seq<char>, base: nat) -> Option<nat> {
    if digits.len() > 0 && (forall|i: int|
        0 <= i < digits.len() ==> is_digit(#[trigger] digits[i], base)) {
        Some(digits_value(digits, base))
    } else {
        None
    }
}

/// The number that a text stands for, which is made of digits and perhaps a plus sign before them.
pub open spec fn unsigned_read(text: Seq<char>, base: nat) -> Option<nat> {
    if text.len() > 0 && text[0] == '+' {
        digits_read(text.skip(1), base)
    } else {
        digits_read(text, base)
    }
}

/// The number that a text stands for, which is made of digits and perhaps a sign before them.
pub open spec fn signed_read(text: Seq<char>, base: nat) -> Option<int> {
    if text.len() > 0 && text[0] == '-' {
        match digits_read(text.skip(1), base) {
            Some(number) => Some(-(number as int)),
            None => None,
        }
    } else {
        match unsigned_read(text, base) {
            Some(number) => Some(number as int),
            None => None,
        }
    }
}

/// The error of [`u32::from_str_radix`] for a text that it does not accept.
pub uninterp spec fn radix_error(text: Seq<char>, radix: u32) -> ParseIntError;

/// The error of [`u32::from_str`] for a text that it does not accept.
pub uninterp spec fn u32_error(text: Seq<char>) -> ParseIntError;

/// The error of [`i32::from_str`] for a text that it does not accept.
pub uninterp spec fn i32_error(text: Seq<char>) -> ParseIntError;

/// [`u32::from_str_radix`] accepts exactly the texts that stand for a number in the base and in the
/// range of the type, and gives that number. Its error for any other text depends on the text and
/// the base alone.
pub assume_specification[ u32::from_str_radix ](src: &str, radix: u32) -> (result: Result<
    u32,
    ParseIntError,
>)
    requires
        2 <= radix <= 36,
    ensures
        result is Ok <==> (unsigned_read(src@, radix as nat) is Some && unsigned_read(
            src@,
            radix as nat,
        )->Some_0 <= u32::MAX),
        result is Ok ==> result->Ok_0 == unsigned_read(src@, radix as nat)->Some_0,
        result is Err ==> result->Err_0 == radix_error(src@, radix),
;

/// Parses a `u32`: [`u32::from_str`] accepts exactly the texts that stand for a decimal number in
/// the range of the type, and gives that number. Its error for any other text depends on the text
/// alone.
#[verifier::external_body]
pub(crate) fn parse_u32(text: &str) -> (result: Result<u32, ParseIntError>)
    ensures
        result is Ok <==> (unsigned_read(text@, 10) is Some && unsigned_read(text@, 10)->Some_0
            <= u32::MAX),
        result is Ok ==> result->Ok_0 == unsigned_read(text@, 10)->Some_0,
        result is Err ==> result->Err_0 == u32_error(text@),
{
    u32::from_str(text)
}

/// Parses an `i32`: [`i32::from_str`] accepts exactly the texts that stand for a decimal number,
/// with or without a sign, in the range of the type, and gives that number. Its error for any other
/// text depends on the text alone.
#[verifier::external_body]
pub(crate) fn parse_i32(text: &str) -> (result: Result<i32, ParseIntError>)
    ensures
        result is Ok <==> (signed_read(text@, 10) is Some && i32::MIN <= signed_read(
            text@,
            10,
        )->Some_0 <= i32::MAX),
        result is Ok ==> result->Ok_0 == signed_read(text@, 10)->Some_0,
        result is Err ==> result->Err_0 == i32_error(text@),
{
    i32::from_str(text)
}

} // verus!
