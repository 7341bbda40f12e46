//! Numbers as text.

use crate::number::{digit_value, digits_read, digits_value, is_digit};
use vstd::prelude::*;
use vstd::string::StringExecFns;

verus! {

/// The character that stands for a digit from zero to nine.
pub open spec fn digit(value: nat) -> char {
    (48 + value) as char
}

/// Dividing by at least two makes a number smaller.
pub proof fn lemma_quotient_is_smaller(number: nat, base: nat)
    requires
        2 <= base <= number,
    ensures
        number / base < number,
{
    assert(number / base < number) by (nonlinear_arith)
        requires
            2 <= base <= number,
    ;
}

/// A number written in a base from two to ten, without leading zeros.
pub open spec fn numeral(number: nat, base: nat) -> Seq<char>
    decreases number,
{
    if base < 2 || number < base {
        seq![digit(number)]
    } else {
        proof {
            lemma_quotient_is_smaller(number, base);
        }
        numeral(number / base, base).push(digit(number % base))
    }
}

/// Returns the text of a single digit.
pub fn write_digit(value: u64) -> (text: &'static str)
    requires
        value < 10,
    ensures
        text@ == seq![digit(value as nat)],
{
    proof {
        reveal_strlit("0");
        reveal_strlit("1");
        reveal_strlit("2");
        reveal_strlit("3");
        reveal_strlit("4");
        reveal_strlit("5");
        reveal_strlit("6");
        reveal_strlit("7");
        reveal_strlit("8");
        reveal_strlit("9");
    }
    let text: &'static str = match value {
        0 => "0",
        1 => "1",
        2 => "2",
        3 => "3",
        4 => "4",
        5 => "5",
        6 => "6",
        7 => "7",
        8 => "8",
        _ => "9",
    };
    proof {
        assert(text@ =~= seq![digit(value as nat)]);
    }
    text
}

/// Writes a number in a base from two to ten.
pub fn write_number(number: u64, base: u64) -> (text: String)
    requires
        2 <= base <= 10,
    ensures
        text@ == numeral(number as nat, base as nat),
    decreases number,
{
    if number < base {
        let text: String = write_digit(number).to_owned();
        text
    } else {
        proof {
            lemma_quotient_is_smaller(number as nat, base as nat);
        }
        let mut text: String = write_number(number / base, base);
        text.append(write_digit(number % base));
        proof {
            assert(text@ =~= numeral(number as nat, base as nat));
        }
        text
    }
}

/// A number is read back from its numeral: the text is made of digits of the base, it stands for the
/// number, and it has no leading zero unless it is a zero.
pub proof fn law_numeral_is_read_back(number: nat, base: nat)
    requires
        2 <= base <= 10,
    ensures
        digits_read(numeral(number, base), base) == Some(number),
        numeral(number, base)[0] == '0' ==> numeral(number, base).len() == 1,
    decreases number,
{
    let text = numeral(number, base);
    assert(digit_value(digit(number % base)) == Some(number % base)) by {
        lemma_digit_value((number % base) as nat);
    }
    if number < base {
        lemma_digit_value(number);
        assert(text.drop_last() =~= seq![]);
        reveal_with_fuel(digits_value, 2);
        assert(number % base == number) by (nonlinear_arith)
            requires
                number < base,
        ;
    } else {
        lemma_quotient_is_smaller(number, base);
        let quotient = number / base;
        law_numeral_is_read_back(quotient, base);
        let rest = numeral(quotient, base);
        assert(text.drop_last() =~= rest);
        assert(forall|i: int| 0 <= i < rest.len() ==> #[trigger] text[i] == rest[i]);
        assert(forall|i: int| 0 <= i < rest.len() ==> is_digit(#[trigger] rest[i], base));
        assert forall|i: int| 0 <= i < text.len() implies is_digit(#[trigger] text[i], base) by {
            if i < rest.len() {
                assert(is_digit(rest[i], base));
            }
        }
        assert(quotient * base + number % base == number) by (nonlinear_arith)
            requires
                base > 0,
                quotient == number / base,
        ;
        assert(quotient > 0) by (nonlinear_arith)
            requires
                0 < base <= number,
                quotient == number / base,
        ;
        if rest[0] == '0' {
            lemma_zero_numeral(quotient, base);
        }
    }
}

/// A numeral that is a zero stands for zero.
proof fn lemma_zero_numeral(number: nat, base: nat)
    requires
        2 <= base <= 10,
        number > 0,
    ensures
        numeral(number, base).len() > 0,
        numeral(number, base)[0] != '0',
    decreases number,
{
    if number >= base {
        lemma_quotient_is_smaller(number, base);
        assert(number / base > 0) by (nonlinear_arith)
            requires
                0 < base <= number,
        ;
        lemma_zero_numeral(number / base, base);
    }
}

/// What a digit is worth.
proof fn lemma_digit_value(value: nat)
    requires
        value < 10,
    ensures
        digit_value(digit(value)) == Some(value),
{
}

} // verus!
