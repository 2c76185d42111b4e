//! Byte counts as text: bytes as they are, and kilobytes, megabytes and
//! gigabytes of 1024 with two decimals.

use vstd::prelude::*;
use crate::text::{
    decimal, digit_char, digit_to_char, lemma_digit_char_ordered, lemma_lex_le_concat,
    lemma_lex_le_reflexive, lemma_lex_le_single, lemma_numerals_ordered, lex_le, push_decimal,
    push_str, string_of,
};

verus! {

/// The unit in which a byte count is shown.
#[derive(Clone, Copy, Debug, PartialEq, Eq, Structural)]
pub enum SizeUnit {
    Bytes,
    Kilobytes,
    Megabytes,
    Gigabytes,
}

impl SizeUnit {
    /// How many bytes make one of the unit.
    pub open spec fn bytes(self) -> nat {
        match self {
            SizeUnit::Bytes => 1,
            SizeUnit::Kilobytes => 1024,
            SizeUnit::Megabytes => 1024 * 1024,
            SizeUnit::Gigabytes => 1024 * 1024 * 1024,
        }
    }

    /// The unit's place among the units, smallest first.
    pub open spec fn rank(self) -> nat {
        match self {
            SizeUnit::Bytes => 0,
            SizeUnit::Kilobytes => 1,
            SizeUnit::Megabytes => 2,
            SizeUnit::Gigabytes => 3,
        }
    }

    /// The unit's sign, with the blank that parts it from the number.
    pub open spec fn suffix(self) -> Seq<char> {
        match self {
            SizeUnit::Bytes => " B"@,
            SizeUnit::Kilobytes => " KB"@,
            SizeUnit::Megabytes => " MB"@,
            SizeUnit::Gigabytes => " GB"@,
        }
    }
}

/// The unit in which `size` is shown: the largest of which it holds at
/// least one.
pub open spec fn unit_of(size: u64) -> SizeUnit {
    if size < 1024 {
        SizeUnit::Bytes
    } else if size < 1024 * 1024 {
        SizeUnit::Kilobytes
    } else if size < 1024 * 1024 * 1024 {
        SizeUnit::Megabytes
    } else {
        SizeUnit::Gigabytes
    }
}

/// The quotient of `numerator` by `denominator`, rounded to the nearest
/// whole number, and to the even one of the two when it lies half way.
pub open spec fn round_half_even(numerator: nat, denominator: nat) -> nat {
    let quotient = numerator / denominator;
    let twice = 2 * (numerator % denominator);
    if twice > denominator || (twice == denominator && quotient % 2 == 1) {
        quotient + 1
    } else {
        quotient
    }
}

/// The number that is shown for `size`: the bytes themselves, or the
/// hundredths of the unit, rounded.
pub open spec fn shown_number(size: u64) -> nat {
    match unit_of(size) {
        SizeUnit::Bytes => size as nat,
        unit => round_half_even(size as nat * 100, unit.bytes()),
    }
}

/// A count of hundredths with two decimals.
pub open spec fn two_decimals(hundredths: nat) -> Seq<char> {
    decimal(hundredths / 100).push('.').push(digit_char(hundredths / 10 % 10)).push(
        digit_char(hundredths % 10),
    )
}

/// The text for a byte count; `未知` for none.
pub open spec fn size_text(size: Option<u64>) -> Seq<char> {
    match size {
        Some(s) => match unit_of(s) {
            SizeUnit::Bytes => decimal(s as nat) + SizeUnit::Bytes.suffix(),
            unit => two_decimals(shown_number(s)) + unit.suffix(),
        },
        None => "未知"@,
    }
}

/// Appends a count of hundredths with two decimals to `out`.
pub fn push_two_decimals(out: &mut Vec<char>, hundredths: u64)
    ensures
        final(out)@ == old(out)@ + two_decimals(hundredths as nat),
{
    push_decimal(out, hundredths / 100);
    out.push('.');
    out.push(digit_to_char((hundredths / 10 % 10) as u8));
    out.push(digit_to_char((hundredths % 10) as u8));
}

/// Rounds a quotient, given twice its remainder.
fn round_to_even(quotient: u128, twice: u128, denominator: u128) -> (rounded: u128)
    requires
        quotient < u64::MAX,
    ensures
        rounded == quotient + if twice > denominator || (twice == denominator && quotient % 2
            == 1) {
            1int
        } else {
            0int
        },
{
    if twice > denominator || (twice == denominator && quotient % 2 == 1) {
        quotient + 1
    } else {
        quotient
    }
}

/// The hundredths of `unit` that `size` comes to, rounded.
fn rounded_hundredths(size: u64, unit: SizeUnit) -> (out: u64)
    requires
        !(unit is Bytes),
    ensures
        out == round_half_even(size as nat * 100, unit.bytes()),
{
    let numerator: u128 = size as u128 * 100;
    let rounded: u128 = match unit {
        SizeUnit::Kilobytes | SizeUnit::Bytes => round_to_even(
            numerator / 1024,
            2 * (numerator % 1024),
            1024,
        ),
        SizeUnit::Megabytes => round_to_even(
            numerator / 1048576,
            2 * (numerator % 1048576),
            1048576,
        ),
        SizeUnit::Gigabytes => round_to_even(
            numerator / 1073741824,
            2 * (numerator % 1073741824),
            1073741824,
        ),
    };
    rounded as u64
}

/// Formats a byte count for display.
pub fn format_size(size: Option<u64>) -> (text: String)
    ensures
        text@ == size_text(size),
{
    match size {
        Some(s) => {
            let mut chars: Vec<char> = Vec::new();
            if s < 1024 {
                push_decimal(&mut chars, s);
                push_str(&mut chars, " B");
            } else if s < 1024 * 1024 {
                push_two_decimals(&mut chars, rounded_hundredths(s, SizeUnit::Kilobytes));
                push_str(&mut chars, " KB");
            } else if s < 1024 * 1024 * 1024 {
                push_two_decimals(&mut chars, rounded_hundredths(s, SizeUnit::Megabytes));
                push_str(&mut chars, " MB");
            } else {
                push_two_decimals(&mut chars, rounded_hundredths(s, SizeUnit::Gigabytes));
                push_str(&mut chars, " GB");
            }
            string_of(&chars)
        },
        None => String::from_str("未知"),
    }
}

/// Rounding keeps the order of the numerators.
pub proof fn lemma_round_half_even_ordered(a: nat, b: nat, denominator: nat)
    requires
        a <= b,
        denominator == 1024 || denominator == 1024 * 1024 || denominator == 1024 * 1024 * 1024,
    ensures
        round_half_even(a, denominator) <= round_half_even(b, denominator),
{
    if denominator == 1024 {
        assert(round_half_even(a, 1024) <= round_half_even(b, 1024));
    } else if denominator == 1024 * 1024 {
        assert(round_half_even(a, 1048576) <= round_half_even(b, 1048576));
    } else {
        assert(round_half_even(a, 1073741824) <= round_half_even(b, 1073741824));
    }
}

/// A larger byte count is never shown in a smaller unit, and within one
/// unit it is never shown as a smaller number. So the order of two byte
/// counts can be told from their units first and their numbers second.
pub proof fn lemma_format_size_is_monotonic(a: u64, b: u64)
    requires
        a <= b,
    ensures
        unit_of(a).rank() <= unit_of(b).rank(),
        unit_of(a) == unit_of(b) ==> shown_number(a) <= shown_number(b),
{
    if unit_of(a) == unit_of(b) && !(unit_of(a) is Bytes) {
        lemma_round_half_even_ordered(a as nat * 100, b as nat * 100, unit_of(a).bytes());
    }
}

/// Counts of hundredths whose texts have one length are ordered as their
/// texts are.
pub proof fn lemma_two_decimals_ordered(a: nat, b: nat, rest: Seq<char>)
    requires
        a <= b,
        two_decimals(a).len() == two_decimals(b).len(),
    ensures
        lex_le(two_decimals(a) + rest, two_decimals(b) + rest),
{
    let whole_a = decimal(a / 100).push('.');
    let whole_b = decimal(b / 100).push('.');
    let tens_a = seq![digit_char(a / 10 % 10)];
    let tens_b = seq![digit_char(b / 10 % 10)];
    let ones_a = seq![digit_char(a % 10)];
    let ones_b = seq![digit_char(b % 10)];
    assert(two_decimals(a) + rest =~= whole_a + (tens_a + (ones_a + rest)));
    assert(two_decimals(b) + rest =~= whole_b + (tens_b + (ones_b + rest)));
    lemma_numerals_ordered(a / 100, b / 100);
    lemma_lex_le_concat(decimal(a / 100), decimal(b / 100), seq!['.'], seq!['.']);
    lemma_lex_le_reflexive(seq!['.']);
    assert(whole_a =~= decimal(a / 100) + seq!['.']);
    assert(whole_b =~= decimal(b / 100) + seq!['.']);
    lemma_lex_le_concat(whole_a, whole_b, tens_a + (ones_a + rest), tens_b + (ones_b + rest));
    if whole_a == whole_b {
        assert(decimal(a / 100) =~= whole_a.drop_last());
        assert(decimal(b / 100) =~= whole_b.drop_last());
        assert(a / 100 == b / 100);
        lemma_digit_char_ordered(a / 10 % 10, b / 10 % 10);
        lemma_lex_le_single(tens_a[0], tens_b[0]);
        lemma_lex_le_concat(tens_a, tens_b, ones_a + rest, ones_b + rest);
        if tens_a == tens_b {
            assert(tens_a[0] == tens_b[0]);
            assert(a / 10 % 10 == b / 10 % 10);
            lemma_digit_char_ordered(a % 10, b % 10);
            lemma_lex_le_single(ones_a[0], ones_b[0]);
            lemma_lex_le_concat(ones_a, ones_b, rest, rest);
            lemma_lex_le_reflexive(rest);
        }
    }
}

/// Within one unit, the texts of two byte counts that have one length are
/// in the order of a dictionary when the counts are in order. Texts of
/// different lengths are not: `5 B` comes after `10 B`.
pub proof fn lemma_format_size_sorts_within_unit(a: u64, b: u64)
    requires
        a <= b,
        unit_of(a) == unit_of(b),
        size_text(Some(a)).len() == size_text(Some(b)).len(),
    ensures
        lex_le(size_text(Some(a)), size_text(Some(b))),
{
    let unit = unit_of(a);
    let rest = unit.suffix();
    if unit is Bytes {
        lemma_numerals_ordered(a as nat, b as nat);
        lemma_lex_le_concat(decimal(a as nat), decimal(b as nat), rest, rest);
        lemma_lex_le_reflexive(rest);
    } else {
        lemma_format_size_is_monotonic(a, b);
        lemma_two_decimals_ordered(shown_number(a), shown_number(b), rest);
    }
}

} // verus!
