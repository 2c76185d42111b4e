//! Durations as text: `HH:MM:SS`, or `MM:SS` when there are no hours.

use vstd::prelude::*;
use crate::text::{
    all_digits, chars_of, decimal, decimal_pad2, digit_char, digits_value, free_of,
    lemma_decimal_is_digits, lemma_decimal_round_trip, lemma_split_append, lemma_split_single,
    parse_u32_field, push_decimal_pad2, split, split_chars, string_of, unsigned_field,
};

verus! {

/// The text for a duration of `seconds` whole seconds: hours, minutes and
/// seconds, each padded to two digits, with the hours left out when there
/// are none.
pub open spec fn duration_text(seconds: nat) -> Seq<char> {
    let hours = seconds / 3600;
    let minutes = (seconds % 3600) / 60;
    let rest = seconds % 60;
    if hours > 0 {
        (decimal_pad2(hours).push(':') + decimal_pad2(minutes)).push(':') + decimal_pad2(rest)
    } else {
        decimal_pad2(minutes).push(':') + decimal_pad2(rest)
    }
}

/// What one field of a duration counts: its value when it is an unsigned
/// numeral that fits in 32 bits, and nothing otherwise.
pub open spec fn field_value(piece: Seq<char>) -> nat {
    match unsigned_field(piece) {
        Some(v) => if v <= u32::MAX {
            v
        } else {
            0
        },
        None => 0,
    }
}

/// The seconds that a duration text stands for. `H:M:S` and `M:S` are
/// read; a field that is no numeral counts as zero, and so does a text of
/// any other shape.
pub open spec fn hms_seconds(text: Seq<char>) -> nat {
    let parts = split(text, ':');
    if parts.len() == 3 {
        field_value(parts[0]) * 3600 + field_value(parts[1]) * 60 + field_value(parts[2])
    } else if parts.len() == 2 {
        field_value(parts[0]) * 60 + field_value(parts[1])
    } else {
        0
    }
}

/// Formats a duration of `total_seconds` whole seconds.
pub fn format_duration(total_seconds: u32) -> (text: String)
    ensures
        text@ == duration_text(total_seconds as nat),
{
    let hours: u32 = total_seconds / 3600;
    let minutes: u32 = (total_seconds % 3600) / 60;
    let seconds: u32 = total_seconds % 60;
    let mut chars: Vec<char> = Vec::new();
    if hours > 0 {
        push_decimal_pad2(&mut chars, hours as u64);
        chars.push(':');
    }
    push_decimal_pad2(&mut chars, minutes as u64);
    chars.push(':');
    push_decimal_pad2(&mut chars, seconds as u64);
    assert(chars@ =~= duration_text(total_seconds as nat));
    string_of(&chars)
}

/// Reads one field of a duration.
fn read_field(piece: &Vec<char>) -> (value: u64)
    ensures
        value == field_value(piece@),
        value <= u32::MAX,
{
    assert(piece@.subrange(0, piece@.len() as int) =~= piece@);
    match parse_u32_field(piece, 0, piece.len()) {
        Some(v) => v as u64,
        None => 0,
    }
}

/// Reads a duration text back into seconds. The reading never fails: what
/// cannot be read counts as zero, so that texts can always be compared by
/// their durations. A duration beyond 32 bits is capped at `u32::MAX`.
pub fn parse_duration_to_seconds(duration: &str) -> (seconds: u32)
    ensures
        seconds == if hms_seconds(duration@) <= u32::MAX {
            hms_seconds(duration@)
        } else {
            u32::MAX as nat
        },
{
    let chars = chars_of(duration);
    let parts = split_chars(&chars, ':');
    let total: u64 = if parts.len() == 3 {
        read_field(&parts[0]) * 3600 + read_field(&parts[1]) * 60 + read_field(&parts[2])
    } else if parts.len() == 2 {
        read_field(&parts[0]) * 60 + read_field(&parts[1])
    } else {
        0
    };
    if total > u32::MAX as u64 {
        u32::MAX
    } else {
        total as u32
    }
}

/// A padded numeral reads back as its number.
pub proof fn lemma_pad2_field(n: nat)
    ensures
        unsigned_field(decimal_pad2(n)) == Some(n),
        free_of(decimal_pad2(n), ':'),
{
    let s = decimal_pad2(n);
    if n < 10 {
        assert(s.len() == 2 && s[0] == '0' && s[1] == digit_char(n));
        assert(all_digits(s));
        assert(s.drop_last() =~= seq!['0']);
        assert(seq!['0'].drop_last() =~= Seq::<char>::empty());
        assert(digits_value(seq!['0']) == 0) by {
            assert(digits_value(seq!['0'].drop_last()) == 0);
        }
        assert(digits_value(s) == n);
    } else {
        lemma_decimal_is_digits(n);
        lemma_decimal_round_trip(n);
        lemma_first_digit(n);
    }
}

/// A numeral begins with a digit.
proof fn lemma_first_digit(n: nat)
    ensures
        decimal(n).len() > 0,
        decimal(n)[0] != '+',
{
    lemma_decimal_is_digits(n);
}

/// Reading back a formatted duration gives the seconds it was made from.
pub proof fn lemma_format_then_parse(total_seconds: u32)
    ensures
        hms_seconds(duration_text(total_seconds as nat)) == total_seconds,
{
    let seconds = total_seconds as nat;
    let hours = seconds / 3600;
    let minutes = (seconds % 3600) / 60;
    let rest = seconds % 60;
    let h = decimal_pad2(hours);
    let m = decimal_pad2(minutes);
    let r = decimal_pad2(rest);
    lemma_pad2_field(hours);
    lemma_pad2_field(minutes);
    lemma_pad2_field(rest);
    if hours > 0 {
        lemma_split_single(h, ':');
        lemma_split_append(h, m, ':');
        lemma_split_append(h.push(':') + m, r, ':');
        let parts = split(duration_text(seconds), ':');
        assert(parts =~= seq![h, m, r]);
    } else {
        lemma_split_single(m, ':');
        lemma_split_append(m, r, ':');
        let parts = split(duration_text(seconds), ':');
        assert(parts =~= seq![m, r]);
    }
}

} // verus!
