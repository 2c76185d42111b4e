//! Reading clock values out of the encoder's diagnostic output.
//!
//! The encoder prints a `Duration:` line when it inspects a file and
//! `time=` samples while it runs. Both hold a clock `HH:MM:SS.CC`. Clock
//! values are counted in hundredths of a second, which is the resolution
//! of the text, so no rounding takes place.

use vstd::prelude::*;
use crate::text::{chars_of, char_to_digit, digit_value, is_digit};

verus! {

/// Finds the `Duration:` line of a probe.
pub const DURATION_PATTERN: &'static str = "Duration: (\\d{2}):(\\d{2}):(\\d{2}\\.\\d{2})";

/// Finds a `time=` sample in a line of encoder output.
pub const TIME_PATTERN: &'static str = "time=(\\d{2}):(\\d{2}):(\\d{2}\\.\\d{2})";

/// What a search for the regular expression `pattern` in `haystack` finds:
/// the whole of the leftmost match first, then one entry per group in the
/// order of the opening parentheses, `None` where a group took no part in
/// the match. `None` when nothing matches, and when `pattern` is not
/// accepted as a regular expression.
pub uninterp spec fn regex_captures(pattern: Seq<char>, haystack: Seq<char>) -> Option<
    Seq<Option<Seq<char>>>,
>;

/// The views of a list of optional strings.
pub open spec fn group_views(groups: Seq<Option<String>>) -> Seq<Option<Seq<char>>> {
    Seq::new(
        groups.len(),
        |i: int|
            match groups[i] {
                Some(s) => Some(s@),
                None => None,
            },
    )
}

/// The view of what a search returned.
pub open spec fn captures_view(found: Option<Vec<Option<String>>>) -> Option<
    Seq<Option<Seq<char>>>,
> {
    match found {
        Some(groups) => Some(group_views(groups@)),
        None => None,
    }
}

/// Compiles `pattern` with `regex::Regex::new` and searches `haystack` with
/// `regex::Regex::captures`, copying the text of each group out of what
/// `regex::Captures::iter` yields. This is taken on trust, and it claims
/// nothing about which text matches: the result is only given its name, so
/// that the same pattern and text are known to give the same groups.
#[verifier::external_body]
fn find_captures(pattern: &str, haystack: &str) -> (found: Option<Vec<Option<String>>>)
    ensures
        captures_view(found) == regex_captures(pattern@, haystack@),
{
    match regex::Regex::new(pattern) {
        Ok(re) => re.captures(haystack).map(
            |caps| caps.iter().map(|group| group.map(|m| m.as_str().to_string())).collect(),
        ),
        Err(_) => None,
    }
}

/// The value of a field of exactly two ASCII digits.
pub open spec fn two_digits(s: Seq<char>) -> Option<nat> {
    if s.len() == 2 && is_digit(s[0]) && is_digit(s[1]) {
        Some(digit_value(s[0]) * 10 + digit_value(s[1]))
    } else {
        None
    }
}

/// The value, in hundredths, of a field `SS.CC` of ASCII digits.
pub open spec fn seconds_field(s: Seq<char>) -> Option<nat> {
    if s.len() == 5 && s[2] == '.' && two_digits(s.subrange(0, 2)) is Some && two_digits(
        s.subrange(3, 5),
    ) is Some {
        Some(two_digits(s.subrange(0, 2))->0 * 100 + two_digits(s.subrange(3, 5))->0)
    } else {
        None
    }
}

/// The text of group `k`, if the match has such a group and it took part.
pub open spec fn group_text(groups: Seq<Option<Seq<char>>>, k: int) -> Option<Seq<char>> {
    if 0 <= k < groups.len() {
        groups[k]
    } else {
        None
    }
}

/// The hours of a match, as a number.
pub open spec fn hours_of(groups: Seq<Option<Seq<char>>>) -> Option<nat> {
    match group_text(groups, 1) {
        Some(s) => two_digits(s),
        None => None,
    }
}

/// The minutes of a match, as a number.
pub open spec fn minutes_of(groups: Seq<Option<Seq<char>>>) -> Option<nat> {
    match group_text(groups, 2) {
        Some(s) => two_digits(s),
        None => None,
    }
}

/// The seconds of a match, in hundredths.
pub open spec fn centis_of(groups: Seq<Option<Seq<char>>>) -> Option<nat> {
    match group_text(groups, 3) {
        Some(s) => seconds_field(s),
        None => None,
    }
}

/// A number, or zero where there is none.
pub open spec fn or_zero(v: Option<nat>) -> nat {
    match v {
        Some(n) => n,
        None => 0,
    }
}

/// The clock of a match in hundredths of a second, when all three fields
/// are numerals.
pub open spec fn strict_clock(groups: Seq<Option<Seq<char>>>) -> Option<nat> {
    if hours_of(groups) is Some && minutes_of(groups) is Some && centis_of(groups) is Some {
        Some(hours_of(groups)->0 * 360000 + minutes_of(groups)->0 * 6000 + centis_of(groups)->0)
    } else {
        None
    }
}

/// The clock of a match in hundredths of a second, where a field that is
/// not a numeral counts as zero.
pub open spec fn lenient_clock(groups: Seq<Option<Seq<char>>>) -> nat {
    or_zero(hours_of(groups)) * 360000 + or_zero(minutes_of(groups)) * 6000 + or_zero(
        centis_of(groups),
    )
}

/// The largest value a clock text can hold: `99:99:99.99`.
pub const MAX_CLOCK: u64 = 36243999;

/// Reads the two digits at `at`.
fn read_two_digits(chars: &Vec<char>, at: usize) -> (out: Option<u64>)
    requires
        at + 2 <= chars.len(),
    ensures
        out matches Some(v) ==> v <= 99,
        match out {
            Some(v) => two_digits(chars@.subrange(at as int, at + 2)) == Some(v as nat),
            None => two_digits(chars@.subrange(at as int, at + 2)) is None,
        },
{
    let ghost field = chars@.subrange(at as int, at + 2);
    assert(field[0] == chars@[at as int] && field[1] == chars@[at + 1]);
    match (char_to_digit(chars[at]), char_to_digit(chars[at + 1])) {
        (Some(tens), Some(ones)) => Some(tens as u64 * 10 + ones as u64),
        _ => None,
    }
}

/// Reads a group that is to hold two digits.
fn read_two_digit_group(group: &Option<String>) -> (out: Option<u64>)
    ensures
        out matches Some(v) ==> v <= 99,
        match group {
            Some(s) => match out {
                Some(v) => two_digits(s@) == Some(v as nat),
                None => two_digits(s@) is None,
            },
            None => out is None,
        },
{
    match group {
        Some(s) => {
            let chars = chars_of(s.as_str());
            if chars.len() == 2 {
                assert(chars@.subrange(0, 2) =~= chars@);
                read_two_digits(&chars, 0)
            } else {
                None
            }
        },
        None => None,
    }
}

/// Reads a group that is to hold seconds with two decimals.
fn read_seconds_group(group: &Option<String>) -> (out: Option<u64>)
    ensures
        out matches Some(v) ==> v <= 9999,
        match group {
            Some(s) => match out {
                Some(v) => seconds_field(s@) == Some(v as nat),
                None => seconds_field(s@) is None,
            },
            None => out is None,
        },
{
    match group {
        Some(s) => {
            let chars = chars_of(s.as_str());
            if chars.len() == 5 && chars[2] == '.' {
                match (read_two_digits(&chars, 0), read_two_digits(&chars, 3)) {
                    (Some(whole), Some(part)) => Some(whole * 100 + part),
                    _ => None,
                }
            } else {
                None
            }
        },
        None => None,
    }
}

/// Reads the hours, the minutes and the hundredths of a match.
fn read_fields(groups: &Vec<Option<String>>) -> (out: (Option<u64>, Option<u64>, Option<u64>))
    ensures
        out.0 matches Some(v) ==> v <= 99,
        out.1 matches Some(v) ==> v <= 99,
        out.2 matches Some(v) ==> v <= 9999,
        match out.0 {
            Some(v) => hours_of(group_views(groups@)) == Some(v as nat),
            None => hours_of(group_views(groups@)) is None,
        },
        match out.1 {
            Some(v) => minutes_of(group_views(groups@)) == Some(v as nat),
            None => minutes_of(group_views(groups@)) is None,
        },
        match out.2 {
            Some(v) => centis_of(group_views(groups@)) == Some(v as nat),
            None => centis_of(group_views(groups@)) is None,
        },
{
    let hours = if groups.len() > 1 {
        read_two_digit_group(&groups[1])
    } else {
        None
    };
    let minutes = if groups.len() > 2 {
        read_two_digit_group(&groups[2])
    } else {
        None
    };
    let centis = if groups.len() > 3 {
        read_seconds_group(&groups[3])
    } else {
        None
    };
    (hours, minutes, centis)
}

/// A number, or zero where there is none.
fn value_or_zero(v: Option<u64>) -> (out: u64)
    ensures
        out == match v {
            Some(n) => n,
            None => 0,
        },
{
    match v {
        Some(n) => n,
        None => 0,
    }
}

/// The duration that a matched `Duration:` line states. A field that is
/// not a numeral of ASCII digits counts as zero.
pub fn duration_from_captures(groups: &Vec<Option<String>>) -> (centis: u64)
    ensures
        centis == lenient_clock(group_views(groups@)),
        centis <= MAX_CLOCK,
{
    let (hours, minutes, seconds) = read_fields(groups);
    value_or_zero(hours) * 360000 + value_or_zero(minutes) * 6000 + value_or_zero(seconds)
}

/// The running time that a matched `time=` sample states, if all of its
/// fields are numerals of ASCII digits.
pub fn time_from_captures(groups: &Vec<Option<String>>) -> (centis: Option<u64>)
    ensures
        match centis {
            Some(t) => strict_clock(group_views(groups@)) == Some(t as nat) && t <= MAX_CLOCK,
            None => strict_clock(group_views(groups@)) is None,
        },
{
    match read_fields(groups) {
        (Some(hours), Some(minutes), Some(seconds)) => Some(
            hours * 360000 + minutes * 6000 + seconds,
        ),
        _ => None,
    }
}

/// What a probe's output says about the file's duration.
pub open spec fn probed_duration(output: Seq<char>) -> Option<nat> {
    match regex_captures(DURATION_PATTERN@, output) {
        Some(groups) => Some(lenient_clock(groups)),
        None => None,
    }
}

/// What a line of encoder output says about the running time.
pub open spec fn sampled_time(line: Seq<char>) -> Option<nat> {
    match regex_captures(TIME_PATTERN@, line) {
        Some(groups) => strict_clock(groups),
        None => None,
    }
}

/// The duration, in hundredths of a second, stated by the first
/// `Duration:` line of a probe's output; `None` when there is no such line.
pub fn parse_probe_output(output: &str) -> (centis: Option<u64>)
    ensures
        match centis {
            Some(d) => probed_duration(output@) == Some(d as nat) && d <= MAX_CLOCK,
            None => probed_duration(output@) is None,
        },
{
    match find_captures(DURATION_PATTERN, output) {
        Some(groups) => Some(duration_from_captures(&groups)),
        None => None,
    }
}

/// The running time, in hundredths of a second, of the first `time=`
/// sample in a line of encoder output; `None` when the line holds none.
pub fn parse_time_sample(line: &str) -> (centis: Option<u64>)
    ensures
        match centis {
            Some(t) => sampled_time(line@) == Some(t as nat) && t <= MAX_CLOCK,
            None => sampled_time(line@) is None,
        },
{
    match find_captures(TIME_PATTERN, line) {
        Some(groups) => time_from_captures(&groups),
        None => None,
    }
}

} // verus!
