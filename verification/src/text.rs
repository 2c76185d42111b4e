//! Characters, decimal numerals and small string utilities.
//!
//! Everything here is stated over `Seq<char>`, the view of `str` and
//! `String`, so that the formats built on top can be specified exactly.

use vstd::prelude::*;

verus! {

/// `String::push` appends one character to the end of the string. This is
/// taken on trust from the documentation of the standard library.
pub assume_specification[ String::push ](s: &mut String, ch: char)
    ensures
        final(s)@ == old(s)@.push(ch),
;

/// `c` is one of the ASCII digits `0` to `9`.
pub open spec fn is_digit(c: char) -> bool {
    '0' <= c && c <= '9'
}

/// The number that the ASCII digit `c` stands for.
pub open spec fn digit_value(c: char) -> nat {
    (c as u32 - '0' as u32) as nat
}

/// The ASCII digit for `d`, where `d < 10`.
pub open spec fn digit_char(d: nat) -> char {
    if d == 0 {
        '0'
    } else if d == 1 {
        '1'
    } else if d == 2 {
        '2'
    } else if d == 3 {
        '3'
    } else if d == 4 {
        '4'
    } else if d == 5 {
        '5'
    } else if d == 6 {
        '6'
    } else if d == 7 {
        '7'
    } else if d == 8 {
        '8'
    } else {
        '9'
    }
}

/// Every character of `s` is an ASCII digit.
pub open spec fn all_digits(s: Seq<char>) -> bool {
    forall|i: int| 0 <= i < s.len() ==> is_digit(#[trigger] s[i])
}

/// The shortest decimal numeral of `n`: no leading zero, except for `0`
/// itself.
pub open spec fn decimal(n: nat) -> Seq<char>
    decreases n,
{
    if n < 10 {
        seq![digit_char(n)]
    } else {
        decimal(n / 10).push(digit_char(n % 10))
    }
}

/// The decimal numeral of `n`, padded with a leading zero to at least two
/// characters.
pub open spec fn decimal_pad2(n: nat) -> Seq<char> {
    if n < 10 {
        seq!['0'].push(digit_char(n))
    } else {
        decimal(n)
    }
}

/// The decimal numeral of a signed number: a minus sign in front of the
/// numeral of its magnitude when it is negative.
pub open spec fn signed_decimal(n: int) -> Seq<char> {
    if n < 0 {
        seq!['-'] + decimal((-n) as nat)
    } else {
        decimal(n as nat)
    }
}

/// The number that a sequence of ASCII digits denotes in base ten; `0` for
/// the empty sequence.
pub open spec fn digits_value(s: Seq<char>) -> nat
    decreases s.len(),
{
    if s.len() == 0 {
        0
    } else {
        digits_value(s.drop_last()) * 10 + digit_value(s.last())
    }
}

/// What an unsigned decimal field denotes: an optional `+`, then one or
/// more ASCII digits and nothing else. `None` for every other text.
pub open spec fn unsigned_field(s: Seq<char>) -> Option<nat> {
    let body = if s.len() > 0 && s[0] == '+' {
        s.skip(1)
    } else {
        s
    };
    if body.len() > 0 && all_digits(body) {
        Some(digits_value(body))
    } else {
        None
    }
}

/// The pieces of `s` between occurrences of `sep`. There is always one
/// piece more than there are separators, so the empty text has one empty
/// piece.
pub open spec fn split(s: Seq<char>, sep: char) -> Seq<Seq<char>>
    decreases s.len(),
{
    if s.len() == 0 {
        seq![Seq::<char>::empty()]
    } else {
        let before = split(s.drop_last(), sep);
        if s.last() == sep {
            before.push(Seq::<char>::empty())
        } else {
            before.drop_last().push(before.last().push(s.last()))
        }
    }
}

/// `c` does not occur in `s`.
pub open spec fn free_of(s: Seq<char>, c: char) -> bool {
    forall|i: int| 0 <= i < s.len() ==> #[trigger] s[i] != c
}

/// The ASCII lower-case form of `c`; other characters are unchanged.
pub open spec fn ascii_lower(c: char) -> char {
    if 'A' <= c && c <= 'Z' {
        ((c as u32 + 32) as u8) as char
    } else {
        c
    }
}

/// The views of the strings in `v`, in order.
pub open spec fn views(v: Seq<String>) -> Seq<Seq<char>> {
    Seq::new(v.len(), |i: int| v[i]@)
}

/// A numeral is made of digits: one for a number below ten, more for any
/// other.
pub proof fn lemma_decimal_is_digits(n: nat)
    ensures
        all_digits(decimal(n)),
        decimal(n).len() >= 1,
        n >= 10 ==> decimal(n).len() >= 2,
        n < 10 ==> decimal(n).len() == 1,
    decreases n,
{
    if n >= 10 {
        lemma_decimal_is_digits(n / 10);
    }
}

/// Reading a numeral back gives the number it was written from.
pub proof fn lemma_decimal_round_trip(n: nat)
    ensures
        digits_value(decimal(n)) == n,
    decreases n,
{
    if n < 10 {
        let s = decimal(n);
        assert(s.drop_last() =~= Seq::<char>::empty());
        assert(digits_value(s.drop_last()) == 0);
        assert(s.last() == digit_char(n));
    } else {
        lemma_decimal_round_trip(n / 10);
        let s = decimal(n);
        assert(s.drop_last() =~= decimal(n / 10));
        assert(s.last() == digit_char(n % 10));
    }
}

/// A text without the separator is its own single piece.
pub proof fn lemma_split_single(s: Seq<char>, sep: char)
    requires
        free_of(s, sep),
    ensures
        split(s, sep) =~= seq![s],
    decreases s.len(),
{
    if s.len() > 0 {
        lemma_split_single(s.drop_last(), sep);
        assert(s.drop_last().push(s.last()) =~= s);
    } else {
        assert(s =~= Seq::<char>::empty());
    }
}

/// Appending a separator and a separator-free piece adds that piece.
pub proof fn lemma_split_append(a: Seq<char>, b: Seq<char>, sep: char)
    requires
        free_of(b, sep),
    ensures
        split(a.push(sep) + b, sep) =~= split(a, sep).push(b),
    decreases b.len(),
{
    let whole = a.push(sep) + b;
    if b.len() == 0 {
        assert(whole =~= a.push(sep));
        assert(whole.drop_last() =~= a);
        assert(b =~= Seq::<char>::empty());
    } else {
        lemma_split_append(a, b.drop_last(), sep);
        assert(whole.drop_last() =~= a.push(sep) + b.drop_last());
        assert(whole.last() == b.last());
        assert(b.drop_last().push(b.last()) =~= b);
    }
}

/// `a` comes before `b`, or is `b`, in the order of a dictionary: the texts
/// are compared character by character, and a text comes before every
/// text that it begins.
pub open spec fn lex_le(a: Seq<char>, b: Seq<char>) -> bool
    decreases a.len(),
{
    if a.len() == 0 {
        true
    } else if b.len() == 0 {
        false
    } else if a[0] == b[0] {
        lex_le(a.skip(1), b.skip(1))
    } else {
        a[0] < b[0]
    }
}

/// Every text comes before itself.
pub proof fn lemma_lex_le_reflexive(a: Seq<char>)
    ensures
        lex_le(a, a),
    decreases a.len(),
{
    if a.len() > 0 {
        lemma_lex_le_reflexive(a.skip(1));
    }
}

/// Two texts that begin with texts of one length are ordered by those
/// beginnings where they differ, and by what follows where they do not.
pub proof fn lemma_lex_le_concat(x: Seq<char>, y: Seq<char>, s: Seq<char>, t: Seq<char>)
    requires
        x.len() == y.len(),
    ensures
        lex_le(x + s, y + t) == if x == y {
            lex_le(s, t)
        } else {
            lex_le(x, y)
        },
    decreases x.len(),
{
    if x.len() == 0 {
        assert(x =~= y);
        assert(x + s =~= s);
        assert(y + t =~= t);
    } else {
        assert((x + s)[0] == x[0]);
        assert((y + t)[0] == y[0]);
        assert((x + s).skip(1) =~= x.skip(1) + s);
        assert((y + t).skip(1) =~= y.skip(1) + t);
        lemma_lex_le_concat(x.skip(1), y.skip(1), s, t);
        if x[0] == y[0] {
            if x.skip(1) == y.skip(1) {
                assert(x =~= seq![x[0]] + x.skip(1));
                assert(y =~= seq![y[0]] + y.skip(1));
            } else {
                assert(x != y);
            }
        }
    }
}

/// Single characters are ordered as texts the way they are ordered as
/// characters.
pub proof fn lemma_lex_le_single(c: char, d: char)
    ensures
        lex_le(seq![c], seq![d]) == (c <= d),
{
    let s = seq![c];
    let t = seq![d];
    assert(s.skip(1).len() == 0);
    assert(lex_le(s.skip(1), t.skip(1)));
}

/// The digits are ordered as their values are.
pub proof fn lemma_digit_char_ordered(a: nat, b: nat)
    requires
        a <= b < 10,
    ensures
        digit_char(a) <= digit_char(b),
        a < b ==> digit_char(a) < digit_char(b),
{
}

/// Numerals of one length are ordered as their numbers are, and differ
/// when their numbers differ.
pub proof fn lemma_numerals_ordered(a: nat, b: nat)
    requires
        a <= b,
        decimal(a).len() == decimal(b).len(),
    ensures
        lex_le(decimal(a), decimal(b)),
        decimal(a) == decimal(b) <==> a == b,
    decreases b,
{
    lemma_decimal_round_trip(a);
    lemma_decimal_round_trip(b);
    lemma_decimal_is_digits(a);
    lemma_decimal_is_digits(b);
    if b < 10 {
        lemma_digit_char_ordered(a, b);
        lemma_lex_le_single(digit_char(a), digit_char(b));
        assert(decimal(a) =~= seq![digit_char(a)]);
        assert(decimal(b) =~= seq![digit_char(b)]);
    } else {
        let x = decimal(a / 10);
        let y = decimal(b / 10);
        let s = seq![digit_char(a % 10)];
        let t = seq![digit_char(b % 10)];
        assert(decimal(a) =~= x + s);
        assert(decimal(b) =~= y + t);
        lemma_numerals_ordered(a / 10, b / 10);
        lemma_lex_le_concat(x, y, s, t);
        if x == y {
            assert(a / 10 == b / 10);
            lemma_digit_char_ordered(a % 10, b % 10);
            lemma_lex_le_single(digit_char(a % 10), digit_char(b % 10));
        }
    }
}

/// The ASCII digit for `d`.
pub fn digit_to_char(d: u8) -> (c: char)
    requires
        d < 10,
    ensures
        c == digit_char(d as nat),
        is_digit(c),
        digit_value(c) == d,
{
    match d {
        0 => '0',
        1 => '1',
        2 => '2',
        3 => '3',
        4 => '4',
        5 => '5',
        6 => '6',
        7 => '7',
        8 => '8',
        _ => '9',
    }
}

/// The value of `c` when it is an ASCII digit.
pub fn char_to_digit(c: char) -> (d: Option<u8>)
    ensures
        d is Some <==> is_digit(c),
        d matches Some(v) ==> v == digit_value(c) && v < 10,
{
    if '0' <= c && c <= '9' {
        Some((c as u32 - '0' as u32) as u8)
    } else {
        None
    }
}

/// The ASCII lower-case form of `c`.
pub fn to_ascii_lower(c: char) -> (out: char)
    ensures
        out == ascii_lower(c),
{
    if 'A' <= c && c <= 'Z' {
        ((c as u32 + 32) as u8) as char
    } else {
        c
    }
}

/// The characters of `s`, in order.
pub fn chars_of(s: &str) -> (out: Vec<char>)
    ensures
        out@ == s@,
{
    let mut out: Vec<char> = Vec::new();
    for c in it: s.chars()
        invariant
            out@ == it.seq().take(it.index() as int),
            it.seq() == s@,
    {
        out.push(c);
    }
    out
}

/// The string that holds exactly the characters of `chars`.
pub fn string_of(chars: &Vec<char>) -> (out: String)
    ensures
        out@ == chars@,
{
    let mut out = String::new();
    let mut i: usize = 0;
    while i < chars.len()
        invariant
            i <= chars.len(),
            out@ == chars@.take(i as int),
        decreases chars.len() - i,
    {
        out.push(chars[i]);
        i += 1;
    }
    out
}

/// Appends the characters of `s` to `out`.
pub fn push_str(out: &mut Vec<char>, s: &str)
    ensures
        final(out)@ == old(out)@ + s@,
{
    let ghost before = out@;
    for c in it: s.chars()
        invariant
            out@ == before + it.seq().take(it.index() as int),
            it.seq() == s@,
    {
        out.push(c);
    }
}

/// Appends the decimal numeral of `n` to `out`.
pub fn push_decimal(out: &mut Vec<char>, n: u64)
    ensures
        final(out)@ == old(out)@ + decimal(n as nat),
    decreases n,
{
    if n >= 10 {
        push_decimal(out, n / 10);
    }
    out.push(digit_to_char((n % 10) as u8));
}

/// Appends the numeral of `n` to `out`, zero-padded to two characters.
pub fn push_decimal_pad2(out: &mut Vec<char>, n: u64)
    ensures
        final(out)@ == old(out)@ + decimal_pad2(n as nat),
{
    if n < 10 {
        out.push('0');
        out.push(digit_to_char(n as u8));
    } else {
        push_decimal(out, n);
    }
}

/// Appends the numeral of the signed number `n` to `out`.
pub fn push_signed_decimal(out: &mut Vec<char>, n: i32)
    ensures
        final(out)@ == old(out)@ + signed_decimal(n as int),
{
    if n < 0 {
        out.push('-');
        let magnitude: u64 = (-(n as i64)) as u64;
        push_decimal(out, magnitude);
    } else {
        push_decimal(out, n as u64);
    }
}

/// Reads the unsigned decimal field held in `chars[from..to]`, if it is one
/// and its value fits in 32 bits.
pub fn parse_u32_field(chars: &Vec<char>, from: usize, to: usize) -> (out: Option<u32>)
    requires
        from <= to <= chars.len(),
    ensures
        out == match unsigned_field(chars@.subrange(from as int, to as int)) {
            Some(v) => if v <= u32::MAX {
                Some(v as u32)
            } else {
                None
            },
            None => None,
        },
{
    let ghost field = chars@.subrange(from as int, to as int);
    let mut i: usize = from;
    if i < to && chars[i] == '+' {
        i += 1;
    }
    let start: usize = i;
    let ghost body = chars@.subrange(start as int, to as int);
    assert(body =~= if field.len() > 0 && field[0] == '+' {
        field.skip(1)
    } else {
        field
    });
    if start == to {
        return None;
    }
    let mut acc: u64 = 0;
    let mut overflow = false;
    while i < to
        invariant
            start <= i <= to <= chars.len(),
            body == chars@.subrange(start as int, to as int),
            field == chars@.subrange(from as int, to as int),
            body == if field.len() > 0 && field[0] == '+' {
                field.skip(1)
            } else {
                field
            },
            all_digits(body.take(i - start)),
            !overflow ==> acc == digits_value(body.take(i - start)) && acc <= u32::MAX,
            overflow ==> digits_value(body.take(i - start)) > u32::MAX,
        decreases to - i,
    {
        let ghost seen = body.take(i - start);
        let ghost next = body.take(i - start + 1);
        assert(next.drop_last() =~= seen);
        assert(next.last() == chars@[i as int]);
        match char_to_digit(chars[i]) {
            None => {
                assert(!is_digit(body[i - start]));
                return None;
            },
            Some(d) => {
                if !overflow {
                    let wide: u64 = acc * 10 + d as u64;
                    if wide > u32::MAX as u64 {
                        overflow = true;
                    } else {
                        acc = wide;
                    }
                }
            },
        }
        i += 1;
    }
    assert(body.take(to - start) =~= body);
    if overflow {
        None
    } else {
        Some(acc as u32)
    }
}

/// The pieces of `chars` between occurrences of `sep`.
pub fn split_chars(chars: &Vec<char>, sep: char) -> (out: Vec<Vec<char>>)
    ensures
        out@.len() == split(chars@, sep).len(),
        forall|k: int| 0 <= k < out@.len() ==> (#[trigger] out@[k])@ == split(chars@, sep)[k],
{
    let mut out: Vec<Vec<char>> = Vec::new();
    let mut piece: Vec<char> = Vec::new();
    let mut i: usize = 0;
    assert(chars@.take(0) =~= Seq::<char>::empty());
    while i < chars.len()
        invariant
            i <= chars.len(),
            out@.len() + 1 == split(chars@.take(i as int), sep).len(),
            forall|k: int|
                0 <= k < out@.len() ==> (#[trigger] out@[k])@ == split(chars@.take(i as int), sep)[k],
            piece@ == split(chars@.take(i as int), sep).last(),
        decreases chars.len() - i,
    {
        let ghost seen = chars@.take(i as int);
        let ghost next = chars@.take(i + 1);
        assert(next.drop_last() =~= seen);
        assert(next.last() == chars@[i as int]);
        let c = chars[i];
        if c == sep {
            out.push(piece);
            piece = Vec::new();
        } else {
            piece.push(c);
        }
        i += 1;
    }
    assert(chars@.take(i as int) =~= chars@);
    out.push(piece);
    out
}

/// Whether `c` occurs in `chars`.
pub fn contains_char(chars: &Vec<char>, c: char) -> (found: bool)
    ensures
        found == !free_of(chars@, c),
{
    let mut i: usize = 0;
    while i < chars.len()
        invariant
            i <= chars.len(),
            forall|k: int| 0 <= k < i ==> #[trigger] chars@[k] != c,
        decreases chars.len() - i,
    {
        if chars[i] == c {
            return true;
        }
        i += 1;
    }
    false
}

} // verus!
