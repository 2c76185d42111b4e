use merge_mp4::text::{
    char_to_digit, chars_of, contains_char, digit_to_char, parse_u32_field, push_decimal,
    push_decimal_pad2, push_signed_decimal, push_str, split_chars, string_of, to_ascii_lower,
};

fn chars(text: &str) -> Vec<char> {
    text.chars().collect()
}

#[test]
fn digits_and_their_values() {
    for d in 0..10u8 {
        let c = digit_to_char(d);
        assert_eq!(c, (b'0' + d) as char);
        assert_eq!(char_to_digit(c), Some(d));
    }
    for c in ['/', ':', 'a', ' ', '٣', '\u{0}'] {
        assert_eq!(char_to_digit(c), None);
    }
}

#[test]
fn only_ascii_capitals_are_lowered() {
    assert_eq!(to_ascii_lower('A'), 'a');
    assert_eq!(to_ascii_lower('Z'), 'z');
    assert_eq!(to_ascii_lower('m'), 'm');
    assert_eq!(to_ascii_lower('4'), '4');
    assert_eq!(to_ascii_lower('É'), 'É');
    for c in ['@', '[', 'A', 'M', 'Z', 'a', 'İ'] {
        assert_eq!(to_ascii_lower(c), c.to_ascii_lowercase());
    }
}

#[test]
fn strings_and_characters_convert_both_ways() {
    for text in ["", "abc", "视频 1", "a\nb"] {
        assert_eq!(chars_of(text), chars(text));
        assert_eq!(string_of(&chars(text)), text);
    }
    let mut out = chars("ab");
    push_str(&mut out, "cd");
    push_str(&mut out, "");
    assert_eq!(out, chars("abcd"));
}

#[test]
fn numerals_have_no_leading_zero() {
    for n in [0u64, 7, 10, 99, 100, 12345, u32::MAX as u64, u64::MAX] {
        let mut out = chars("n=");
        push_decimal(&mut out, n);
        assert_eq!(string_of(&out), format!("n={}", n));
    }
}

#[test]
fn padded_numerals_have_two_digits_at_least() {
    for n in [0u64, 7, 9, 10, 99, 100, 1193046] {
        let mut out = Vec::new();
        push_decimal_pad2(&mut out, n);
        assert_eq!(string_of(&out), format!("{:02}", n));
    }
}

#[test]
fn signed_numerals_carry_their_sign() {
    for n in [0i32, 1, -1, 255, -1073741819, i32::MAX, i32::MIN] {
        let mut out = Vec::new();
        push_signed_decimal(&mut out, n);
        assert_eq!(string_of(&out), n.to_string());
    }
}

#[test]
fn a_field_is_read_where_it_is_an_unsigned_numeral() {
    let read = |text: &str| parse_u32_field(&chars(text), 0, text.chars().count());
    for text in ["0", "42", "+42", "007", "4294967295", "4294967296", "", "+", "-1", "4 2", "42x", "++1"] {
        assert_eq!(read(text), text.parse::<u32>().ok(), "text {:?}", text);
    }
    let line = chars("ab123cd");
    assert_eq!(parse_u32_field(&line, 2, 5), Some(123));
    assert_eq!(parse_u32_field(&line, 1, 5), None);
    assert_eq!(parse_u32_field(&line, 3, 3), None);
}

#[test]
fn a_text_splits_into_one_piece_more_than_it_has_separators() {
    for text in ["", ":", "a", "a:b", "a::b", ":a:", "1:02:03", "视:频"] {
        let pieces: Vec<String> = split_chars(&chars(text), ':').iter().map(string_of).collect();
        let expected: Vec<&str> = text.split(':').collect();
        assert_eq!(pieces, expected, "text {:?}", text);
    }
}

#[test]
fn a_character_is_found_where_it_occurs() {
    assert!(contains_char(&chars("it's"), '\''));
    assert!(!contains_char(&chars("its"), '\''));
    assert!(!contains_char(&chars(""), 'a'));
    assert!(contains_char(&chars("视频"), '频'));
}
