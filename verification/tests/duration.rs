use merge_mp4::duration::{format_duration, parse_duration_to_seconds};

#[test]
fn duration_round_trip_examples() {
    assert_eq!(format_duration(3661.4f64.round() as u32), "01:01:01");
    assert_eq!(parse_duration_to_seconds("01:01:01"), 3661);
    assert_eq!(parse_duration_to_seconds("1:01"), 61);
    assert_eq!(parse_duration_to_seconds("garbage"), 0);
}

#[test]
fn format_leaves_out_the_hours_when_there_are_none() {
    assert_eq!(format_duration(0), "00:00");
    assert_eq!(format_duration(9), "00:09");
    assert_eq!(format_duration(59), "00:59");
    assert_eq!(format_duration(60), "01:00");
    assert_eq!(format_duration(3599), "59:59");
}

#[test]
fn format_pads_each_field_to_two_digits() {
    assert_eq!(format_duration(3600), "01:00:00");
    assert_eq!(format_duration(3600 + 5 * 60 + 7), "01:05:07");
    assert_eq!(format_duration(86399), "23:59:59");
}

#[test]
fn format_lets_the_hours_grow_beyond_two_digits() {
    assert_eq!(format_duration(360000), "100:00:00");
    assert_eq!(format_duration(u32::MAX), "1193046:28:15");
}

#[test]
fn format_agrees_with_padded_formatting() {
    for n in [0u32, 1, 61, 600, 3599, 3600, 3661, 36000, 86400, 1_000_000] {
        let (h, m, s) = (n / 3600, (n % 3600) / 60, n % 60);
        let expected = if h > 0 {
            format!("{:02}:{:02}:{:02}", h, m, s)
        } else {
            format!("{:02}:{:02}", m, s)
        };
        assert_eq!(format_duration(n), expected);
    }
}

#[test]
fn parse_reads_back_what_format_wrote() {
    let mut n: u32 = 0;
    loop {
        assert_eq!(parse_duration_to_seconds(&format_duration(n)), n);
        match n.checked_add(104_729) {
            Some(next) => n = next,
            None => break,
        }
    }
    assert_eq!(parse_duration_to_seconds(&format_duration(u32::MAX)), u32::MAX);
}

#[test]
fn parse_counts_an_unreadable_field_as_zero() {
    assert_eq!(parse_duration_to_seconds("aa:10"), 10);
    assert_eq!(parse_duration_to_seconds("2:xx"), 120);
    assert_eq!(parse_duration_to_seconds("1:zz:03"), 3603);
    assert_eq!(parse_duration_to_seconds(":"), 0);
    assert_eq!(parse_duration_to_seconds("::"), 0);
    assert_eq!(parse_duration_to_seconds("1: 2"), 60);
    assert_eq!(parse_duration_to_seconds("-1:02"), 2);
    assert_eq!(parse_duration_to_seconds("1.5:02"), 2);
}

#[test]
fn parse_takes_a_leading_plus_and_leading_zeros() {
    assert_eq!(parse_duration_to_seconds("+5:07"), 307);
    assert_eq!(parse_duration_to_seconds("0005:0007"), 307);
    assert_eq!(parse_duration_to_seconds("+:07"), 7);
}

#[test]
fn parse_gives_zero_for_any_other_shape() {
    assert_eq!(parse_duration_to_seconds(""), 0);
    assert_eq!(parse_duration_to_seconds("75"), 0);
    assert_eq!(parse_duration_to_seconds("1:2:3:4"), 0);
    assert_eq!(parse_duration_to_seconds("未知"), 0);
}

#[test]
fn parse_counts_a_field_beyond_32_bits_as_zero() {
    assert_eq!(parse_duration_to_seconds("4294967296:05"), 5);
    assert_eq!(parse_duration_to_seconds("99999999999999999999999:05"), 5);
    assert_eq!(parse_duration_to_seconds("4294967295:05"), u32::MAX);
}

#[test]
fn parse_caps_the_sum_at_32_bits() {
    assert_eq!(parse_duration_to_seconds("1193046:28:15"), u32::MAX);
    assert_eq!(parse_duration_to_seconds("1193046:28:16"), u32::MAX);
    assert_eq!(parse_duration_to_seconds("4294967295:00:00"), u32::MAX);
}

#[test]
fn parse_field_agrees_with_the_standard_reading() {
    for field in ["0", "7", "07", "+7", "", "+", "-7", "7 ", " 7", "4294967295", "4294967296", "1e3", "٣"] {
        let expected = field.parse::<u32>().unwrap_or(0);
        let text = format!("{}:00", field);
        let minutes = parse_duration_to_seconds(&text) as u64;
        assert_eq!(minutes, (expected as u64 * 60).min(u32::MAX as u64), "field {:?}", field);
    }
}
