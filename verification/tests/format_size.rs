use merge_mp4::format_size::format_size;

#[test]
fn size_of_nothing_is_unknown() {
    assert_eq!(format_size(None), "未知");
}

#[test]
fn bytes_are_shown_as_they_are() {
    assert_eq!(format_size(Some(0)), "0 B");
    assert_eq!(format_size(Some(5)), "5 B");
    assert_eq!(format_size(Some(1023)), "1023 B");
}

#[test]
fn units_change_at_powers_of_1024() {
    assert_eq!(format_size(Some(1024)), "1.00 KB");
    assert_eq!(format_size(Some(1024 * 1024 - 1)), "1024.00 KB");
    assert_eq!(format_size(Some(1024 * 1024)), "1.00 MB");
    assert_eq!(format_size(Some(1024 * 1024 * 1024 - 1)), "1024.00 MB");
    assert_eq!(format_size(Some(1024 * 1024 * 1024)), "1.00 GB");
}

#[test]
fn two_decimals_are_rounded() {
    assert_eq!(format_size(Some(1536)), "1.50 KB");
    assert_eq!(format_size(Some(1234567)), "1.18 MB");
    assert_eq!(format_size(Some(5 * 1024 * 1024 * 1024 + 512 * 1024 * 1024)), "5.50 GB");
    assert_eq!(format_size(Some(1029)), "1.00 KB");
    assert_eq!(format_size(Some(1030)), "1.01 KB");
}

#[test]
fn a_number_half_way_goes_to_the_even_neighbour() {
    // 1152 / 1024 = 1.125 and 1408 / 1024 = 1.375, both exactly.
    assert_eq!(format_size(Some(1152)), "1.12 KB");
    assert_eq!(format_size(Some(1408)), "1.38 KB");
}

#[test]
fn the_largest_count_is_shown_in_gigabytes() {
    assert_eq!(format_size(Some(u64::MAX)), "17179869184.00 GB");
}

#[test]
fn sizes_agree_with_floating_point_formatting() {
    let mut n: u64 = 1024;
    while n < (1u64 << 50) {
        for size in [n - 1, n, n + 1, n + 128, n + n / 3, n + n / 2, n + 2 * n / 3] {
            let expected = if size < 1024 {
                format!("{} B", size)
            } else if size < 1024 * 1024 {
                format!("{:.2} KB", size as f64 / 1024.0)
            } else if size < 1024 * 1024 * 1024 {
                format!("{:.2} MB", size as f64 / (1024.0 * 1024.0))
            } else {
                format!("{:.2} GB", size as f64 / (1024.0 * 1024.0 * 1024.0))
            };
            assert_eq!(format_size(Some(size)), expected, "size {}", size);
        }
        n *= 2;
    }
}

#[test]
fn every_tie_in_kilobytes_agrees_with_floating_point_formatting() {
    let mut size: u64 = 1024 + 128;
    while size < 1024 * 1024 {
        assert_eq!(format_size(Some(size)), format!("{:.2} KB", size as f64 / 1024.0));
        size += 256;
    }
}

fn unit_rank(text: &str) -> u8 {
    if text.ends_with(" KB") {
        1
    } else if text.ends_with(" MB") {
        2
    } else if text.ends_with(" GB") {
        3
    } else {
        0
    }
}

#[test]
fn larger_counts_never_fall_back_to_a_smaller_unit() {
    let sizes = [0u64, 1, 999, 1023, 1024, 50_000, 1_048_575, 1_048_576, 1 << 29, 1 << 30, 1 << 40];
    for pair in sizes.windows(2) {
        let (a, b) = (format_size(Some(pair[0])), format_size(Some(pair[1])));
        assert!(unit_rank(&a) <= unit_rank(&b), "{} then {}", a, b);
    }
}

#[test]
fn texts_of_one_length_sort_with_their_counts_within_a_unit() {
    let sizes = [2048u64, 2049, 2100, 3000, 5000, 9000, 10_000];
    for pair in sizes.windows(2) {
        let (a, b) = (format_size(Some(pair[0])), format_size(Some(pair[1])));
        if a.len() == b.len() {
            assert!(a <= b, "{} then {}", a, b);
        }
    }
    assert!(format_size(Some(5)) > format_size(Some(10)));
}
