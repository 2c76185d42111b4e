use merge_mp4::listing::{
    clamp_page, default_output_name, format_resolution, page_after_delete, page_of, position_of,
    retain_unselected, sort_mp4_files, total_pages, SortBy,
};
use merge_mp4::media::Mp4FileInfo;
use merge_mp4::path_set::PathSet;

fn file(name: &str, duration: &str) -> Mp4FileInfo {
    Mp4FileInfo {
        file_name: name.to_string(),
        size: 1,
        modified: None,
        width: 0,
        height: 0,
        codec: String::new(),
        duration: duration.to_string(),
        file_path: format!("/v/{}", name),
    }
}

fn names(files: &[Mp4FileInfo]) -> Vec<&str> {
    files.iter().map(|f| f.file_name.as_str()).collect()
}

fn sample() -> Vec<Mp4FileInfo> {
    vec![
        file("a", "10:00"),
        file("b", "01:00:00"),
        file("c", "00:30"),
        file("d", "10:00"),
        file("e", "未知"),
        file("f", "00:30"),
    ]
}

#[test]
fn files_are_ordered_by_duration_shortest_first() {
    let mut files = sample();
    sort_mp4_files(&mut files, SortBy::Duration, false);
    assert_eq!(names(&files), vec!["e", "c", "f", "a", "d", "b"]);
}

#[test]
fn files_are_ordered_by_duration_longest_first() {
    let mut files = sample();
    sort_mp4_files(&mut files, SortBy::Duration, true);
    assert_eq!(names(&files), vec!["b", "d", "a", "f", "c", "e"]);
}

#[test]
fn the_order_agrees_with_a_stable_sort() {
    let durations = ["05:00", "00:01", "x", "05:00", "1:00:00", "00:01", "59:59", "", "0:0:1", "05:00"];
    let unordered: Vec<Mp4FileInfo> =
        durations.iter().enumerate().map(|(i, d)| file(&i.to_string(), d)).collect();
    for desc in [false, true] {
        let mut expected = unordered.clone();
        expected.sort_by_key(|f| merge_mp4::duration::parse_duration_to_seconds(&f.duration));
        if desc {
            expected.reverse();
        }
        let mut files = unordered.clone();
        sort_mp4_files(&mut files, SortBy::Duration, desc);
        assert_eq!(files, expected);
    }
}

#[test]
fn ordering_nothing_gives_nothing() {
    let mut files: Vec<Mp4FileInfo> = Vec::new();
    sort_mp4_files(&mut files, SortBy::Duration, true);
    assert!(files.is_empty());
    let mut one = vec![file("a", "1:00")];
    sort_mp4_files(&mut one, SortBy::Duration, false);
    assert_eq!(names(&one), vec!["a"]);
}

#[test]
fn pages_are_counted_by_rounding_up() {
    assert_eq!(total_pages(0, 20), 0);
    assert_eq!(total_pages(1, 20), 1);
    assert_eq!(total_pages(20, 20), 1);
    assert_eq!(total_pages(21, 20), 2);
    assert_eq!(total_pages(100, 10), 10);
    assert_eq!(total_pages(usize::MAX, 1), usize::MAX);
    assert_eq!(total_pages(usize::MAX, 2), usize::MAX / 2 + 1);
    for (len, size) in [(0usize, 1usize), (7, 3), (9, 3), (10, 3), (1, 100)] {
        assert_eq!(total_pages(len, size), len.div_ceil(size));
    }
}

#[test]
fn a_page_holds_its_share_of_the_files() {
    let files: Vec<Mp4FileInfo> = (0..7).map(|i| file(&i.to_string(), "1:00")).collect();
    assert_eq!(names(&page_of(&files, 1, 3)), vec!["0", "1", "2"]);
    assert_eq!(names(&page_of(&files, 2, 3)), vec!["3", "4", "5"]);
    assert_eq!(names(&page_of(&files, 3, 3)), vec!["6"]);
    assert!(page_of(&files, 4, 3).is_empty());
    assert!(page_of(&files, usize::MAX, usize::MAX).is_empty());
    assert_eq!(page_of(&files, 1, 100).len(), 7);
    assert!(page_of(&files, 1, 0).is_empty());
    assert!(page_of(&Vec::new(), 1, 20).is_empty());
}

#[test]
fn a_requested_page_is_brought_into_range() {
    assert_eq!(clamp_page(0, 5), 1);
    assert_eq!(clamp_page(1, 5), 1);
    assert_eq!(clamp_page(5, 5), 5);
    assert_eq!(clamp_page(6, 5), 5);
    assert_eq!(clamp_page(3, 0), 0);
    assert_eq!(clamp_page(0, 0), 0);
    for (page, pages) in [(0usize, 0usize), (0, 3), (2, 3), (9, 3), (9, 0)] {
        assert_eq!(clamp_page(page, pages), page.max(1).min(pages));
    }
}

#[test]
fn the_page_follows_the_files_that_are_left() {
    assert_eq!(page_after_delete(3, 40, 20), 2);
    assert_eq!(page_after_delete(2, 40, 20), 2);
    assert_eq!(page_after_delete(2, 41, 20), 2);
    assert_eq!(page_after_delete(1, 0, 20), 1);
    assert_eq!(page_after_delete(4, 0, 20), 1);
    assert_eq!(page_after_delete(0, 0, 20), 0);
    assert_eq!(page_after_delete(5, 1, 20), 1);
}

#[test]
fn selected_files_are_taken_out_of_a_listing() {
    let mut selected = PathSet::new();
    selected.insert("/v/b".to_string());
    selected.insert("/v/e".to_string());
    selected.insert("/v/zz".to_string());
    let kept = retain_unselected(sample(), &selected);
    assert_eq!(names(&kept), vec!["a", "c", "d", "f"]);
    assert_eq!(names(&retain_unselected(sample(), &PathSet::new())), names(&sample()));
}

#[test]
fn a_file_is_found_by_its_path() {
    let files = sample();
    assert_eq!(position_of(&files, &"/v/c".to_string()), Some(2));
    assert_eq!(position_of(&files, &"/v/a".to_string()), Some(0));
    assert_eq!(position_of(&files, &"/v/none".to_string()), None);
    let twice = vec![file("x", "1"), file("y", "2"), file("x", "3")];
    assert_eq!(position_of(&twice, &"/v/x".to_string()), Some(0));
}

#[test]
fn the_output_is_named_after_the_first_input() {
    assert_eq!(default_output_name("holiday.mp4"), "holiday_merged.mp4");
    assert_eq!(default_output_name("holiday.MP4"), "holiday.MP4_merged.mp4");
    assert_eq!(default_output_name("holiday"), "holiday_merged.mp4");
    assert_eq!(default_output_name(".mp4"), "_merged.mp4");
    assert_eq!(default_output_name("a.mp4.mp4"), "a.mp4_merged.mp4");
    assert_eq!(default_output_name(""), "_merged.mp4");
    assert_eq!(default_output_name("mp4"), "mp4_merged.mp4");
    assert_eq!(default_output_name("假期.mp4"), "假期_merged.mp4");
}

#[test]
fn dimensions_are_shown_when_both_are_known() {
    assert_eq!(format_resolution(1920, 1080), "1920x1080");
    assert_eq!(format_resolution(1, 65535), "1x65535");
    assert_eq!(format_resolution(0, 1080), "未知");
    assert_eq!(format_resolution(1920, 0), "未知");
    assert_eq!(format_resolution(0, 0), "未知");
}
