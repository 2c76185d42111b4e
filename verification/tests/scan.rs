use merge_mp4::media::{HeaderInfo, TrackInfo};
use merge_mp4::scan::{
    entry_is_candidate, has_mp4_extension, listing_failed, select_candidates, DirEntry, FileFacts,
    ScanCommand, ScanProgress, ScanTask,
};
use std::path::Path;

fn entry(name: &str) -> DirEntry {
    DirEntry { path: format!("/videos/{}", name), file_name: Some(name.to_string()), is_file: true }
}

fn facts(seconds: u64) -> FileFacts {
    FileFacts {
        size: 1000 + seconds,
        modified: Some(seconds),
        header: HeaderInfo {
            duration: seconds * 600,
            timescale: 600,
            tracks: vec![TrackInfo {
                id: 1,
                is_video: true,
                width: 1280,
                height: 720,
                codec_tag: Some("avc1".to_string()),
            }],
        },
    }
}

/// Runs a scan to its end. `cancel_after` is the number of events after
/// which the cancellation flag is set; `readable` says which candidates
/// give a file.
fn run(
    entries: Vec<DirEntry>,
    cancel_after: Option<usize>,
    readable: &dyn Fn(usize) -> bool,
) -> (Vec<ScanProgress>, Vec<String>, Option<String>) {
    let (mut task, only) = ScanTask::start(entries);
    assert_eq!(only.is_some(), task.total() == 0);
    let mut events: Vec<ScanProgress> = Vec::new();
    loop {
        let cancel = cancel_after.map_or(false, |n| events.len() >= n);
        match task.next(cancel) {
            ScanCommand::Parse(index) => {
                assert_eq!(index, events.len());
                let read = if readable(index) { Some(facts(index as u64)) } else { None };
                events.push(task.record(read).unwrap());
            }
            ScanCommand::Finish => break,
        }
    }
    events.extend(only);
    assert!(task.is_finished());
    assert_eq!(task.record(Some(facts(0))), None);
    assert_eq!(task.next(false), ScanCommand::Finish);
    let error = task.terminal_error();
    let names = task.into_files().into_iter().map(|f| f.file_name).collect();
    (events, names, error)
}

#[test]
fn empty_directory_scan() {
    let entries = vec![entry("notes.txt"), entry("readme.txt"), entry("list.txt")];
    let (events, files, error) = run(entries, None, &|_| true);
    assert_eq!(events.len(), 1);
    assert_eq!(events[0].total, 0);
    assert_eq!(events[0], ScanProgress::default());
    assert!(files.is_empty());
    assert_eq!(error, None);
}

#[test]
fn case_insensitive_filter() {
    let entries = vec![entry("A.mp4"), entry("b.MP4"), entry("c.Mp4"), entry("d.txt")];
    let (events, files, error) = run(entries, None, &|_| true);
    assert_eq!(files, vec!["A.mp4", "b.MP4", "c.Mp4"]);
    assert_eq!(events.last().unwrap().total, 3);
    assert_eq!(error, None);
}

#[test]
fn cancellation_mid_scan() {
    let entries: Vec<DirEntry> = (0..500).map(|i| entry(&format!("clip{:03}.mp4", i))).collect();
    let (events, files, error) = run(entries, Some(50), &|_| true);
    assert!(files.len() <= 50);
    assert_eq!(files.len(), 50);
    assert_eq!(events.len(), 50);
    assert_eq!(events.last().unwrap().current, 50);
    assert_eq!(events.last().unwrap().total, 500);
    assert_eq!(error, Some("cancelled".to_string()));
}

#[test]
fn the_events_name_the_candidates_in_the_order_of_the_listing() {
    let entries = vec![entry("z.mp4"), entry("skip.txt"), entry("a.mp4"), entry("m.mp4")];
    let (events, _, _) = run(entries, None, &|_| true);
    let names: Vec<&str> = events.iter().map(|e| e.current_file.as_str()).collect();
    assert_eq!(names, vec!["z.mp4", "a.mp4", "m.mp4"]);
    assert_eq!(events[0], ScanProgress { current: 1, total: 3, current_file: "z.mp4".to_string() });
    assert_eq!(events[1], ScanProgress { current: 2, total: 3, current_file: "a.mp4".to_string() });
}

#[test]
fn the_events_of_a_cancelled_scan_stop_where_it_was_cancelled() {
    let entries = vec![entry("a.mp4"), entry("b.mp4"), entry("c.mp4"), entry("d.mp4")];
    let (events, files, error) = run(entries, Some(2), &|_| true);
    let names: Vec<&str> = events.iter().map(|e| e.current_file.as_str()).collect();
    assert_eq!(names, vec!["a.mp4", "b.mp4"]);
    assert_eq!(files, vec!["a.mp4", "b.mp4"]);
    assert_eq!(error, Some("cancelled".to_string()));
}

#[test]
fn current_never_decreases_and_never_exceeds_total() {
    let entries: Vec<DirEntry> = (0..40).map(|i| entry(&format!("{}.mp4", i))).collect();
    let (events, _, _) = run(entries, None, &|i| i % 3 != 0);
    assert_eq!(events.len(), 40);
    for pair in events.windows(2) {
        assert!(pair[0].current <= pair[1].current);
        assert!(pair[1].current <= pair[1].total);
        assert_eq!(pair[0].total, pair[1].total);
    }
}

#[test]
fn a_file_that_cannot_be_read_is_left_out_and_the_scan_goes_on() {
    let entries = vec![entry("a.mp4"), entry("broken.mp4"), entry("c.mp4")];
    let (events, files, error) = run(entries, None, &|i| i != 1);
    assert_eq!(files, vec!["a.mp4", "c.mp4"]);
    assert_eq!(events.len(), 3);
    assert_eq!(events[1].current_file, "broken.mp4");
    assert_eq!(error, None);
}

#[test]
fn a_header_without_a_timescale_is_left_out() {
    let (mut task, _) = ScanTask::start(vec![entry("a.mp4"), entry("b.mp4")]);
    assert_eq!(task.next(false), ScanCommand::Parse(0));
    let mut bad = facts(3);
    bad.header.timescale = 0;
    let event = task.record(Some(bad)).unwrap();
    assert_eq!(event.current, 1);
    assert_eq!(task.next(false), ScanCommand::Parse(1));
    task.record(Some(facts(4)));
    assert_eq!(task.files().len(), 1);
    assert_eq!(task.files()[0].file_name, "b.mp4");
}

#[test]
fn a_cancelled_scan_returns_the_first_files_of_the_complete_scan() {
    let entries: Vec<DirEntry> = (0..30).map(|i| entry(&format!("{}.mp4", i))).collect();
    let readable = |i: usize| i % 4 != 1;
    let (_, complete, _) = run(entries.clone(), None, &readable);
    for stop in 0..=30 {
        let (_, partial, _) = run(entries.clone(), Some(stop), &readable);
        assert!(partial.len() <= complete.len());
        assert_eq!(partial[..], complete[..partial.len()]);
    }
}

#[test]
fn a_flag_set_after_the_last_candidate_cancels_nothing() {
    let (events, files, error) = run(vec![entry("a.mp4"), entry("b.mp4")], Some(2), &|_| true);
    assert_eq!(events.len(), 2);
    assert_eq!(files.len(), 2);
    assert_eq!(error, None);
}

#[test]
fn a_flag_set_from_the_start_ends_the_scan_before_any_file() {
    let (events, files, error) = run(vec![entry("a.mp4")], Some(0), &|_| true);
    assert!(events.is_empty());
    assert!(files.is_empty());
    assert_eq!(error, Some("cancelled".to_string()));
}

#[test]
fn the_files_carry_what_was_read_of_them() {
    let (mut task, _) = ScanTask::start(vec![entry("clip.mp4")]);
    assert_eq!(task.total(), 1);
    assert_eq!(task.candidate(0).path, "/videos/clip.mp4");
    assert_eq!(task.next(false), ScanCommand::Parse(0));
    task.record(Some(facts(65)));
    assert_eq!(task.processed(), 1);
    assert!(!task.is_cancelled());
    let files = task.into_files();
    assert_eq!(files.len(), 1);
    assert_eq!(files[0].file_path, "/videos/clip.mp4");
    assert_eq!(files[0].file_name, "clip.mp4");
    assert_eq!(files[0].size, 1065);
    assert_eq!(files[0].modified, Some(65));
    assert_eq!(files[0].duration, "01:05");
    assert_eq!((files[0].width, files[0].height), (1280, 720));
    assert_eq!(files[0].codec, "H.264 / AVC");
}

#[test]
fn only_regular_files_with_a_name_are_candidates() {
    let mut directory = entry("folder.mp4");
    directory.is_file = false;
    let mut nameless = entry("x.mp4");
    nameless.file_name = None;
    assert!(!entry_is_candidate(&directory));
    assert!(!entry_is_candidate(&nameless));
    assert!(entry_is_candidate(&entry("x.mp4")));
    let kept = select_candidates(vec![directory, entry("one.mp4"), nameless, entry("two.MP4")]);
    let names: Vec<String> = kept.into_iter().map(|e| e.file_name.unwrap()).collect();
    assert_eq!(names, vec!["one.mp4", "two.MP4"]);
}

#[test]
fn the_extension_is_what_follows_the_last_dot() {
    assert!(has_mp4_extension("a.mp4"));
    assert!(has_mp4_extension("a.b.mP4"));
    assert!(has_mp4_extension("..mp4"));
    assert!(has_mp4_extension("视频.MP4"));
    assert!(!has_mp4_extension(".mp4"));
    assert!(!has_mp4_extension("mp4"));
    assert!(!has_mp4_extension("amp4"));
    assert!(!has_mp4_extension("a.mp4.txt"));
    assert!(!has_mp4_extension("a.mp4 "));
    assert!(!has_mp4_extension("a.mp3"));
    assert!(!has_mp4_extension("a.mp44"));
    assert!(!has_mp4_extension(""));
}

#[test]
fn the_extension_rule_agrees_with_the_standard_one() {
    let names = [
        "a.mp4", "A.MP4", ".mp4", "..mp4", "...mp4", "a.", "a", "a.mp4.", "a..mp4", "a.b.mp4",
        "mp4", ".a.mp4", "a.Mp4", "a.mP4", "a.mpx", "x.tmp4", "a.m p4", "a.mp4\u{130}",
    ];
    for name in names {
        let expected = Path::new(name)
            .extension()
            .map(|e| e.eq_ignore_ascii_case("mp4"))
            .unwrap_or(false);
        assert_eq!(has_mp4_extension(name), expected, "name {:?}", name);
    }
}

#[test]
fn progress_is_shown_in_whole_percent() {
    let progress = |current, total| ScanProgress { current, total, current_file: String::new() };
    assert_eq!(progress(0, 0).percent(), 0);
    assert_eq!(progress(0, 7).percent(), 0);
    assert_eq!(progress(1, 3).percent(), 33);
    assert_eq!(progress(2, 3).percent(), 66);
    assert_eq!(progress(3, 3).percent(), 100);
    assert_eq!(progress(usize::MAX, 1).percent(), u32::MAX);
    assert_eq!(progress(2, 5).remaining(), 3);
    assert_eq!(progress(5, 5).remaining(), 0);
    assert_eq!(progress(6, 5).remaining(), 0);
    assert_eq!(ScanProgress::default(), progress(0, 0));
}

#[test]
fn a_directory_that_cannot_be_listed_is_reported() {
    assert_eq!(listing_failed("permission denied"), "无法读取目录: permission denied");
}
