use merge_mp4::media::{
    codec_name, copy_file_info, first_video_track, parse_mp4_info, HeaderInfo, HeaderParseError,
    Mp4FileInfo, TrackInfo,
};

fn track(id: u32, is_video: bool, width: u16, height: u16, tag: Option<&str>) -> TrackInfo {
    TrackInfo { id, is_video, width, height, codec_tag: tag.map(|t| t.to_string()) }
}

fn describe(header: &HeaderInfo) -> Result<Mp4FileInfo, HeaderParseError> {
    parse_mp4_info(
        "/videos/sample.mp4".to_string(),
        Some("sample.mp4".to_string()),
        123_456,
        Some(1_700_000_000),
        header,
    )
}

#[test]
fn header_of_a_known_sample() {
    // 1920x1080 H.264 with a total duration of 65.50 s.
    let header = HeaderInfo {
        duration: 65_500,
        timescale: 1000,
        tracks: vec![track(1, true, 1920, 1080, Some("avc1")), track(2, false, 0, 0, Some("mp4a"))],
    };
    let file = describe(&header).unwrap();
    assert_eq!(file.width, 1920);
    assert_eq!(file.height, 1080);
    assert_eq!(file.codec, "H.264 / AVC");
    assert_eq!(file.duration, "01:05");
    assert_eq!(file.file_name, "sample.mp4");
    assert_eq!(file.file_path, "/videos/sample.mp4");
    assert_eq!(file.size, 123_456);
    assert_eq!(file.modified, Some(1_700_000_000));
}

#[test]
fn the_duration_is_the_quotient_of_duration_and_timescale() {
    let mut header = HeaderInfo { duration: 90_000 * 3600, timescale: 90_000, tracks: vec![] };
    assert_eq!(describe(&header).unwrap().duration, "01:00:00");
    header.duration = 90_000 * 59 + 89_999;
    assert_eq!(describe(&header).unwrap().duration, "00:59");
    header.duration = 0;
    assert_eq!(describe(&header).unwrap().duration, "00:00");
    header.duration = u64::MAX;
    header.timescale = 1;
    assert_eq!(describe(&header).unwrap().duration, "1193046:28:15");
}

#[test]
fn a_header_without_a_timescale_is_no_movie() {
    let header = HeaderInfo { duration: 10, timescale: 0, tracks: vec![track(1, true, 4, 4, None)] };
    assert_eq!(describe(&header), Err(HeaderParseError::ZeroTimescale));
}

#[test]
fn a_file_without_video_has_no_dimensions() {
    let header = HeaderInfo {
        duration: 5000,
        timescale: 1000,
        tracks: vec![track(1, false, 0, 0, Some("mp4a"))],
    };
    let file = describe(&header).unwrap();
    assert_eq!((file.width, file.height), (0, 0));
    assert_eq!(file.codec, "unknown");
    assert_eq!(file.duration, "00:05");
}

#[test]
fn only_the_first_video_track_counts() {
    let header = HeaderInfo {
        duration: 1000,
        timescale: 1000,
        tracks: vec![
            track(3, true, 640, 360, Some("vp09")),
            track(1, false, 0, 0, Some("mp4a")),
            track(2, true, 1280, 720, Some("hvc1")),
        ],
    };
    let file = describe(&header).unwrap();
    assert_eq!((file.width, file.height), (1280, 720));
    assert_eq!(file.codec, "H.265 / HEVC");
}

#[test]
fn the_first_video_track_is_the_one_with_the_smallest_identifier() {
    let tracks = vec![
        track(5, true, 1, 1, None),
        track(9, false, 0, 0, None),
        track(2, true, 2, 2, None),
        track(2, true, 3, 3, None),
        track(7, true, 4, 4, None),
    ];
    assert_eq!(first_video_track(&tracks), Some(2));
    assert_eq!(first_video_track(&tracks[..2].to_vec()), Some(0));
    assert_eq!(first_video_track(&vec![track(1, false, 0, 0, None)]), None);
    assert_eq!(first_video_track(&vec![]), None);
}

#[test]
fn codes_are_mapped_to_names() {
    let name = |tag: &str| codec_name(&Some(tag.to_string()));
    assert_eq!(name("avc1"), "H.264 / AVC");
    assert_eq!(name("avc3"), "H.264 / AVC");
    assert_eq!(name("hev1"), "H.265 / HEVC");
    assert_eq!(name("hvc1"), "H.265 / HEVC");
    assert_eq!(name("vp09"), "VP9");
    assert_eq!(name("av01"), "av01");
    assert_eq!(name("mp4a"), "mp4a");
    assert_eq!(name("AVC1"), "AVC1");
    assert_eq!(name(""), "");
    assert_eq!(codec_name(&None), "unknown");
}

#[test]
fn a_video_track_without_a_code_has_an_unknown_codec() {
    let header = HeaderInfo { duration: 1, timescale: 1, tracks: vec![track(1, true, 320, 240, None)] };
    let file = describe(&header).unwrap();
    assert_eq!((file.width, file.height), (320, 240));
    assert_eq!(file.codec, "unknown");
}

#[test]
fn a_path_without_a_name_gets_a_stand_in() {
    let header = HeaderInfo { duration: 1, timescale: 1, tracks: vec![] };
    let file = parse_mp4_info("/".to_string(), None, 0, None, &header).unwrap();
    assert_eq!(file.file_name, "未知文件");
    assert_eq!(file.modified, None);
}

#[test]
fn a_copy_equals_the_file_it_was_made_from() {
    let header = HeaderInfo { duration: 7, timescale: 1, tracks: vec![track(1, true, 8, 6, Some("avc3"))] };
    let file = describe(&header).unwrap();
    assert_eq!(copy_file_info(&file), file);
}
