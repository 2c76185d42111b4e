//! What is known about one MP4 file, and how it follows from the file's
//! header.
//!
//! Reading the container is left to the runtime, which hands over the few
//! numbers that matter here: the movie's duration and timescale, and for
//! each track its identifier, whether its handler denotes video, its
//! dimensions and the four-character code of its sample entry.

use vstd::prelude::*;
use crate::duration::{duration_text, format_duration};

verus! {

/// One track of a movie.
#[derive(Clone, Debug, PartialEq, Eq)]
pub struct TrackInfo {
    /// The track's identifier; tracks are ordered by it.
    pub id: u32,
    /// The track's handler denotes video.
    pub is_video: bool,
    pub width: u16,
    pub height: u16,
    /// The four-character code of the track's sample entry, if it has one
    /// that could be read.
    pub codec_tag: Option<String>,
}

/// The part of a movie header that describes the file.
#[derive(Clone, Debug, PartialEq, Eq)]
pub struct HeaderInfo {
    /// The movie's duration, in units of which `timescale` make a second.
    pub duration: u64,
    pub timescale: u32,
    pub tracks: Vec<TrackInfo>,
}

/// One parsed MP4 file.
#[derive(Clone, Debug, PartialEq, Eq)]
pub struct Mp4FileInfo {
    pub file_name: String,
    pub size: u64,
    /// When the file was last modified, in seconds since the Unix epoch.
    pub modified: Option<u64>,
    /// The width of the first video track; zero when unknown.
    pub width: u16,
    /// The height of the first video track; zero when unknown.
    pub height: u16,
    pub codec: String,
    /// The duration as text, see [`format_duration`].
    pub duration: String,
    pub file_path: String,
}

/// A parsed file with its texts as sequences of characters.
pub struct FileInfoView {
    pub file_name: Seq<char>,
    pub size: u64,
    pub modified: Option<u64>,
    pub width: u16,
    pub height: u16,
    pub codec: Seq<char>,
    pub duration: Seq<char>,
    pub file_path: Seq<char>,
}

impl View for Mp4FileInfo {
    type V = FileInfoView;

    open spec fn view(&self) -> FileInfoView {
        FileInfoView {
            file_name: self.file_name@,
            size: self.size,
            modified: self.modified,
            width: self.width,
            height: self.height,
            codec: self.codec@,
            duration: self.duration@,
            file_path: self.file_path@,
        }
    }
}

/// The views of a list of parsed files.
pub open spec fn file_views(files: Seq<Mp4FileInfo>) -> Seq<FileInfoView> {
    Seq::new(files.len(), |i: int| files[i]@)
}

/// Why a header does not describe a movie.
#[derive(Clone, Copy, Debug, PartialEq, Eq, Structural)]
pub enum HeaderParseError {
    /// The movie's timescale is zero, so its duration means nothing.
    ZeroTimescale,
}

/// The name under which a codec is shown: the usual names for the codes of
/// H.264, H.265 and VP9, any other code as it is, and `unknown` where there
/// is no code.
pub open spec fn codec_label(tag: Option<Seq<char>>) -> Seq<char> {
    match tag {
        Some(code) => if code == "avc1"@ || code == "avc3"@ {
            "H.264 / AVC"@
        } else if code == "hev1"@ || code == "hvc1"@ {
            "H.265 / HEVC"@
        } else if code == "vp09"@ {
            "VP9"@
        } else {
            code
        },
        None => "unknown"@,
    }
}

/// The code of a track's sample entry as a sequence of characters.
pub open spec fn tag_view(tag: Option<String>) -> Option<Seq<char>> {
    match tag {
        Some(code) => Some(code@),
        None => None,
    }
}

/// Track `i` is the first video track: it is a video track, no video track
/// has a smaller identifier, and among those with its identifier it comes
/// first.
pub open spec fn is_first_video(tracks: Seq<TrackInfo>, i: int) -> bool {
    &&& 0 <= i < tracks.len()
    &&& tracks[i].is_video
    &&& forall|j: int|
        0 <= j < tracks.len() && (#[trigger] tracks[j]).is_video ==> tracks[i].id < tracks[j].id
            || (tracks[i].id == tracks[j].id && i <= j)
}

/// There is no video track.
pub open spec fn no_video(tracks: Seq<TrackInfo>) -> bool {
    forall|j: int| 0 <= j < tracks.len() ==> !(#[trigger] tracks[j]).is_video
}

/// The movie's duration in whole seconds: the duration divided by the
/// timescale, the remainder dropped, and `u32::MAX` at most.
pub open spec fn duration_seconds(duration: u64, timescale: u32) -> nat {
    if duration as nat / timescale as nat > u32::MAX {
        u32::MAX as nat
    } else {
        duration as nat / timescale as nat
    }
}

/// Whether `file` describes `header`: it has the dimensions and codec of the
/// first video track, zero and `unknown` where there is none.
pub open spec fn describes(file: FileInfoView, header: HeaderInfo) -> bool {
    &&& file.duration == duration_text(duration_seconds(header.duration, header.timescale))
    &&& if no_video(header.tracks@) {
        file.width == 0 && file.height == 0 && file.codec == codec_label(None)
    } else {
        exists|i: int|
            #![trigger header.tracks@[i]]
            is_first_video(header.tracks@, i) && file.width == header.tracks@[i].width
                && file.height == header.tracks@[i].height && file.codec == codec_label(
                tag_view(header.tracks@[i].codec_tag),
            )
    }
}

/// Whether `s` is the text `literal`.
fn is_text(s: &String, literal: &str) -> (same: bool)
    ensures
        same == (s@ == literal@),
{
    let other = String::from_str(literal);
    *s == other
}

/// The name under which the codec with this code is shown.
pub fn codec_name(tag: &Option<String>) -> (name: String)
    ensures
        name@ == codec_label(tag_view(*tag)),
{
    match tag {
        Some(code) => {
            if is_text(code, "avc1") || is_text(code, "avc3") {
                String::from_str("H.264 / AVC")
            } else if is_text(code, "hev1") || is_text(code, "hvc1") {
                String::from_str("H.265 / HEVC")
            } else if is_text(code, "vp09") {
                String::from_str("VP9")
            } else {
                code.clone()
            }
        },
        None => String::from_str("unknown"),
    }
}

/// The position of the first video track, if there is a video track.
pub fn first_video_track(tracks: &Vec<TrackInfo>) -> (found: Option<usize>)
    ensures
        match found {
            Some(i) => is_first_video(tracks@, i as int),
            None => no_video(tracks@),
        },
{
    let mut best: Option<usize> = None;
    let mut i: usize = 0;
    while i < tracks.len()
        invariant
            i <= tracks.len(),
            match best {
                Some(b) => b < i && is_first_video(tracks@.take(i as int), b as int),
                None => no_video(tracks@.take(i as int)),
            },
        decreases tracks.len() - i,
    {
        let ghost seen = tracks@.take(i as int);
        let ghost next = tracks@.take(i + 1);
        assert(forall|j: int| 0 <= j < i ==> next[j] == seen[j]);
        assert(next[i as int] == tracks@[i as int]);
        if tracks[i].is_video {
            match best {
                Some(b) => {
                    if tracks[i].id < tracks[b].id {
                        best = Some(i);
                    }
                },
                None => {
                    best = Some(i);
                },
            }
        }
        i += 1;
    }
    assert(tracks@.take(i as int) =~= tracks@);
    best
}

/// Describes a file from its header and from what the file system says of
/// it. `file_name` is the last component of the path where it has one that
/// is valid text. Fails when the header's timescale is zero.
pub fn parse_mp4_info(
    file_path: String,
    file_name: Option<String>,
    size: u64,
    modified: Option<u64>,
    header: &HeaderInfo,
) -> (out: Result<Mp4FileInfo, HeaderParseError>)
    ensures
        out is Err <==> header.timescale == 0,
        out matches Err(e) ==> e == HeaderParseError::ZeroTimescale,
        out matches Ok(file) ==> {
            &&& file@.file_path == file_path@
            &&& file@.file_name == match file_name {
                Some(name) => name@,
                None => "未知文件"@,
            }
            &&& file@.size == size
            &&& file@.modified == modified
            &&& describes(file@, *header)
        },
{
    if header.timescale == 0 {
        return Err(HeaderParseError::ZeroTimescale);
    }
    let whole: u64 = header.duration / (header.timescale as u64);
    let seconds: u32 = if whole > u32::MAX as u64 {
        u32::MAX
    } else {
        whole as u32
    };
    let duration = format_duration(seconds);
    let name = match file_name {
        Some(name) => name,
        None => String::from_str("未知文件"),
    };
    let file = match first_video_track(&header.tracks) {
        Some(i) => Mp4FileInfo {
            file_name: name,
            size,
            modified,
            width: header.tracks[i].width,
            height: header.tracks[i].height,
            codec: codec_name(&header.tracks[i].codec_tag),
            duration,
            file_path,
        },
        None => Mp4FileInfo {
            file_name: name,
            size,
            modified,
            width: 0,
            height: 0,
            codec: codec_name(&None),
            duration,
            file_path,
        },
    };
    Ok(file)
}

/// A copy of `file`.
pub fn copy_file_info(file: &Mp4FileInfo) -> (copy: Mp4FileInfo)
    ensures
        copy@ == file@,
{
    Mp4FileInfo {
        file_name: file.file_name.clone(),
        size: file.size,
        modified: file.modified,
        width: file.width,
        height: file.height,
        codec: file.codec.clone(),
        duration: file.duration.clone(),
        file_path: file.file_path.clone(),
    }
}

} // verus!
