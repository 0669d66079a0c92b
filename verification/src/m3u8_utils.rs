//! Telling playlists apart, parsing them, and finding where MPEG-TS data
//! really starts in a downloaded segment.
use vstd::prelude::*;
use crate::playlist::{
    master_panics, master_parse, media_panics, media_parse, parse_master_outcome,
    parse_media_outcome, M3U8MasterPlaylist, M3U8MediaPlaylist, MasterPlaylistModel,
    MediaPlaylistModel, Outcome, Parsed,
};
use crate::text::{chars_of, contains_chars, contains_text};

verus! {

/// Which kind of HLS playlist a text holds.
#[derive(PartialEq, Eq, Structural, Clone, Copy, Debug)]
pub enum PlaylistType {
    Master,
    Media,
    Unknown,
}

/// The kind of a playlist text: a master playlist names variant streams
/// (`#EXT-X-STREAM-INF`), a media playlist names segments (`#EXTINF`).
pub open spec fn playlist_type_of(content: Seq<char>) -> PlaylistType {
    if contains_text(content, "#EXT-X-STREAM-INF"@) {
        PlaylistType::Master
    } else if contains_text(content, "#EXTINF"@) {
        PlaylistType::Media
    } else {
        PlaylistType::Unknown
    }
}

/// The kind of a playlist text; see `playlist_type_of`.
pub fn get_playlist_type(m3u8_content: &str) -> (r: PlaylistType)
    ensures
        r == playlist_type_of(m3u8_content@),
{
    let cs = chars_of(m3u8_content);
    let stream = chars_of("#EXT-X-STREAM-INF");
    let inf = chars_of("#EXTINF");
    if contains_chars(cs.as_slice(), stream.as_slice()) {
        PlaylistType::Master
    } else if contains_chars(cs.as_slice(), inf.as_slice()) {
        PlaylistType::Media
    } else {
        PlaylistType::Unknown
    }
}

/// A parsed playlist of either kind.
pub enum PlaylistData {
    Master(M3U8MasterPlaylist),
    Media(M3U8MediaPlaylist),
}

/// A parsed playlist of either kind, as its model.
pub enum PlaylistModel {
    Master(MasterPlaylistModel),
    Media(MediaPlaylistModel),
}

impl View for PlaylistData {
    type V = PlaylistModel;

    open spec fn view(&self) -> PlaylistModel {
        match self {
            PlaylistData::Master(m) => PlaylistModel::Master(m@),
            PlaylistData::Media(m) => PlaylistModel::Media(m@),
        }
    }
}

/// The message a failed master parse reports.
pub open spec fn master_failure_text(url: Seq<char>, m: Seq<char>) -> Seq<char> {
    "Failed to parse master playlist from "@ + url + ": "@ + m
}

/// The message a failed media parse reports.
pub open spec fn media_failure_text(m: Seq<char>) -> Seq<char> {
    "Failed to parse media playlist: "@ + m
}

/// Parsing a playlist text would panic.
pub open spec fn playlist_panics(content: Seq<char>, url: Seq<char>) -> bool {
    match playlist_type_of(content) {
        PlaylistType::Master => master_panics(content),
        PlaylistType::Media => media_panics(content, url),
        PlaylistType::Unknown => false,
    }
}

/// What parsing a playlist text gives: by its kind, the master or media
/// parse with its failure message prefixed, or a failure for an unknown
/// kind.
pub open spec fn playlist_parse(content: Seq<char>, url: Seq<char>) -> Result<
    PlaylistModel,
    Seq<char>,
> {
    match playlist_type_of(content) {
        PlaylistType::Master => match master_parse(content, url) {
            Outcome::Done(m) => Ok(PlaylistModel::Master(m)),
            Outcome::Failed(e) => Err(master_failure_text(url, e)),
            Outcome::Panicked => Err(seq![]),
        },
        PlaylistType::Media => match media_parse(content, url) {
            Outcome::Done(m) => Ok(PlaylistModel::Media(m)),
            Outcome::Failed(e) => Err(media_failure_text(e)),
            Outcome::Panicked => Err(seq![]),
        },
        PlaylistType::Unknown => Err("Unknown or unsupported M3U8 file format"@),
    }
}

/// Parses a master playlist, prefixing a failure with where it came from.
pub fn parse_master_playlist(content: &str, url: &str) -> (r: Result<M3U8MasterPlaylist, String>)
    requires
        !master_panics(content@),
    ensures
        match r {
            Ok(p) => master_parse(content@, url@) == Outcome::Done(p@),
            Err(m) => master_parse(content@, url@) matches Outcome::Failed(e) && m@
                == master_failure_text(url@, e),
        },
{
    match M3U8MasterPlaylist::parse(content, url) {
        Ok(p) => Ok(p),
        Err(e) => {
            let m = String::from_str("Failed to parse master playlist from ").concat(url).concat(
                ": ",
            ).concat(e.as_str());
            Err(m)
        },
    }
}

/// Parses a media playlist, prefixing a failure.
pub fn parse_media_playlist(content: &str, url: &str) -> (r: Result<M3U8MediaPlaylist, String>)
    requires
        !media_panics(content@, url@),
    ensures
        match r {
            Ok(p) => media_parse(content@, url@) == Outcome::Done(p@),
            Err(m) => media_parse(content@, url@) matches Outcome::Failed(e) && m@
                == media_failure_text(e),
        },
{
    match M3U8MediaPlaylist::parse(content, url) {
        Ok(p) => Ok(p),
        Err(e) => {
            let m = String::from_str("Failed to parse media playlist: ").concat(e.as_str());
            Err(m)
        },
    }
}

/// Parses a playlist text of either kind fetched from `url`.
pub fn parse_m3u8_content(m3u8_content: &str, url: &str) -> (r: Result<PlaylistData, String>)
    requires
        !playlist_panics(m3u8_content@, url@),
    ensures
        match r {
            Ok(d) => playlist_parse(m3u8_content@, url@) == Ok::<PlaylistModel, Seq<char>>(d@),
            Err(m) => playlist_parse(m3u8_content@, url@) == Err::<PlaylistModel, Seq<char>>(m@),
        },
{
    match get_playlist_type(m3u8_content) {
        PlaylistType::Master => match parse_master_playlist(m3u8_content, url) {
            Ok(p) => Ok(PlaylistData::Master(p)),
            Err(m) => Err(m),
        },
        PlaylistType::Media => match parse_media_playlist(m3u8_content, url) {
            Ok(p) => Ok(PlaylistData::Media(p)),
            Err(m) => Err(m),
        },
        PlaylistType::Unknown => Err(String::from_str("Unknown or unsupported M3U8 file format")),
    }
}

/// Parses a playlist text of either kind; `None` exactly where the parse
/// would panic (a tag that needs a `:` value has none).
pub fn try_parse_m3u8_content(m3u8_content: &str, url: &str) -> (r: Option<
    Result<PlaylistData, String>,
>)
    ensures
        r is None <==> playlist_panics(m3u8_content@, url@),
        r matches Some(res) ==> match res {
            Ok(d) => playlist_parse(m3u8_content@, url@) == Ok::<PlaylistModel, Seq<char>>(d@),
            Err(m) => playlist_parse(m3u8_content@, url@) == Err::<PlaylistModel, Seq<char>>(m@),
        },
{
    proof {
        let ls = crate::text::content_lines(m3u8_content@);
        crate::playlist::lemma_master_panics(ls, url@, ls.len());
    }
    let malformed = match get_playlist_type(m3u8_content) {
        PlaylistType::Master => match parse_master_outcome(m3u8_content, url) {
            Parsed::Malformed => true,
            _ => false,
        },
        PlaylistType::Media => match parse_media_outcome(m3u8_content, url) {
            Parsed::Malformed => true,
            _ => false,
        },
        PlaylistType::Unknown => false,
    };
    if malformed {
        None
    } else {
        Some(parse_m3u8_content(m3u8_content, url))
    }
}

// ------------------------------------------------------------ MPEG-TS sync

/// The MPEG-TS sync byte sits at `i`, `i + 188` and `i + 376`: three packets
/// in a row start there.
pub open spec fn ts_sync_at(data: Seq<u8>, i: int) -> bool {
    data[i] == 0x47 && data[i + 188] == 0x47 && data[i + 376] == 0x47
}

/// How far into `data` the search for the sync pattern looks.
pub open spec fn ts_scan_limit(data: Seq<u8>) -> int {
    if data.len() < 4096 {
        data.len() as int
    } else {
        4096
    }
}

/// The first position in `i..end` where three packets start, or 0.
pub open spec fn first_sync_from(data: Seq<u8>, i: int, end: int) -> int
    decreases end - i,
{
    if i >= end {
        0
    } else if ts_sync_at(data, i) {
        i
    } else {
        first_sync_from(data, i + 1, end)
    }
}

/// Where the transport stream in `data` begins; see `detect_ts_sync_offset`.
pub open spec fn ts_sync_offset(data: Seq<u8>) -> int {
    if ts_scan_limit(data) < 377 {
        0
    } else {
        first_sync_from(data, 0, ts_scan_limit(data) - 376)
    }
}

/// The first position before `ts_scan_limit(data) - 376` where three
/// packets start, or 0 when there is none: where the transport stream
/// begins once junk in front of it is skipped.
pub fn detect_ts_sync_offset(data: &[u8]) -> (r: usize)
    ensures
        r == ts_sync_offset(data@),
        r <= data@.len(),
        (exists|i: int| 0 <= i < ts_scan_limit(data@) - 376 && ts_sync_at(data@, i)) ==> {
            &&& 0 <= r < ts_scan_limit(data@) - 376
            &&& ts_sync_at(data@, r as int)
            &&& forall|j: int| 0 <= j < r ==> !ts_sync_at(data@, j)
        },
        !(exists|i: int| 0 <= i < ts_scan_limit(data@) - 376 && ts_sync_at(data@, i)) ==> r
            == 0,
{
    let scan_limit = if data.len() < 4096 {
        data.len()
    } else {
        4096
    };
    if scan_limit < 377 {
        return 0;
    }
    let mut i: usize = 0;
    while i < scan_limit - 376
        invariant
            scan_limit == ts_scan_limit(data@),
            scan_limit <= data@.len(),
            scan_limit >= 377,
            i <= scan_limit - 376,
            forall|j: int| 0 <= j < i ==> !ts_sync_at(data@, j),
            ts_sync_offset(data@) == first_sync_from(data@, i as int, scan_limit - 376),
        decreases scan_limit - 376 - i,
    {
        if data[i] == 0x47 && data[i + 188] == 0x47 && data[i + 376] == 0x47 {
            assert(ts_sync_at(data@, i as int));
            return i;
        }
        i = i + 1;
    }
    0
}

} // verus!
