use m3u8_downloader::m3u8_utils::{
    detect_ts_sync_offset, get_playlist_type, parse_m3u8_content, parse_master_playlist,
    parse_media_playlist, try_parse_m3u8_content, PlaylistData, PlaylistType,
};
use m3u8_downloader::playlist::{M3U8MasterPlaylist, M3U8MediaPlaylist};

const MASTER_URL: &str = "https://example.com/path/master.m3u8";
const MEDIA_URL: &str = "https://example.com/v/index.m3u8";

fn master_text() -> String {
    [
        "#EXTM3U",
        "#EXT-X-VERSION:3",
        "#EXT-X-MEDIA:TYPE=AUDIO,GROUP-ID=\"aud\",NAME=\"English\",DEFAULT=YES,AUTOSELECT=NO,LANGUAGE=\"en\",URI=\"audio/en.m3u8\"",
        "",
        "  #EXT-X-STREAM-INF:BANDWIDTH=1280000,RESOLUTION=640x360,CODECS=\"avc1.4d401e,mp4a.40.2\",AUDIO=\"aud\"  ",
        "low/index.m3u8",
        "#EXT-X-STREAM-INF:BANDWIDTH=2560000",
        "https://cdn.example.com/high.m3u8",
        "#EXT-X-I-FRAME-STREAM-INF:BANDWIDTH=86000,CODECS=\"av01.0.04M.08\",URI=\"iframe.m3u8\"",
    ]
    .join("\n")
}

fn media_text() -> String {
    [
        "#EXTM3U",
        "#EXT-X-VERSION:7",
        "#EXT-X-TARGETDURATION:6",
        "#EXT-X-MEDIA-SEQUENCE:12",
        "#EXT-X-PLAYLIST-TYPE:VOD",
        "#EXT-X-MAP:URI=\"init.mp4\"",
        "#EXTINF:6.000,",
        "seg0.m4s",
        "#EXT-X-DISCONTINUITY",
        "#EXTINF:4.5,",
        "#EXT-X-DISCONTINUITY",
        "https://other.example.com/seg1.m4s",
        "#EXT-X-ENDLIST",
    ]
    .join("\r\n")
}

#[test]
fn master_playlist_is_parsed() {
    let p = M3U8MasterPlaylist::parse(&master_text(), MASTER_URL).unwrap();
    assert_eq!(p.version, Some(3));
    assert_eq!(p.variant_streams.len(), 2);

    let v0 = &p.variant_streams[0];
    assert_eq!(v0.bandwidth, 1280000);
    assert_eq!(v0.resolution.as_deref(), Some("640x360"));
    // The attribute list is split at every comma, so only the first codec is kept.
    assert_eq!(v0.codecs.as_deref(), Some("h264"));
    assert_eq!(v0.uri, "https://example.com/path/low/index.m3u8");
    assert_eq!(v0.audio_group.as_deref(), Some("aud"));
    assert_eq!(v0.video_group, None);
    assert_eq!(v0.subtitles_group, None);

    let v1 = &p.variant_streams[1];
    assert_eq!(v1.bandwidth, 2560000);
    assert_eq!(v1.resolution, None);
    assert_eq!(v1.codecs, None);
    assert_eq!(v1.uri, "https://cdn.example.com/high.m3u8");

    assert_eq!(p.media_renditions.len(), 1);
    let r = &p.media_renditions[0];
    assert_eq!(r.media_type, "AUDIO");
    assert_eq!(r.group_id, "aud");
    assert_eq!(r.name, "English");
    assert!(r.default);
    assert!(!r.autoselect);
    assert_eq!(r.language.as_deref(), Some("en"));
    assert_eq!(r.uri.as_deref(), Some("audio/en.m3u8"));

    assert_eq!(p.iframe_streams.len(), 1);
    let f = &p.iframe_streams[0];
    assert_eq!(f.bandwidth, 86000);
    assert_eq!(f.codecs.as_deref(), Some("av1"));
    assert_eq!(f.resolution, None);
    assert_eq!(f.uri, "iframe.m3u8");

    assert_eq!(p.resolution_options.len(), 2);
    let o0 = &p.resolution_options[0];
    assert_eq!(o0.id, 0);
    assert_eq!(o0.resolution, "640x360");
    assert_eq!(o0.bandwidth_kbps, 1280);
    assert_eq!(o0.uri, "https://example.com/path/low/index.m3u8");
    let o1 = &p.resolution_options[1];
    assert_eq!(o1.id, 1);
    assert_eq!(o1.resolution, "Unknown");
    assert_eq!(o1.bandwidth_kbps, 2560);
    assert_eq!(o1.uri, "https://cdn.example.com/high.m3u8");
}

#[test]
fn master_playlist_with_relative_base_keeps_uri() {
    let text = "#EXT-X-STREAM-INF:BANDWIDTH=999\nlow.m3u8";
    let p = M3U8MasterPlaylist::parse(text, "not a url").unwrap();
    assert_eq!(p.variant_streams[0].uri, "low.m3u8");
    assert_eq!(p.resolution_options[0].bandwidth_kbps, 0);
}

#[test]
fn master_playlist_errors() {
    let missing_bw = "#EXT-X-STREAM-INF:RESOLUTION=1x1\nlow.m3u8";
    assert_eq!(
        M3U8MasterPlaylist::parse(missing_bw, MASTER_URL).err().unwrap(),
        "BANDWIDTH missing"
    );
    let missing_uri = "#EXT-X-VERSION:4\n#EXT-X-STREAM-INF:BANDWIDTH=10";
    assert_eq!(
        M3U8MasterPlaylist::parse(missing_uri, MASTER_URL).err().unwrap(),
        "Missing URI for EXT-X-STREAM-INF"
    );
    let bad_version = "#EXT-X-VERSION:abc\n#EXT-X-STREAM-INF:BANDWIDTH=10\nx.m3u8";
    assert_eq!(
        M3U8MasterPlaylist::parse(bad_version, MASTER_URL).err().unwrap(),
        "invalid digit found in string"
    );
    let big_version = "#EXT-X-VERSION:300";
    assert_eq!(
        M3U8MasterPlaylist::parse(big_version, MASTER_URL).err().unwrap(),
        "number too large to fit in target type"
    );
    let empty_version = "#EXT-X-VERSION:";
    assert_eq!(
        M3U8MasterPlaylist::parse(empty_version, MASTER_URL).err().unwrap(),
        "cannot parse integer from empty string"
    );
    let no_type = "#EXT-X-MEDIA:GROUP-ID=\"a\",NAME=\"b\"";
    assert_eq!(
        M3U8MasterPlaylist::parse(no_type, MASTER_URL).err().unwrap(),
        "TYPE missing"
    );
    let no_iframe_uri = "#EXT-X-I-FRAME-STREAM-INF:BANDWIDTH=5";
    assert_eq!(
        M3U8MasterPlaylist::parse(no_iframe_uri, MASTER_URL).err().unwrap(),
        "URI missing"
    );
    let no_colon = "#EXT-X-MEDIA";
    assert_eq!(
        M3U8MasterPlaylist::parse(no_colon, MASTER_URL).err().unwrap(),
        "Invalid attribute line"
    );
    let e = parse_master_playlist(missing_bw, MASTER_URL).err().unwrap();
    assert_eq!(
        e,
        "Failed to parse master playlist from https://example.com/path/master.m3u8: BANDWIDTH missing"
    );
}

#[test]
fn later_attribute_wins() {
    let text = "#EXT-X-STREAM-INF:BANDWIDTH=1000,BANDWIDTH=3000\nx.m3u8";
    let p = M3U8MasterPlaylist::parse(text, MASTER_URL).unwrap();
    assert_eq!(p.variant_streams[0].bandwidth, 3000);
    assert_eq!(p.resolution_options[0].bandwidth_kbps, 3);
}

#[test]
fn media_playlist_is_parsed() {
    let p = M3U8MediaPlaylist::parse(&media_text(), MEDIA_URL).unwrap();
    assert_eq!(p.version, Some(7));
    assert_eq!(p.target_duration, 6);
    assert_eq!(p.media_sequence, Some(12));
    assert_eq!(p.playlist_type.as_deref(), Some("VOD"));
    assert!(p.is_end_list);
    let init = p.init_map_file.as_ref().unwrap();
    assert_eq!(init.url, "https://example.com/v/init.mp4");
    assert_eq!(init.sequence, 0);
    assert_eq!(init.duration, "0");
    assert_eq!(p.segments.len(), 2);
    assert_eq!(p.total_segments, 2);

    let s0 = &p.segments[0];
    assert_eq!(s0.url, "https://example.com/v/seg0.m4s");
    assert_eq!(s0.sequence, 0);
    assert_eq!(s0.duration, "6.000");
    assert_eq!(s0.duration.parse::<f64>().unwrap(), 6.0);
    // A discontinuity between segments marks nothing: no segment is pending then.
    assert!(!s0.is_discontinuity);
    assert!(!s0.downloaded);
    assert_eq!(s0.size_bytes, 0);

    let s1 = &p.segments[1];
    assert_eq!(s1.url, "https://other.example.com/seg1.m4s");
    assert_eq!(s1.sequence, 1);
    assert_eq!(s1.duration, "4.5");
    assert!(s1.is_discontinuity);

    assert_eq!(p.first_segment_url, "https://example.com/v/seg0.m4s");
}

#[test]
fn media_playlist_edge_cases() {
    // A URI line without a preceding EXTINF is ignored.
    let text = "#EXTINF:2,\na.ts\nstray.ts\n#EXTINF:3\nb.ts";
    let p = M3U8MediaPlaylist::parse(text, MEDIA_URL).unwrap();
    assert_eq!(p.segments.len(), 2);
    assert_eq!(p.segments[0].url, "https://example.com/v/a.ts");
    assert_eq!(p.segments[1].url, "https://example.com/v/b.ts");
    assert_eq!(p.segments[1].duration, "3");
    assert_eq!(p.version, None);
    assert_eq!(p.media_sequence, None);
    assert_eq!(p.playlist_type, None);
    assert!(!p.is_end_list);
    assert!(p.init_map_file.is_none());

    // No segment at all.
    let empty = M3U8MediaPlaylist::parse("#EXTM3U", MEDIA_URL).unwrap();
    assert_eq!(empty.total_segments, 0);
    assert_eq!(empty.first_segment_url, "");

    // EXT-X-MAP without URI sets no initialisation segment.
    let no_uri = M3U8MediaPlaylist::parse("#EXT-X-MAP:BYTERANGE=\"1@0\"", MEDIA_URL).unwrap();
    assert!(no_uri.init_map_file.is_none());
}

#[test]
fn media_playlist_errors() {
    assert_eq!(
        M3U8MediaPlaylist::parse("#EXTINF:abc,\nx.ts", MEDIA_URL).err().unwrap(),
        "invalid float literal"
    );
    assert_eq!(
        M3U8MediaPlaylist::parse("#EXT-X-TARGETDURATION:-1", MEDIA_URL).err().unwrap(),
        "invalid digit found in string"
    );
    assert_eq!(
        M3U8MediaPlaylist::parse("#EXTINF:1,\nx.ts", "not a url").err().unwrap(),
        "Invalid base URL: relative URL without a base"
    );
    assert_eq!(
        M3U8MediaPlaylist::parse("#EXT-X-MAP", MEDIA_URL).err().unwrap(),
        "Invalid attribute line"
    );
    // A key without a value is no attribute.
    let bare = M3U8MediaPlaylist::parse("#EXT-X-MAP:URI", MEDIA_URL).unwrap();
    assert!(bare.init_map_file.is_none());
    assert_eq!(
        parse_media_playlist("#EXTINF:x,\ny.ts", MEDIA_URL).err().unwrap(),
        "Failed to parse media playlist: invalid float literal"
    );
}

#[test]
fn playlist_type_is_told_apart() {
    assert_eq!(get_playlist_type(&master_text()), PlaylistType::Master);
    assert_eq!(get_playlist_type(&media_text()), PlaylistType::Media);
    assert_eq!(get_playlist_type("#EXTM3U\n"), PlaylistType::Unknown);
    // A master tag anywhere wins over segment tags.
    assert_eq!(get_playlist_type("#EXTINF:1,\n#EXT-X-STREAM-INF:X"), PlaylistType::Master);
}

#[test]
fn playlist_content_is_parsed_by_kind() {
    match parse_m3u8_content(&media_text(), MEDIA_URL).unwrap() {
        PlaylistData::Media(m) => assert_eq!(m.total_segments, 2),
        PlaylistData::Master(_) => panic!("expected a media playlist"),
    }
    match parse_m3u8_content(&master_text(), MASTER_URL).unwrap() {
        PlaylistData::Master(m) => assert_eq!(m.variant_streams.len(), 2),
        PlaylistData::Media(_) => panic!("expected a master playlist"),
    }
    assert_eq!(
        parse_m3u8_content("hello", MEDIA_URL).err().unwrap(),
        "Unknown or unsupported M3U8 file format"
    );
}

#[test]
fn panicking_playlists_are_reported() {
    assert!(try_parse_m3u8_content("#EXTINF\nx.ts", MEDIA_URL).is_none());
    assert!(try_parse_m3u8_content("#EXT-X-VERSION\n#EXT-X-STREAM-INF:BANDWIDTH=1\nx", MASTER_URL).is_none());
    let ok = try_parse_m3u8_content(&media_text(), MEDIA_URL).unwrap();
    assert!(matches!(ok, Ok(PlaylistData::Media(_))));
    let err = try_parse_m3u8_content("nothing", MEDIA_URL).unwrap();
    assert_eq!(err.err().unwrap(), "Unknown or unsupported M3U8 file format");
}

#[test]
fn ts_sync_offset_is_found() {
    let mut data = vec![0u8; 1000];
    data[5] = 0x47;
    data[193] = 0x47;
    data[381] = 0x47;
    assert_eq!(detect_ts_sync_offset(&data), 5);

    let mut at_start = vec![0u8; 400];
    at_start[0] = 0x47;
    at_start[188] = 0x47;
    at_start[376] = 0x47;
    assert_eq!(detect_ts_sync_offset(&at_start), 0);

    // Too short to hold three packets.
    let short = vec![0x47u8; 376];
    assert_eq!(detect_ts_sync_offset(&short), 0);

    // No pattern at all.
    assert_eq!(detect_ts_sync_offset(&vec![1u8; 5000]), 0);

    // Only the first 4096 bytes are scanned.
    let mut late = vec![0u8; 6000];
    late[4000] = 0x47;
    late[4188] = 0x47;
    late[4376] = 0x47;
    assert_eq!(detect_ts_sync_offset(&late), 0);

    let mut inside = vec![0u8; 6000];
    inside[3000] = 0x47;
    inside[3188] = 0x47;
    inside[3376] = 0x47;
    assert_eq!(detect_ts_sync_offset(&inside), 3000);
}

#[test]
fn key_tags_set_the_encryption_of_later_segments() {
    let text = [
        "#EXT-X-KEY:METHOD=AES-128,URI=\"key.bin\",IV=0x00000000000000000000000000000001",
        "#EXT-X-MAP:URI=\"init.mp4\"",
        "#EXTINF:2,",
        "a.m4s",
        "#EXT-X-KEY:METHOD=NONE",
        "#EXTINF:2,",
        "b.m4s",
    ]
    .join("\n");
    let p = M3U8MediaPlaylist::parse(&text, MEDIA_URL).unwrap();
    let init_key = p.init_map_file.as_ref().unwrap().key.as_ref().unwrap();
    assert_eq!(init_key.method, "AES-128");
    assert_eq!(init_key.uri, "https://example.com/v/key.bin");
    assert_eq!(init_key.iv.as_deref(), Some("0x00000000000000000000000000000001"));
    let k0 = p.segments[0].key.as_ref().unwrap();
    assert_eq!(k0.uri, "https://example.com/v/key.bin");
    assert!(p.segments[1].key.is_none());
}

#[test]
fn key_tag_errors() {
    assert_eq!(
        M3U8MediaPlaylist::parse("#EXT-X-KEY:METHOD=AES-128", MEDIA_URL).err().unwrap(),
        "URI missing"
    );
    assert_eq!(
        M3U8MediaPlaylist::parse("#EXT-X-KEY", MEDIA_URL).err().unwrap(),
        "Invalid attribute line"
    );
    // No method: no encryption.
    let p = M3U8MediaPlaylist::parse("#EXT-X-KEY:URI=\"k\"\n#EXTINF:1,\na.ts", MEDIA_URL).unwrap();
    assert!(p.segments[0].key.is_none());
}
