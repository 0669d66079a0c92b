use m3u8_downloader::download::{
    after_attempt, already_downloaded, attempt_failure_message, binary_merge_args,
    build_download_queue, choose_merge_strategy, concat_list_content, concat_merge_args,
    download_failure_message, ffmpeg_command_line, on_ffmpeg_event, partial_path, retry_backoff,
    FfmpegEvent, FfmpegStep, MergeStrategy, RetryStep, TsHeaderStripper, MAX_RETRIES,
};
use m3u8_downloader::download::{decrypted_segment, queue_decryption, Decryption};
use m3u8_downloader::playlist::M3U8MediaPlaylist;
use aes::cipher::{block_padding::Pkcs7, BlockEncryptMut, KeyIvInit};

fn strings(xs: &[&str]) -> Vec<String> {
    xs.iter().map(|s| s.to_string()).collect()
}

const URL: &str = "https://example.com/v/index.m3u8";

#[test]
fn queue_of_a_transport_stream() {
    let text = "#EXTINF:1,\na.ts\n#EXTINF:1,\nb.ts\n#EXTINF:1,\nc.ts";
    let media = M3U8MediaPlaylist::parse(text, URL).unwrap();
    let q = build_download_queue(&media);
    assert_eq!(q.len(), 3);
    assert_eq!(q[0], ("https://example.com/v/a.ts".to_string(), "seq_00000.ts".to_string()));
    assert_eq!(q[1], ("https://example.com/v/b.ts".to_string(), "seq_00001.ts".to_string()));
    assert_eq!(q[2], ("https://example.com/v/c.ts".to_string(), "seq_00002.ts".to_string()));
}

#[test]
fn queue_with_an_init_segment() {
    let text = "#EXT-X-MAP:URI=\"init.mp4\"\n#EXTINF:1,\na.m4s\n#EXTINF:1,\nb.m4s";
    let media = M3U8MediaPlaylist::parse(text, URL).unwrap();
    let q = build_download_queue(&media);
    let names: Vec<&str> = q.iter().map(|p| p.1.as_str()).collect();
    assert_eq!(names, vec!["init.mp4", "seq_00000.m4s", "seq_00001.m4s"]);
    assert_eq!(q[0].0, "https://example.com/v/init.mp4");
    // Sorting the names gives back the download order.
    let mut sorted = names.clone();
    sorted.sort();
    assert_eq!(sorted, names);
}

#[test]
fn backoff_doubles_up_to_eight_seconds() {
    let waits: Vec<Option<u64>> = (1..=7).map(|a| retry_backoff(a, 7)).collect();
    assert_eq!(waits, vec![Some(1), Some(2), Some(4), Some(8), Some(8), Some(8), None]);
    assert_eq!(retry_backoff(5, MAX_RETRIES), None);
    assert_eq!(retry_backoff(4, MAX_RETRIES), Some(8));
    assert_eq!(retry_backoff(64, 64), None);
    assert_eq!(retry_backoff(63, 64), Some(8));
    // Past the last attempt there is no wait, however large the attempt.
    assert_eq!(retry_backoff(100, 5), None);
    assert!(matches!(after_attempt(100, 100, false), RetryStep::GiveUp));
}

#[test]
fn retry_steps() {
    assert!(matches!(after_attempt(1, MAX_RETRIES, true), RetryStep::Finish));
    assert!(matches!(after_attempt(5, MAX_RETRIES, true), RetryStep::Finish));
    assert!(matches!(after_attempt(5, MAX_RETRIES, false), RetryStep::GiveUp));
    match after_attempt(2, MAX_RETRIES, false) {
        RetryStep::Wait { seconds, next } => {
            assert_eq!(seconds, 2);
            assert_eq!(next, 3);
        }
        _ => panic!("expected a wait"),
    }
}

#[test]
fn existing_files_are_skipped() {
    assert!(already_downloaded(Some(10)));
    assert!(!already_downloaded(Some(0)));
    assert!(!already_downloaded(None));
}

#[test]
fn merge_strategy() {
    assert_eq!(choose_merge_strategy(&strings(&["init.mp4", "seq_00000.ts"])), MergeStrategy::Binary);
    assert_eq!(choose_merge_strategy(&strings(&["seq_00000.m4s"])), MergeStrategy::Concat);
    assert_eq!(choose_merge_strategy(&strings(&[])), MergeStrategy::Concat);
}

#[test]
fn concat_list() {
    let list = concat_list_content(&strings(&["C:\\tmp\\seq_00000.m4s", "/tmp/seq_00001.m4s"]));
    assert_eq!(list, "file 'C:/tmp/seq_00000.m4s'\nfile '/tmp/seq_00001.m4s'\n");
    assert_eq!(concat_list_content(&strings(&[])), "");
}

#[test]
fn ffmpeg_arguments() {
    assert_eq!(
        binary_merge_args("/tmp/j/temp_merged.mp4", "/dl/out.mp4"),
        strings(&["-hide_banner", "-y", "-i", "/tmp/j/temp_merged.mp4", "-c", "copy", "-movflags", "+faststart", "/dl/out.mp4"])
    );
    assert_eq!(
        concat_merge_args("/tmp/j/segments.txt", "/dl/out.mp4"),
        strings(&["-hide_banner", "-f", "concat", "-safe", "0", "-i", "/tmp/j/segments.txt", "-c", "copy", "-movflags", "+faststart", "-y", "/dl/out.mp4"])
    );
}

#[test]
fn ffmpeg_command_line_quotes_spaces() {
    let args = binary_merge_args("/tmp/j/temp_merged.mp4", "/dl/my movie.mp4");
    assert_eq!(
        ffmpeg_command_line(&args),
        "ffmpeg -hide_banner -y -i /tmp/j/temp_merged.mp4 -c copy -movflags +faststart \"/dl/my movie.mp4\""
    );
    assert_eq!(ffmpeg_command_line(&strings(&[])), "ffmpeg ");
}

#[test]
fn ffmpeg_events() {
    match on_ffmpeg_event(FfmpegEvent::Stdout("frame=1".to_string())) {
        FfmpegStep::Log(l) => assert_eq!(l, "[FFmpeg] frame=1"),
        _ => panic!("expected a log line"),
    }
    match on_ffmpeg_event(FfmpegEvent::Stderr("warning".to_string())) {
        FfmpegStep::Log(l) => assert_eq!(l, "[FFmpeg] warning"),
        _ => panic!("expected a log line"),
    }
    assert!(matches!(on_ffmpeg_event(FfmpegEvent::Terminated(Some(0))), FfmpegStep::Finished(Ok(()))));
    match on_ffmpeg_event(FfmpegEvent::Terminated(Some(1))) {
        FfmpegStep::Finished(Err(m)) => assert_eq!(m, "FFmpeg exited with error code: Some(1)"),
        _ => panic!("expected a failure"),
    }
    match on_ffmpeg_event(FfmpegEvent::Terminated(Some(-9))) {
        FfmpegStep::Finished(Err(m)) => assert_eq!(m, format!("FFmpeg exited with error code: {:?}", Some(-9))),
        _ => panic!("expected a failure"),
    }
    match on_ffmpeg_event(FfmpegEvent::Terminated(None)) {
        FfmpegStep::Finished(Err(m)) => assert_eq!(m, "FFmpeg exited with error code: None"),
        _ => panic!("expected a failure"),
    }
    match on_ffmpeg_event(FfmpegEvent::Error("spawn".to_string())) {
        FfmpegStep::Finished(Err(m)) => assert_eq!(m, "FFmpeg execution error: spawn"),
        _ => panic!("expected a failure"),
    }
    assert!(matches!(on_ffmpeg_event(FfmpegEvent::Other), FfmpegStep::Ignore));
}

fn ts_packets_after_junk(junk: usize, total: usize) -> Vec<u8> {
    let mut v = vec![0xAAu8; total];
    let mut i = junk;
    while i < total {
        v[i] = 0x47;
        i += 188;
    }
    v
}

#[test]
fn stripper_drops_junk_in_front_of_a_transport_stream() {
    let data = ts_packets_after_junk(10, 2000);
    let mut s = TsHeaderStripper::new(true);
    let first = s.feed(&data[..600]);
    assert!(first.is_empty());
    let second = s.feed(&data[600..1100]);
    assert_eq!(second, data[10..1100].to_vec());
    let third = s.feed(&data[1100..]);
    assert_eq!(third, data[1100..].to_vec());
    assert!(s.finish().is_empty());
}

#[test]
fn stripper_releases_a_short_stream_at_the_end() {
    let data = ts_packets_after_junk(3, 500);
    let mut s = TsHeaderStripper::new(true);
    assert!(s.feed(&data).is_empty());
    assert_eq!(s.finish(), data[3..].to_vec());
}

#[test]
fn stripper_passes_other_streams_through() {
    let data = ts_packets_after_junk(10, 2000);
    let mut s = TsHeaderStripper::new(false);
    assert_eq!(s.feed(&data[..100]), data[..100].to_vec());
    assert!(s.finish().is_empty());
}

#[test]
fn download_messages() {
    assert_eq!(partial_path("/tmp/j/seq_00001.ts"), "/tmp/j/seq_00001.ts.part");
    assert_eq!(
        download_failure_message("/tmp/j/seq_00001.ts", MAX_RETRIES),
        "Failed to download /tmp/j/seq_00001.ts after 5 attempts"
    );
    assert_eq!(
        attempt_failure_message("/tmp/j/seq_00001.ts", 2, 5, "HTTP Error: 404 Not Found"),
        "Error on /tmp/j/seq_00001.ts (Attempt 2/5): HTTP Error: 404 Not Found"
    );
}

fn encrypt(plain: &[u8], key: &[u8; 16], iv: &[u8; 16]) -> Vec<u8> {
    let mut buf = vec![0u8; plain.len() + 16];
    buf[..plain.len()].copy_from_slice(plain);
    let ct = cbc::Encryptor::<aes::Aes128>::new(key.into(), iv.into())
        .encrypt_padded_mut::<Pkcs7>(&mut buf, plain.len())
        .unwrap();
    ct.to_vec()
}

#[test]
fn decryption_of_the_queue() {
    let text = [
        "#EXT-X-MEDIA-SEQUENCE:7",
        "#EXTINF:1,",
        "clear.ts",
        "#EXT-X-KEY:METHOD=AES-128,URI=\"keys/k1.bin\"",
        "#EXTINF:1,",
        "a.ts",
        "#EXT-X-KEY:METHOD=AES-128,URI=\"https://k.example.org/k2\",IV=0x0102",
        "#EXTINF:1,",
        "b.ts",
        "#EXT-X-KEY:METHOD=SAMPLE-AES,URI=\"s.key\"",
        "#EXTINF:1,",
        "c.ts",
        "#EXT-X-KEY:METHOD=NONE",
        "#EXTINF:1,",
        "d.ts",
    ]
    .join("\n");
    let media = M3U8MediaPlaylist::parse(&text, URL).unwrap();
    let d = queue_decryption(&media);
    assert_eq!(d.len(), 5);
    assert!(d[0].is_none());
    let d1 = d[1].as_ref().unwrap();
    assert_eq!(d1.key_uri, "https://example.com/v/keys/k1.bin");
    assert_eq!(d1.iv, None);
    assert_eq!(d1.sequence, 8);
    let d2 = d[2].as_ref().unwrap();
    assert_eq!(d2.key_uri, "https://k.example.org/k2");
    assert_eq!(d2.iv.as_deref(), Some("0x0102"));
    assert_eq!(d2.sequence, 9);
    assert!(d[3].is_none());
    assert!(d[4].is_none());
}

#[test]
fn encrypted_segments_are_written_as_plaintext() {
    let key = [9u8; 16];
    let mut plain = ts_packets_after_junk(0, 1500);
    plain[0] = 0x47;
    let mut iv = [0u8; 16];
    iv[15] = 4;
    let body = encrypt(&plain, &key, &iv);
    let d = Decryption { key_uri: "k".to_string(), iv: None, sequence: 4 };
    assert_eq!(decrypted_segment(&body, true, &key, &d).unwrap(), plain);

    // Junk in front of the decrypted transport stream is dropped.
    let junky = ts_packets_after_junk(5, 1500);
    let body2 = encrypt(&junky, &key, &iv);
    assert_eq!(decrypted_segment(&body2, true, &key, &d).unwrap(), junky[5..].to_vec());

    // A wrong key length, a bad IV, or a body of the wrong length is refused.
    assert_eq!(
        decrypted_segment(&body, true, &key[..8], &d).err().unwrap(),
        "AES-128 key must be 16 bytes"
    );
    let bad_iv = Decryption { key_uri: "k".to_string(), iv: Some("zz".to_string()), sequence: 4 };
    assert_eq!(
        decrypted_segment(&body, true, &key, &bad_iv).err().unwrap(),
        "Invalid IV hex: Invalid character 'z' at position 0"
    );
    assert_eq!(
        decrypted_segment(&body[..15], true, &key, &d).err().unwrap(),
        "AES Decryption error: UnpadError"
    );
}
