use m3u8_downloader::http_body::{decode_zstd_body, is_zstd_encoding};
use m3u8_downloader::jobs::DownloadJob;
use m3u8_downloader::types::DownloadStatus;

#[test]
fn zstd_encoding_is_recognised() {
    assert!(is_zstd_encoding("zstd"));
    assert!(is_zstd_encoding("gzip, ZSTD"));
    assert!(is_zstd_encoding("Zstd"));
    assert!(!is_zstd_encoding("gzip"));
    assert!(!is_zstd_encoding(""));
}

#[test]
fn zstd_bodies_are_decompressed() {
    let text = "#EXTM3U\n#EXTINF:4,\nseg0.ts\n";
    let packed = zstd::stream::encode_all(std::io::Cursor::new(text.as_bytes()), 3).unwrap();
    assert_ne!(packed, text.as_bytes().to_vec());
    assert_eq!(decode_zstd_body(&packed).unwrap(), text);
}

#[test]
fn bad_bodies_are_refused() {
    assert!(decode_zstd_body(b"not zstd at all").is_err());
    let not_utf8 = zstd::stream::encode_all(std::io::Cursor::new(&[0xffu8, 0xfe][..]), 3).unwrap();
    assert_eq!(
        decode_zstd_body(&not_utf8).err().unwrap(),
        "invalid utf-8 sequence of 1 bytes from index 0"
    );
}

#[test]
fn default_job() {
    let j = DownloadJob::default();
    assert_eq!(j.id, "");
    assert_eq!(j.status, DownloadStatus::Queued);
    assert_eq!(j.total_segments, 0);
    assert_eq!(j.start_time, 0);
    assert!(j.http_headers.is_empty());
    assert_eq!(j.end_time, None);
}
