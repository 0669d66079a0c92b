use aes::cipher::{block_padding::Pkcs7, BlockEncryptMut, KeyIvInit};
use m3u8_downloader::crypto_utils::{decrypt_aes128, get_iv, segment_plaintext};
use m3u8_downloader::fs_utils::{
    candidate_filename, candidate_path, file_stem_from_url, get_data_root_dir, get_download_dir,
    get_env_temp_dir, get_job_dir, get_job_log_file_path, get_job_m3u8_backup_file_path,
    get_jobs_db_file_path, get_logs_dir, get_settings_file_path, is_path_claimed, last_name_part,
    paths_equal, resolve_target_folder, resolve_unique_filename_step, NameSearch,
};
use m3u8_downloader::numbers::{decimal_chars, zero_padded_chars};
use m3u8_downloader::sorting::select_segment_files;
use m3u8_downloader::string_utils::{join, map_codec, parse_attributes, resolve_m3u8_url};
use m3u8_downloader::types::LogCategory;

fn strings(xs: &[&str]) -> Vec<String> {
    xs.iter().map(|s| s.to_string()).collect()
}

#[test]
fn attributes_are_parsed() {
    let a = parse_attributes("#EXT-X-KEY:METHOD=AES-128,URI=\"https://k.example/key\",IV=0x01").unwrap();
    assert_eq!(a.len(), 3);
    assert_eq!(a.get("METHOD").as_deref(), Some("AES-128"));
    assert_eq!(a.get("URI").as_deref(), Some("https://k.example/key"));
    assert_eq!(a.get("IV").as_deref(), Some("0x01"));
    assert_eq!(a.get("KEYFORMAT"), None);

    // Everything after the first colon is the list; pieces without `=` are skipped,
    // a value keeps further `=` signs, and quotes are stripped on both ends.
    let b = parse_attributes("#TAG:A=1:2,junk,B=x=y,C=\"\"q\"\"").unwrap();
    assert_eq!(b.get("A").as_deref(), Some("1:2"));
    assert_eq!(b.get("B").as_deref(), Some("x=y"));
    assert_eq!(b.get("C").as_deref(), Some("q"));
    assert_eq!(b.len(), 3);

    // Later pairs with the same key win.
    let c = parse_attributes("#T:K=1,K=2").unwrap();
    assert_eq!(c.get("K").as_deref(), Some("2"));
    // A repeated key counts once.
    assert_eq!(c.len(), 1);
    assert_eq!(parse_attributes("#T:A=1,B=2,A=3").unwrap().len(), 2);

    assert_eq!(parse_attributes("#EXT-X-KEY").err().unwrap(), "Invalid attribute line");
    assert_eq!(parse_attributes("#T:").unwrap().len(), 0);
}

#[test]
fn codecs_are_mapped() {
    assert_eq!(map_codec(Some("av01.0.05M.08")), "av1");
    assert_eq!(map_codec(Some("avc1.64001f")), "h264");
    assert_eq!(map_codec(Some("avc1.1,av01.2")), "av1");
    assert_eq!(map_codec(Some("hvc1.1.6.L93")), "hvc1.1.6.L93");
    assert_eq!(map_codec(None), "");
}

#[test]
fn urls_are_resolved() {
    assert_eq!(
        resolve_m3u8_url("https://example.com/a/master.m3u8", "low/index.m3u8".to_string()),
        "https://example.com/a/low/index.m3u8"
    );
    assert_eq!(
        resolve_m3u8_url("https://example.com/a/master.m3u8", "/root.m3u8".to_string()),
        "https://example.com/root.m3u8"
    );
    assert_eq!(
        resolve_m3u8_url("https://example.com/a/master.m3u8", "https://cdn.example.org/x.m3u8".to_string()),
        "https://cdn.example.org/x.m3u8"
    );
    // An unusable base leaves the URI as it was.
    assert_eq!(resolve_m3u8_url("master.m3u8", "low.m3u8".to_string()), "low.m3u8");
}

#[test]
fn paths_are_joined() {
    assert_eq!(join("/data", "jobs"), "/data/jobs");
    assert_eq!(join("/data/", "jobs"), "/data/jobs");
    assert_eq!(join("", "jobs"), "jobs");
    assert_eq!(join("/data", "/etc"), "/etc");
    assert_eq!(join("/data", ""), "/data/");
}

#[test]
fn app_folders() {
    assert_eq!(get_env_temp_dir("/tmp"), "/tmp/M3U8Downloader");
    assert_eq!(get_data_root_dir(Some("/home/u/.local/share/M3U8Downloader".to_string())).unwrap(),
        "/home/u/.local/share/M3U8Downloader");
    assert_eq!(get_data_root_dir(None).err().unwrap(), "Could not resolve app directory");
    assert_eq!(get_job_dir("/d", "j1"), "/d/jobs/j1");
    assert_eq!(get_logs_dir("/d"), "/d/logs");
    assert_eq!(get_jobs_db_file_path("/d"), "/d/jobs.json");
    assert_eq!(get_job_log_file_path("/d", "j1", LogCategory::General), "/d/jobs/j1/j1_general.log");
    assert_eq!(get_job_log_file_path("/d", "j1", LogCategory::Download), "/d/jobs/j1/j1_download.log");
    assert_eq!(get_job_log_file_path("/d", "j1", LogCategory::Merge), "/d/jobs/j1/j1_merge.log");
    assert_eq!(get_job_m3u8_backup_file_path("/d", "j1"), "/d/jobs/j1/j1.m3u8");
    assert_eq!(get_settings_file_path("/home/u/.config/M3U8Downloader"),
        "/home/u/.config/M3U8Downloader/settings.json");
    assert_eq!(get_download_dir("/tmp", "j1"), "/tmp/M3U8Downloader/j1");
}

#[test]
fn iv_from_sequence_number() {
    let iv = get_iv(&None, 0x0102_0304).unwrap();
    let mut expected = [0u8; 16];
    expected[12] = 1;
    expected[13] = 2;
    expected[14] = 3;
    expected[15] = 4;
    assert_eq!(iv, expected);
    assert_eq!(get_iv(&None, 0).unwrap(), [0u8; 16]);
}

#[test]
fn iv_from_hex() {
    let iv = get_iv(&Some("0x0102".to_string()), 7).unwrap();
    let mut expected = [0u8; 16];
    expected[14] = 1;
    expected[15] = 2;
    assert_eq!(iv, expected);

    let full = get_iv(&Some("0X000102030405060708090a0b0c0d0e0f".to_string()), 0).unwrap();
    assert_eq!(full, [0, 1, 2, 3, 4, 5, 6, 7, 8, 9, 10, 11, 12, 13, 14, 15]);

    // Every leading `0x` goes, not only the first.
    let twice = get_iv(&Some("0x0xff".to_string()), 0).unwrap();
    assert_eq!(twice[15], 0xff);

    let empty = get_iv(&Some("0x".to_string()), 9).unwrap();
    assert_eq!(empty, [0u8; 16]);
}

#[test]
fn iv_errors() {
    assert_eq!(
        get_iv(&Some("zz".to_string()), 0).err().unwrap(),
        "Invalid IV hex: Invalid character 'z' at position 0"
    );
    assert_eq!(get_iv(&Some("123".to_string()), 0).err().unwrap(), "Invalid IV hex: Odd number of digits");
    assert_eq!(
        get_iv(&Some("0x000102030405060708090a0b0c0d0e0f10".to_string()), 0).err().unwrap(),
        "IV is too long (must be 16 bytes)"
    );
}

fn encrypt(plain: &[u8], key: &[u8; 16], iv: &[u8; 16]) -> Vec<u8> {
    let mut buf = vec![0u8; plain.len() + 16];
    buf[..plain.len()].copy_from_slice(plain);
    let ct = cbc::Encryptor::<aes::Aes128>::new(key.into(), iv.into())
        .encrypt_padded_mut::<Pkcs7>(&mut buf, plain.len())
        .unwrap();
    ct.to_vec()
}

#[test]
fn segments_are_decrypted() {
    let key = [7u8; 16];
    let iv = get_iv(&None, 3).unwrap();
    let plain = b"segment payload that spans more than one block".to_vec();
    let ct = encrypt(&plain, &key, &iv);
    assert_ne!(ct, plain);
    assert_eq!(decrypt_aes128(&ct, &key, &iv).unwrap(), plain);

    let empty = encrypt(b"", &key, &iv);
    assert_eq!(empty.len(), 16);
    assert_eq!(decrypt_aes128(&empty, &key, &iv).unwrap(), Vec::<u8>::new());
}

#[test]
fn bad_ciphertext_is_refused() {
    let key = [1u8; 16];
    let iv = [0u8; 16];
    assert_eq!(
        decrypt_aes128(&[0u8; 15], &key, &iv).err().unwrap(),
        "AES Decryption error: UnpadError"
    );
}

#[test]
fn file_stems_from_urls() {
    assert_eq!(file_stem_from_url("https://example.com/videos/movie.m3u8?token=abc"), "movie");
    assert_eq!(file_stem_from_url("https://example.com/videos/clip.mp4"), "clip");
    assert_eq!(file_stem_from_url("https://example.com/videos/clip.MP4.m3u8"), "clip");
    assert_eq!(file_stem_from_url("https://example.com/playlist"), "playlist");
    assert_eq!(file_stem_from_url("https://example.com/a/.hidden"), ".hidden");
    assert_eq!(file_stem_from_url("https://example.com/a/.."), "video");
    // A URL ending in `/` names a folder: the default name is used.
    assert_eq!(file_stem_from_url("http://site.com/videos/"), "video");
    assert_eq!(file_stem_from_url("http://site.com/videos/?x=1"), "video");
    assert_eq!(file_stem_from_url("https://example.com/"), "video");
    assert_eq!(candidate_filename(&file_stem_from_url("http://site.com/videos/"), 0), "video.mp4");
    assert_eq!(file_stem_from_url(""), "video");
    assert_eq!(file_stem_from_url("?x=1"), "video");
}

#[test]
fn candidate_names() {
    assert_eq!(candidate_filename("movie", 0), "movie.mp4");
    assert_eq!(candidate_filename("movie", 1), "movie (1).mp4");
    assert_eq!(candidate_filename("movie", 12), "movie (12).mp4");
    assert_eq!(candidate_path("/dl", "movie", 2), "/dl/movie (2).mp4");
}

#[test]
fn path_comparison() {
    assert!(paths_equal("/a/b/c.mp4", "/a//b/./c.mp4"));
    assert!(paths_equal("/a/b/", "/a/b"));
    assert!(!paths_equal("/a/b", "a/b"));
    assert!(!paths_equal("./a", "a"));
    assert!(!paths_equal("/a/b", "/a/c"));
    assert!(is_path_claimed(&strings(&["/x/y.mp4", "/dl/movie.mp4"]), "/dl//movie.mp4"));
    assert!(!is_path_claimed(&strings(&["/x/y.mp4"]), "/dl/movie.mp4"));
    assert_eq!(last_name_part("/a/b/c.ts").unwrap().iter().collect::<String>(), "c.ts");
    assert!(last_name_part("/").is_none());
    assert!(last_name_part("/a/..").is_none());
}

#[test]
fn unique_name_search() {
    let active = strings(&["/dl/movie (1).mp4"]);
    // Counter 0 exists on disk, 1 is claimed by a job, 2 is free.
    match resolve_unique_filename_step("/dl", "movie", 0, true, &active) {
        NameSearch::Next(c) => assert_eq!(c, 1),
        NameSearch::Found(_) => panic!("taken on disk"),
    }
    match resolve_unique_filename_step("/dl", "movie", 1, false, &active) {
        NameSearch::Next(c) => assert_eq!(c, 2),
        NameSearch::Found(_) => panic!("claimed by a job"),
    }
    match resolve_unique_filename_step("/dl", "movie", 2, false, &active) {
        NameSearch::Found(n) => assert_eq!(n, "movie (2).mp4"),
        NameSearch::Next(_) => panic!("free"),
    }
}

#[test]
fn target_folder() {
    assert_eq!(resolve_target_folder("/chosen", Some("/home/u/Downloads".to_string())), "/chosen");
    assert_eq!(resolve_target_folder("", Some("/home/u/Downloads".to_string())), "/home/u/Downloads");
    assert_eq!(resolve_target_folder("", None), ".");
}

#[test]
fn segment_files_are_selected_and_sorted() {
    let listing = strings(&[
        "/tmp/j/seq_00002.ts",
        "/tmp/j/notes.txt",
        "/tmp/j/seq_00000.ts",
        "/tmp/j/init.mp4",
        "/tmp/j/seq_00001.ts",
        "/tmp/j/seq_00003.ts.part",
        "/tmp/j/noext",
    ]);
    let exts = strings(&["mp4", "m4s", "ts"]);
    let files = select_segment_files(&listing, &exts);
    assert_eq!(
        files,
        strings(&["/tmp/j/init.mp4", "/tmp/j/seq_00000.ts", "/tmp/j/seq_00001.ts", "/tmp/j/seq_00002.ts"])
    );
    assert!(select_segment_files(&listing, &strings(&[])).is_empty());
}

#[test]
fn numbers_are_written() {
    assert_eq!(decimal_chars(0).iter().collect::<String>(), "0");
    assert_eq!(decimal_chars(90210).iter().collect::<String>(), "90210");
    assert_eq!(zero_padded_chars(7, 5).iter().collect::<String>(), "00007");
    assert_eq!(zero_padded_chars(123456, 5).iter().collect::<String>(), "123456");
    assert_eq!(zero_padded_chars(42, 0).iter().collect::<String>(), "42");
}

#[test]
fn segment_plaintext_uses_the_iv() {
    let key = [3u8; 16];
    let mut seq_iv = [0u8; 16];
    seq_iv[15] = 12;
    let plain = b"encrypted segment".to_vec();
    let body = encrypt(&plain, &key, &seq_iv);
    assert_eq!(segment_plaintext(&body, &key, &None, 12).unwrap(), plain);
    let mut hex_iv = [0u8; 16];
    hex_iv[15] = 0xab;
    let body2 = encrypt(&plain, &key, &hex_iv);
    assert_eq!(segment_plaintext(&body2, &key, &Some("0xAB".to_string()), 99).unwrap(), plain);
    assert_eq!(
        segment_plaintext(&body, &key, &Some("123".to_string()), 12).err().unwrap(),
        "Invalid IV hex: Odd number of digits"
    );
    assert_eq!(
        segment_plaintext(&body, &[1u8; 15], &None, 12).err().unwrap(),
        "AES-128 key must be 16 bytes"
    );
}
