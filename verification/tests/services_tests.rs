use m3u8_downloader::m3u8_utils::try_parse_m3u8_content;
use m3u8_downloader::m3u8_utils::PlaylistData;
use m3u8_downloader::download::finished_report;
use m3u8_downloader::jobs::DownloadJob;
use m3u8_downloader::playlist::M3U8MediaPlaylist;
use m3u8_downloader::types::DownloadStatus;
use m3u8_downloader::services::{
    check_file_present, check_media_after_probe, check_media_step, choose_save_folder,
    combined_total_segments, create_job_result, empty_log_update, general_copy_line, log_line,
    on_progress, plan_merge, require_media, CheckMediaStep, MergePlan, MonitorAction, MonitorState,
    add_job, PlaylistRole,
};
use m3u8_downloader::types::{
    duplicates_to_general, AppSettings, CheckMediaResult, DownloadProgress, LogCategory, LogLevel,
    TrackType,
};

fn strings(xs: &[&str]) -> Vec<String> {
    xs.iter().map(|s| s.to_string()).collect()
}

const URL: &str = "https://example.com/v/index.m3u8";

#[test]
fn names() {
    assert_eq!(LogCategory::General.as_str(), "general");
    assert_eq!(LogCategory::Download.as_str(), "download");
    assert_eq!(LogCategory::Merge.as_str(), "merge");
    assert_eq!(LogCategory::from_name("merge"), LogCategory::Merge);
    assert_eq!(LogCategory::from_name("download"), LogCategory::Download);
    assert_eq!(LogCategory::from_name("anything"), LogCategory::General);
    assert_eq!(TrackType::Video.as_str(), "video");
    assert_eq!(TrackType::Audio.as_str(), "audio");
    assert_eq!(LogLevel::Warning.as_str(), "Warning");
}

#[test]
fn log_lines() {
    assert_eq!(log_line("12:00:01", LogLevel::Info, "Job initialized."), "[12:00:01] [Info] Job initialized.\n");
    assert_eq!(
        general_copy_line("12:00:02", LogLevel::Error, LogCategory::Merge, "Merge failed"),
        "[12:00:02] [Error] [MERGE] Merge failed\n"
    );
    assert!(duplicates_to_general(LogCategory::Download, LogLevel::Info));
    assert!(!duplicates_to_general(LogCategory::Download, LogLevel::Debug));
    assert!(!duplicates_to_general(LogCategory::General, LogLevel::Error));
    let u = empty_log_update();
    assert_eq!(u.logs, "");
    assert_eq!(u.new_offset, 0);
}

#[test]
fn settings_and_folders() {
    let s = AppSettings::default();
    assert_eq!(s.download_path, "");
    assert!(s.play_completion_sound);
    assert_eq!(choose_save_folder("/mine".to_string(), "/default".to_string()), "/mine");
    assert_eq!(choose_save_folder(String::new(), "/default".to_string()), "/default");
}

#[test]
fn files_present() {
    assert!(check_file_present(true, None, None));
    assert!(check_file_present(true, Some(10), Some(10)));
    assert!(!check_file_present(true, Some(10), Some(11)));
    assert!(check_file_present(true, Some(10), None));
    assert!(!check_file_present(false, None, Some(1)));
}

#[test]
fn progress_monitor() {
    let mut st = MonitorState { session_bytes: 0, finished_segments: 0 };
    assert!(matches!(on_progress(&mut st, DownloadProgress::BytesDownloaded(100)), MonitorAction::Continue));
    assert!(matches!(on_progress(&mut st, DownloadProgress::BytesDownloaded(50)), MonitorAction::Continue));
    assert!(matches!(on_progress(&mut st, DownloadProgress::SegmentFinished(true)), MonitorAction::Continue));
    assert_eq!(st.session_bytes, 150);
    assert_eq!(st.finished_segments, 1);
    match on_progress(&mut st, DownloadProgress::Log(LogLevel::Debug, "seg".to_string())) {
        MonitorAction::WriteLog(l, t) => {
            assert_eq!(l, LogLevel::Debug);
            assert_eq!(t, "seg");
        }
        _ => panic!("expected a log line"),
    }
    match on_progress(&mut st, DownloadProgress::SegmentFinished(false)) {
        MonitorAction::Abort(m) => assert_eq!(m, "A segment failed to download after maximum retries."),
        _ => panic!("expected an abort"),
    }
    assert_eq!(st.session_bytes, 150);
    assert_eq!(st.finished_segments, 1);
}

#[test]
fn media_check_of_a_failed_fetch() {
    match check_media_step(Err("HTTP Error: 403".to_string()), URL, "/dl".to_string(), "v.mp4".to_string()) {
        Some(CheckMediaStep::Done(r)) => {
            assert!(!r.success);
            assert_eq!(r.message, "HTTP Error: 403");
            assert_eq!(r.total_segments, 0);
            assert!(r.resolutions.is_none());
        }
        _ => panic!("expected a final answer"),
    }
}

#[test]
fn media_check_of_a_media_playlist() {
    let text = "#EXTINF:1,\na.ts\n#EXTINF:1,\nb.ts".to_string();
    match check_media_step(Ok(text), URL, "/dl".to_string(), "v.mp4".to_string()) {
        Some(CheckMediaStep::ProbeSegment { segment_url, if_reachable }) => {
            assert_eq!(segment_url, "https://example.com/v/a.ts");
            assert!(if_reachable.success);
            assert_eq!(if_reachable.total_segments, 2);
            assert_eq!(if_reachable.first_segment_url, "https://example.com/v/a.ts");
            assert_eq!(if_reachable.save_folder, "/dl");
            assert_eq!(if_reachable.suggested_filename, "v.mp4");
            let ok = check_media_after_probe(Ok(()), if_reachable);
            assert!(ok.success);
            let failed = check_media_after_probe(
                Err("404".to_string()),
                CheckMediaResult::success(2, String::new(), String::new(), String::new(), None, None),
            );
            assert!(!failed.success);
            assert_eq!(failed.message, "Playlist is valid, but cannot access media segments: 404");
        }
        _ => panic!("expected a probe"),
    }
}

#[test]
fn media_check_of_a_master_playlist() {
    let text = "#EXT-X-STREAM-INF:BANDWIDTH=500000,RESOLUTION=320x180\nlow.m3u8".to_string();
    match check_media_step(Ok(text), "https://example.com/m.m3u8", "/dl".to_string(), "m.mp4".to_string()) {
        Some(CheckMediaStep::Done(r)) => {
            assert!(r.success);
            assert_eq!(r.total_segments, 0);
            assert_eq!(r.first_segment_url, "");
            let res = r.resolutions.unwrap();
            assert_eq!(res.len(), 1);
            assert_eq!(res[0].resolution, "320x180");
            assert_eq!(res[0].bandwidth_kbps, 500);
            assert_eq!(res[0].uri, "https://example.com/low.m3u8");
            assert!(r.audio_options.is_none());
        }
        _ => panic!("expected a final answer"),
    }
}

#[test]
fn media_check_offers_audio_tracks() {
    let text = [
        "#EXT-X-MEDIA:TYPE=AUDIO,GROUP-ID=\"a\",NAME=\"English\",LANGUAGE=\"en\",URI=\"audio/en.m3u8\"",
        "#EXT-X-MEDIA:TYPE=AUDIO,GROUP-ID=\"a\",NAME=\"Muxed\"",
        "#EXT-X-MEDIA:TYPE=SUBTITLES,GROUP-ID=\"s\",NAME=\"Subs\",URI=\"subs.m3u8\"",
        "#EXT-X-MEDIA:TYPE=AUDIO,GROUP-ID=\"a\",NAME=\"Other\",URI=\"https://cdn.example.org/o.m3u8\"",
        "#EXT-X-STREAM-INF:BANDWIDTH=500000,AUDIO=\"a\"",
        "low.m3u8",
    ]
    .join("\n");
    match check_media_step(Ok(text), "https://example.com/m.m3u8", "/dl".to_string(), "m.mp4".to_string()) {
        Some(CheckMediaStep::Done(r)) => {
            assert!(r.success);
            let audio = r.audio_options.unwrap();
            assert_eq!(audio.len(), 2);
            assert_eq!(audio[0].id, 0);
            assert_eq!(audio[0].name, "English");
            assert_eq!(audio[0].language, "en");
            assert_eq!(audio[0].uri, "https://example.com/audio/en.m3u8");
            assert_eq!(audio[1].id, 1);
            assert_eq!(audio[1].name, "Other");
            assert_eq!(audio[1].language, "Unknown");
            assert_eq!(audio[1].uri, "https://cdn.example.org/o.m3u8");
        }
        _ => panic!("expected a final answer"),
    }
}

#[test]
fn media_check_of_bad_content() {
    match check_media_step(Ok("garbage".to_string()), URL, "/dl".to_string(), "v.mp4".to_string()) {
        Some(CheckMediaStep::Done(r)) => {
            assert!(!r.success);
            assert_eq!(r.message, "Error: Unknown or unsupported M3U8 file format");
        }
        _ => panic!("expected a final answer"),
    }
    assert!(check_media_step(Ok("#EXTINF\na.ts".to_string()), URL, String::new(), String::new()).is_none());
}

#[test]
fn job_creation_helpers() {
    let master = try_parse_m3u8_content("#EXT-X-STREAM-INF:BANDWIDTH=1\nx.m3u8", URL).unwrap().unwrap();
    assert_eq!(
        require_media(master, PlaylistRole::Video).err().unwrap(),
        "Cannot download Master playlist directly"
    );
    let media = try_parse_m3u8_content("#EXTINF:1,\na.ts", URL).unwrap().unwrap();
    assert!(matches!(media, PlaylistData::Media(_)));
    assert_eq!(require_media(media, PlaylistRole::Audio).unwrap().total_segments, 1);
    let m2 = try_parse_m3u8_content("#EXT-X-STREAM-INF:BANDWIDTH=1\nx.m3u8", URL).unwrap().unwrap();
    assert_eq!(require_media(m2, PlaylistRole::Audio).err().unwrap(), "Audio URL points to a Master Playlist");
    let m3 = try_parse_m3u8_content("#EXT-X-STREAM-INF:BANDWIDTH=1\nx.m3u8", URL).unwrap().unwrap();
    assert_eq!(
        require_media(m3, PlaylistRole::Refreshed(TrackType::Video)).err().unwrap(),
        "Resumed video URL is a Master Playlist."
    );
    let m4 = try_parse_m3u8_content("#EXT-X-STREAM-INF:BANDWIDTH=1\nx.m3u8", URL).unwrap().unwrap();
    assert_eq!(
        require_media(m4, PlaylistRole::Saved(TrackType::Audio)).err().unwrap(),
        "Saved audio backup is a Master Playlist."
    );
    assert_eq!(combined_total_segments(10, Some(5)), 15);
    assert_eq!(combined_total_segments(10, None), 10);
    let ok = create_job_result(Ok("id".to_string()));
    assert!(ok.success);
    assert_eq!(ok.message, "");
    let err = create_job_result(Err("boom".to_string()));
    assert!(!err.success);
    assert_eq!(err.message, "Failed to download video: boom");
}

#[test]
fn merge_plans() {
    assert_eq!(
        plan_merge(&strings(&[]), "/tmp/j", "/dl/o.mp4").err().unwrap(),
        "No video segments found to merge"
    );
    match plan_merge(&strings(&["/tmp/j/init.mp4", "/tmp/j/seq_00000.ts"]), "/tmp/j", "/dl/o.mp4").unwrap() {
        MergePlan::Binary { temp_merged_path, inputs, args } => {
            assert_eq!(temp_merged_path, "/tmp/j/temp_merged.mp4");
            assert_eq!(inputs, strings(&["/tmp/j/init.mp4", "/tmp/j/seq_00000.ts"]));
            assert_eq!(args[3], "/tmp/j/temp_merged.mp4");
            assert_eq!(args[8], "/dl/o.mp4");
        }
        _ => panic!("expected a binary merge"),
    }
    match plan_merge(&strings(&["/tmp/j/seq_00000.m4s", "/tmp/j/seq_00001.m4s"]), "/tmp/j", "/dl/o.mp4").unwrap() {
        MergePlan::Concat { list_path, list_content, inputs, args } => {
            assert_eq!(inputs.len(), 2);
            assert_eq!(list_path, "/tmp/j/segments.txt");
            assert_eq!(list_content, "file '/tmp/j/seq_00000.m4s'\nfile '/tmp/j/seq_00001.m4s'\n");
            assert_eq!(args[6], "/tmp/j/segments.txt");
            assert_eq!(args[12], "/dl/o.mp4");
        }
        _ => panic!("expected a concat merge"),
    }
}

#[test]
fn resumed_merge_leaves_out_its_own_files() {
    // A byte-wise merge that was paused left temp_merged.mp4 behind.
    let listed = strings(&[
        "/tmp/j/init.mp4",
        "/tmp/j/seq_00000.m4s",
        "/tmp/j/seq_00001.m4s",
        "/tmp/j/temp_merged.mp4",
    ]);
    match plan_merge(&listed, "/tmp/j", "/dl/o.mp4").unwrap() {
        MergePlan::Binary { temp_merged_path, inputs, .. } => {
            assert_eq!(temp_merged_path, "/tmp/j/temp_merged.mp4");
            assert_eq!(inputs, strings(&["/tmp/j/init.mp4", "/tmp/j/seq_00000.m4s", "/tmp/j/seq_00001.m4s"]));
        }
        _ => panic!("expected a binary merge"),
    }
    // The output itself, were it in the folder, is no input either.
    match plan_merge(&strings(&["/tmp/j/seq_00000.ts", "/tmp/j//out.mp4"]), "/tmp/j", "/tmp/j/out.mp4").unwrap() {
        MergePlan::Concat { inputs, list_content, .. } => {
            assert_eq!(inputs, strings(&["/tmp/j/seq_00000.ts"]));
            assert_eq!(list_content, "file '/tmp/j/seq_00000.ts'\n");
        }
        _ => panic!("expected a concat merge"),
    }
    // Only merge leftovers: nothing to merge.
    assert_eq!(
        plan_merge(&strings(&["/tmp/j/temp_merged.mp4"]), "/tmp/j", "/dl/o.mp4").err().unwrap(),
        "No video segments found to merge"
    );
}

#[test]
fn adding_a_job() {
    let video = M3U8MediaPlaylist::parse("#EXTINF:1,\na.ts\n#EXTINF:1,\nb.ts", URL).unwrap();
    let audio = M3U8MediaPlaylist::parse("#EXTINF:1,\nx.aac", URL).unwrap();
    let mut jobs: Vec<DownloadJob> = vec![DownloadJob::default()];
    let id = add_job(
        &mut jobs,
        URL.to_string(),
        vec![("Referer".to_string(), "r".to_string())],
        "/dl".to_string(),
        "v.mp4".to_string(),
        &video,
        Some(&audio),
    );
    assert_eq!(jobs.len(), 2);
    assert_eq!(jobs[0].id, "");
    let j = &jobs[1];
    assert_eq!(j.id, id);
    assert_eq!(id.len(), 36);
    assert_eq!(j.status, DownloadStatus::Downloading);
    assert_eq!(j.total_segments, 3);
    assert_eq!(j.m3u8_url, URL);
    assert_eq!(j.save_folder, "/dl");
    assert_eq!(j.file_name, "v.mp4");
    let id2 = add_job(&mut jobs, URL.to_string(), vec![], "/dl".to_string(), "w.mp4".to_string(), &video, None);
    assert_eq!(jobs[2].total_segments, 2);
    assert_ne!(id, id2);
}

#[test]
fn init_segment_is_not_counted() {
    let mut st = MonitorState { session_bytes: 0, finished_segments: 0 };
    let names = ["init.mp4", "seq_00000.m4s", "seq_00001.m4s"];
    for n in names.iter() {
        assert!(matches!(on_progress(&mut st, finished_report(n, true)), MonitorAction::Continue));
    }
    assert_eq!(st.finished_segments, 2);
    assert!(matches!(finished_report("init.mp4", false), DownloadProgress::InitSegmentFinished(false)));
    match on_progress(&mut st, finished_report("init.mp4", false)) {
        MonitorAction::Abort(m) => assert_eq!(m, "A segment failed to download after maximum retries."),
        _ => panic!("expected an abort"),
    }
    assert_eq!(st.finished_segments, 2);
}
