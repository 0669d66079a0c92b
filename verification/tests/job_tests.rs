use m3u8_downloader::jobs::{
    active_paths, begin_merge, check_active_downloads, check_file_status, completed_job_ids,
    find_job_index, finish_merge_error, finish_merge_success, is_target_busy, mark_job_aborted,
    mark_job_paused, pause_job_in_list, record_progress, remove_job, resume_job_data,
    update_job_after_refresh, DownloadJob, PROGRESS_DONE_BITS, PROGRESS_MERGING_BITS,
};
use m3u8_downloader::types::{DownloadStatus, TargetFileStatus};

fn headers() -> Vec<(String, String)> {
    vec![("Referer".to_string(), "https://example.com/".to_string())]
}

fn job(id: &str, folder: &str, name: &str, status: DownloadStatus) -> DownloadJob {
    let mut j = DownloadJob::new(
        format!("https://example.com/{}.m3u8", id),
        headers(),
        folder.to_string(),
        name.to_string(),
        10,
    );
    j.id = id.to_string();
    j.status = status;
    j.start_time = 1000;
    j
}

fn sample() -> Vec<DownloadJob> {
    vec![
        job("a", "/dl", "a.mp4", DownloadStatus::Downloading),
        job("b", "/dl", "b.mp4", DownloadStatus::CompletedSuccess),
        job("c", "/dl", "c.mp4", DownloadStatus::Paused),
        job("d", "/dl", "d.mp4", DownloadStatus::CompletedError("boom".to_string())),
        job("e", "/dl", "e.mp4", DownloadStatus::Queued),
    ]
}

fn ids(jobs: &[DownloadJob]) -> Vec<String> {
    jobs.iter().map(|j| j.id.clone()).collect()
}

#[test]
fn statuses() {
    let all = [
        DownloadStatus::Queued,
        DownloadStatus::Downloading,
        DownloadStatus::Merging,
        DownloadStatus::Paused,
        DownloadStatus::CompletedSuccess,
        DownloadStatus::CompletedError("x".to_string()),
    ];
    let ongoing: Vec<bool> = all.iter().map(|s| s.is_ongoing()).collect();
    assert_eq!(ongoing, vec![true, true, true, true, false, false]);
    let resume: Vec<bool> = all.iter().map(|s| s.can_resume()).collect();
    assert_eq!(resume, vec![false, false, false, true, false, true]);
    let pause: Vec<bool> = all.iter().map(|s| s.can_pause()).collect();
    assert_eq!(pause, vec![true, true, true, false, false, false]);
    for s in all.iter() {
        // A status is never both pausable and resumable.
        assert!(!(s.can_pause() && s.can_resume()));
        assert_eq!(s.is_completed(), !s.is_ongoing());
        assert_eq!(s.duplicate(), s.clone());
    }
}

#[test]
fn new_job() {
    let j = DownloadJob::new("https://x/v.m3u8".to_string(), headers(), "/dl".to_string(), "v.mp4".to_string(), 42);
    assert_eq!(j.id.len(), 36);
    assert_eq!(j.id.matches('-').count(), 4);
    assert_eq!(j.m3u8_url, "https://x/v.m3u8");
    assert_eq!(j.http_headers, headers());
    assert_eq!(j.status, DownloadStatus::Downloading);
    assert_eq!(j.total_segments, 42);
    assert_eq!(j.downloaded_segments, 0);
    assert_eq!(j.downloaded_bytes, 0);
    assert_eq!(j.final_file_size, None);
    assert_eq!(j.progress_bits, 0);
    assert_eq!(j.end_time, None);
    let k = DownloadJob::new("u".to_string(), vec![], "f".to_string(), "n".to_string(), 1);
    assert_ne!(j.id, k.id);
}

#[test]
fn finding_jobs() {
    let jobs = sample();
    assert_eq!(find_job_index(&jobs, "c"), Some(2));
    assert_eq!(find_job_index(&jobs, "zz"), None);
}

#[test]
fn pause_and_resume() {
    let mut jobs = sample();
    jobs[0].downloaded_bytes = 5000;
    jobs[0].downloaded_segments = 4;
    jobs[0].instant_speed = 300;
    assert!(pause_job_in_list(&mut jobs, "a"));
    assert_eq!(jobs[0].status, DownloadStatus::Paused);
    assert_eq!(jobs[0].instant_speed, 0);
    assert_eq!(jobs[0].downloaded_bytes, 5000);
    assert_eq!(jobs[0].downloaded_segments, 4);
    assert!(jobs[0].status.can_resume());
    let data = resume_job_data(&jobs, "a").unwrap().unwrap();
    assert_eq!(data.0, "https://example.com/a.m3u8");
    assert_eq!(data.1, "/dl");
    assert_eq!(data.2, "a.mp4");
    assert_eq!(data.3, headers());

    // A finished job cannot be paused; nothing changes.
    let before = jobs.clone();
    assert!(!pause_job_in_list(&mut jobs, "b"));
    assert!(!pause_job_in_list(&mut jobs, "nope"));
    assert_eq!(ids(&jobs), ids(&before));
    assert_eq!(jobs[1].status, DownloadStatus::CompletedSuccess);
}

#[test]
fn resume_refusals() {
    let jobs = sample();
    // A running job is not resumed.
    assert!(resume_job_data(&jobs, "e").unwrap().is_none());
    // A failed job is.
    assert!(resume_job_data(&jobs, "d").unwrap().is_some());
    assert_eq!(resume_job_data(&jobs, "zz").err().unwrap(), "Job not found");
}

#[test]
fn marking_jobs() {
    let mut jobs = sample();
    mark_job_paused(&mut jobs, "e");
    assert_eq!(jobs[4].status, DownloadStatus::Paused);
    jobs[0].instant_speed = 99;
    mark_job_aborted(&mut jobs, "a", "net down".to_string());
    assert_eq!(jobs[0].status, DownloadStatus::CompletedError("net down".to_string()));
    assert_eq!(jobs[0].instant_speed, 0);
    mark_job_aborted(&mut jobs, "missing", "x".to_string());
    assert_eq!(jobs.len(), 5);
}

#[test]
fn refresh_before_resume() {
    let mut jobs = sample();
    let fresh = vec![("Cookie".to_string(), "k=v".to_string())];
    update_job_after_refresh(&mut jobs, "c", 77, &fresh);
    assert_eq!(jobs[2].total_segments, 77);
    assert_eq!(jobs[2].http_headers, fresh);
    assert_eq!(jobs[2].status, DownloadStatus::Downloading);
    assert_eq!(jobs[1].http_headers, headers());
}

#[test]
fn progress_and_merge() {
    let mut jobs = sample();
    record_progress(&mut jobs, "a", 10_000, 5, 2_000, 3);
    assert_eq!(jobs[0].downloaded_bytes, 10_000);
    assert_eq!(jobs[0].downloaded_segments, 5);
    assert_eq!(jobs[0].instant_speed, 2_000);
    assert_eq!(jobs[0].eta, 3);

    begin_merge(&mut jobs, "a", 1010);
    assert_eq!(jobs[0].status, DownloadStatus::Merging);
    assert_eq!(jobs[0].average_speed, 1_000);
    assert_eq!(jobs[0].instant_speed, 0);
    assert_eq!(jobs[0].downloaded_bytes, 10_000);
    assert_eq!(f32::from_bits(jobs[0].progress_bits), 0.96);
    assert_eq!(jobs[0].progress_bits, PROGRESS_MERGING_BITS);

    finish_merge_success(&mut jobs, "a", 1020, Some(123_456));
    assert_eq!(jobs[0].status, DownloadStatus::CompletedSuccess);
    assert_eq!(jobs[0].progress_bits, PROGRESS_DONE_BITS);
    assert_eq!(f32::from_bits(PROGRESS_DONE_BITS), 1.0);
    assert_eq!(jobs[0].final_file_size, Some(123_456));
    assert_eq!(jobs[0].downloaded_bytes, 123_456);
    assert_eq!(jobs[0].end_time, Some(1020));

    finish_merge_error(&mut jobs, "c", "Merge failed: x".to_string(), 1030);
    assert_eq!(jobs[2].status, DownloadStatus::CompletedError("Merge failed: x".to_string()));
    assert_eq!(jobs[2].end_time, Some(1030));
}

#[test]
fn merge_at_start_time_counts_one_second() {
    let mut jobs = sample();
    jobs[0].downloaded_bytes = 500;
    begin_merge(&mut jobs, "a", 1000);
    assert_eq!(jobs[0].average_speed, 500);
}

#[test]
fn removing_jobs() {
    let mut jobs = sample();
    assert!(remove_job(&mut jobs, "c").is_ok());
    assert_eq!(ids(&jobs), vec!["a", "b", "d", "e"]);
    assert_eq!(remove_job(&mut jobs, "c").err().unwrap(), "Job not found");
    assert_eq!(ids(&jobs), vec!["a", "b", "d", "e"]);
}

#[test]
fn deleting_completed_jobs_leaves_the_others() {
    let mut jobs = sample();
    let done = completed_job_ids(&jobs);
    assert_eq!(done, vec!["b", "d"]);
    for id in done.iter() {
        assert!(remove_job(&mut jobs, id).is_ok());
    }
    assert_eq!(ids(&jobs), vec!["a", "c", "e"]);
    assert!(completed_job_ids(&jobs).is_empty());
}

#[test]
fn active_targets() {
    let jobs = sample();
    assert_eq!(active_paths(&jobs), vec!["/dl/a.mp4", "/dl/c.mp4", "/dl/e.mp4"]);
    assert!(is_target_busy(&jobs, "/dl", "a.mp4"));
    assert!(!is_target_busy(&jobs, "/dl", "b.mp4"));
    assert!(!is_target_busy(&jobs, "/other", "a.mp4"));
    assert_eq!(check_file_status(&jobs, "/dl", "a.mp4", true), TargetFileStatus::Busy);
    assert_eq!(check_file_status(&jobs, "/dl", "b.mp4", true), TargetFileStatus::Exists);
    assert_eq!(check_file_status(&jobs, "/dl", "new.mp4", false), TargetFileStatus::Ready);
    assert!(check_active_downloads(&jobs));
    let finished = vec![job("z", "/dl", "z.mp4", DownloadStatus::CompletedSuccess)];
    assert!(!check_active_downloads(&finished));
}
