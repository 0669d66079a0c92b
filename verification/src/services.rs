//! The decisions of the services around a download: checking a stream
//! before it is downloaded, creating a job, following its progress,
//! planning the merge and writing job logs.
use vstd::prelude::*;
use crate::download::{
    binary_merge_args, binary_merge_args_of, concat_list_content, concat_list_of,
    concat_merge_args, concat_merge_args_of, init_file_name,
};
use crate::fs_utils::{file_name_of, last_name_part, paths_equal, same_path};
use crate::m3u8_utils::{
    playlist_panics, playlist_parse, try_parse_m3u8_content, PlaylistData, PlaylistModel,
};
use crate::playlist::{
    M3U8MediaPlaylist, MediaPlaylistModel, MediaRendition, RenditionModel, ResolutionModel,
};
use crate::string_utils::{join, path_join, resolve_m3u8_url, resolved_url};
use crate::text::{chars_of, same_chars, string_from};
use crate::jobs::{headers_view, jobs_view, DownloadJob, JobModel};
use crate::types::{
    track_name, StatusModel, TrackType, category_name, AudioModel, AudioOption, CheckMediaResult, CreateJobResult, DownloadProgress,
    LogCategory, LogLevel, LogUpdate, ResolutionOption,
};

verus! {

// ------------------------------------------------------------ job logs

/// The name a log level is written with.
pub open spec fn level_name(l: LogLevel) -> Seq<char> {
    match l {
        LogLevel::Debug => "Debug"@,
        LogLevel::Info => "Info"@,
        LogLevel::Warning => "Warning"@,
        LogLevel::Error => "Error"@,
    }
}

impl LogLevel {
    /// The level's name.
    pub fn as_str(&self) -> (r: &'static str)
        ensures
            r@ == level_name(*self),
    {
        match self {
            LogLevel::Debug => "Debug",
            LogLevel::Info => "Info",
            LogLevel::Warning => "Warning",
            LogLevel::Error => "Error",
        }
    }
}

/// A category's name in capitals, as copies in the general log show it.
pub open spec fn category_label(c: LogCategory) -> Seq<char> {
    match c {
        LogCategory::General => "GENERAL"@,
        LogCategory::Download => "DOWNLOAD"@,
        LogCategory::Merge => "MERGE"@,
    }
}

fn category_label_str(c: LogCategory) -> (r: &'static str)
    ensures
        r@ == category_label(c),
{
    match c {
        LogCategory::General => "GENERAL",
        LogCategory::Download => "DOWNLOAD",
        LogCategory::Merge => "MERGE",
    }
}

/// A line of a job log: `[time] [level] message`.
pub open spec fn log_line_of(timestamp: Seq<char>, level: LogLevel, message: Seq<char>) -> Seq<char> {
    "["@ + timestamp + "] ["@ + level_name(level) + "] "@ + message + "\n"@
}

/// The copy of a line in the general log: `[time] [level] [CATEGORY]
/// message`.
pub open spec fn general_copy_of(
    timestamp: Seq<char>,
    level: LogLevel,
    category: LogCategory,
    message: Seq<char>,
) -> Seq<char> {
    "["@ + timestamp + "] ["@ + level_name(level) + "] ["@ + category_label(category) + "] "@
        + message + "\n"@
}

/// A line for a job log.
pub fn log_line(timestamp: &str, level: LogLevel, message: &str) -> (r: String)
    ensures
        r@ == log_line_of(timestamp@, level, message@),
{
    String::from_str("[").concat(timestamp).concat("] [").concat(level.as_str()).concat(
        "] ",
    ).concat(message).concat("\n")
}

/// The copy of a line of another category for the general log.
pub fn general_copy_line(
    timestamp: &str,
    level: LogLevel,
    category: LogCategory,
    message: &str,
) -> (r: String)
    ensures
        r@ == general_copy_of(timestamp@, level, category, message@),
{
    String::from_str("[").concat(timestamp).concat("] [").concat(level.as_str()).concat(
        "] [",
    ).concat(category_label_str(category)).concat("] ").concat(message).concat("\n")
}

/// What a request for the log of a job whose log file does not exist yet
/// gets: nothing, from the start.
pub fn empty_log_update() -> (r: LogUpdate)
    ensures
        r.logs@ == Seq::<char>::empty(),
        r.new_offset == 0,
{
    LogUpdate { logs: String::new(), new_offset: 0 }
}

// ------------------------------------------------------------ files

/// A file counts as present when it exists and, if a size is expected,
/// has that size (a size that cannot be read is not held against it).
pub open spec fn file_present(exists: bool, expected: Option<u64>, actual: Option<u64>) -> bool {
    exists && match (expected, actual) {
        (Some(e), Some(a)) => a == e,
        _ => true,
    }
}

/// Whether a file counts as present; see `file_present`.
pub fn check_file_present(exists: bool, expected_size: Option<u64>, actual_size: Option<u64>) -> (r:
    bool)
    ensures
        r == file_present(exists, expected_size, actual_size),
{
    if !exists {
        return false;
    }
    match expected_size {
        Some(size) => match actual_size {
            Some(len) => len == size,
            None => true,
        },
        None => true,
    }
}

/// The folder a download is saved to: the one chosen in the settings, or
/// the default when none is chosen.
pub fn choose_save_folder(custom_path: String, default_path: String) -> (r: String)
    ensures
        r@ == if custom_path@.len() > 0 {
            custom_path@
        } else {
            default_path@
        },
{
    let c = chars_of(custom_path.as_str());
    if c.len() > 0 {
        custom_path
    } else {
        default_path
    }
}

// ------------------------------------------------------------ progress

/// What the monitor has counted of a job's download.
pub struct MonitorState {
    pub session_bytes: u64,
    pub finished_segments: u32,
}

/// What the monitor does after a report.
pub enum MonitorAction {
    Continue,
    /// Write this line to the download log.
    WriteLog(LogLevel, String),
    /// A segment failed for good: cancel the download and fail with this
    /// message.
    Abort(String),
}

/// A report as the monitor sees it.
pub enum ProgressKind {
    Bytes(u64),
    Segment(bool),
    Init(bool),
    Log,
}

pub open spec fn progress_kind(e: DownloadProgress) -> ProgressKind {
    match e {
        DownloadProgress::BytesDownloaded(b) => ProgressKind::Bytes(b),
        DownloadProgress::SegmentFinished(ok) => ProgressKind::Segment(ok),
        DownloadProgress::InitSegmentFinished(ok) => ProgressKind::Init(ok),
        DownloadProgress::Log(_, _) => ProgressKind::Log,
    }
}

/// What a report does to the monitor's counts: bytes are added up, a
/// successful media segment is counted; nothing else changes them.
pub open spec fn monitor_step(st: MonitorState, k: ProgressKind) -> MonitorState {
    match k {
        ProgressKind::Bytes(b) => MonitorState {
            session_bytes: (st.session_bytes + b) as u64,
            ..st
        },
        ProgressKind::Segment(true) => MonitorState {
            finished_segments: (st.finished_segments + 1) as u32,
            ..st
        },
        _ => st,
    }
}

/// The monitor's counts after a run of reports.
pub open spec fn monitor_run(st: MonitorState, ks: Seq<ProgressKind>) -> MonitorState
    decreases ks.len(),
{
    if ks.len() == 0 {
        st
    } else {
        monitor_step(monitor_run(st, ks.drop_last()), ks.last())
    }
}

/// Takes in one report of a segment download: bytes are added up,
/// finished media segments counted (the initialisation segment is not
/// one), log lines passed on; a segment that failed for good aborts the
/// job.
pub fn on_progress(state: &mut MonitorState, event: DownloadProgress) -> (r: MonitorAction)
    requires
        match event {
            DownloadProgress::BytesDownloaded(b) => old(state).session_bytes + b <= u64::MAX,
            DownloadProgress::SegmentFinished(true) => old(state).finished_segments < u32::MAX,
            _ => true,
        },
    ensures
        *final(state) == monitor_step(*old(state), progress_kind(event)),
        match event {
            DownloadProgress::BytesDownloaded(b) => r is Continue && final(state).session_bytes
                == old(state).session_bytes + b && final(state).finished_segments == old(
                state,
            ).finished_segments,
            DownloadProgress::SegmentFinished(true) => r is Continue
                && final(state).finished_segments == old(state).finished_segments + 1
                && final(state).session_bytes == old(state).session_bytes,
            DownloadProgress::InitSegmentFinished(true) => r is Continue && *final(state) == *old(
                state,
            ),
            DownloadProgress::SegmentFinished(false) => *final(state) == *old(state) && (
            r matches MonitorAction::Abort(m) && m@
                == "A segment failed to download after maximum retries."@),
            DownloadProgress::InitSegmentFinished(false) => *final(state) == *old(state) && (
            r matches MonitorAction::Abort(m) && m@
                == "A segment failed to download after maximum retries."@),
            DownloadProgress::Log(level, text) => *final(state) == *old(state) && (
            r matches MonitorAction::WriteLog(l, t) && l == level && t == text),
        },
{
    match event {
        DownloadProgress::BytesDownloaded(b) => {
            state.session_bytes = state.session_bytes + b;
            MonitorAction::Continue
        },
        DownloadProgress::SegmentFinished(success) => {
            if success {
                state.finished_segments = state.finished_segments + 1;
                MonitorAction::Continue
            } else {
                MonitorAction::Abort(
                    String::from_str("A segment failed to download after maximum retries."),
                )
            }
        },
        DownloadProgress::InitSegmentFinished(success) => {
            if success {
                MonitorAction::Continue
            } else {
                MonitorAction::Abort(
                    String::from_str("A segment failed to download after maximum retries."),
                )
            }
        },
        DownloadProgress::Log(level, text) => MonitorAction::WriteLog(level, text),
    }
}

// ------------------------------------------------------------ media check

/// A media check as plain data.
pub struct CheckModel {
    pub success: bool,
    pub message: Seq<char>,
    pub total_segments: u32,
    pub first_segment_url: Seq<char>,
    pub save_folder: Seq<char>,
    pub suggested_filename: Seq<char>,
    pub resolutions: Option<Seq<ResolutionModel>>,
    pub audio_options: Option<Seq<AudioModel>>,
}

impl View for CheckMediaResult {
    type V = CheckModel;

    open spec fn view(&self) -> CheckModel {
        CheckModel {
            success: self.success,
            message: self.message@,
            total_segments: self.total_segments,
            first_segment_url: self.first_segment_url@,
            save_folder: self.save_folder@,
            suggested_filename: self.suggested_filename@,
            resolutions: match self.resolutions {
                Some(v) => Some(v@.map_values(|o: ResolutionOption| o@)),
                None => None,
            },
            audio_options: match self.audio_options {
                Some(v) => Some(v@.map_values(|o: AudioOption| o@)),
                None => None,
            },
        }
    }
}

pub open spec fn failed_check(message: Seq<char>) -> CheckModel {
    CheckModel {
        success: false,
        message,
        total_segments: 0,
        first_segment_url: seq![],
        save_folder: seq![],
        suggested_filename: seq![],
        resolutions: None,
        audio_options: None,
    }
}

pub open spec fn passed_check(
    total_segments: u32,
    first_segment_url: Seq<char>,
    save_folder: Seq<char>,
    suggested_filename: Seq<char>,
    resolutions: Option<Seq<ResolutionModel>>,
    audio_options: Option<Seq<AudioModel>>,
) -> CheckModel {
    CheckModel {
        success: true,
        message: seq![],
        total_segments,
        first_segment_url,
        save_folder,
        suggested_filename,
        resolutions,
        audio_options,
    }
}

/// A rendition that offers an audio track of its own.
pub open spec fn is_audio_track(r: RenditionModel) -> bool {
    r.media_type == "AUDIO"@ && r.uri is Some
}

/// The audio choice made of the `i`-th audio track: its name, its language
/// (`Unknown` when none is given) and its URI resolved against the
/// playlist's URL.
pub open spec fn audio_choice(i: int, r: RenditionModel, url: Seq<char>) -> AudioModel {
    AudioModel {
        id: i,
        name: r.name,
        language: match r.language {
            Some(l) => l,
            None => "Unknown"@,
        },
        uri: resolved_url(url, r.uri.unwrap()),
    }
}

/// The audio choices of a master playlist, numbered in playlist order.
pub open spec fn audio_choices(renditions: Seq<RenditionModel>, url: Seq<char>) -> Seq<AudioModel> {
    renditions.filter(|r: RenditionModel| is_audio_track(r)).map(
        |i: int, r: RenditionModel| audio_choice(i, r, url),
    )
}

/// The audio choices offered, none when there is none.
pub open spec fn offered_audio(renditions: Seq<RenditionModel>, url: Seq<char>) -> Option<
    Seq<AudioModel>,
> {
    if audio_choices(renditions, url).len() == 0 {
        None
    } else {
        Some(audio_choices(renditions, url))
    }
}

/// The audio tracks of a master playlist fetched from `master_url` that
/// the user can pick, or `None` when it offers none.
pub fn collect_audio_options(renditions: &Vec<MediaRendition>, master_url: &str) -> (r: Option<
    Vec<AudioOption>,
>)
    ensures
        match r {
            Some(v) => offered_audio(renditions@.map_values(|m: MediaRendition| m@), master_url@)
                == Some(v@.map_values(|o: AudioOption| o@)),
            None => offered_audio(renditions@.map_values(|m: MediaRendition| m@), master_url@) is None,
        },
{
    let ghost rs = renditions@.map_values(|m: MediaRendition| m@);
    let ghost keep = |r: RenditionModel| is_audio_track(r);
    let ghost pick = |i: int, r: RenditionModel| audio_choice(i, r, master_url@);
    let audio = chars_of("AUDIO");
    let mut out: Vec<AudioOption> = Vec::new();
    let mut i: usize = 0;
    assert(rs.take(0).filter(keep) =~= Seq::<RenditionModel>::empty()) by {
        reveal(Seq::filter);
    }
    while i < renditions.len()
        invariant
            i <= renditions@.len(),
            rs == renditions@.map_values(|m: MediaRendition| m@),
            keep == (|r: RenditionModel| is_audio_track(r)),
            pick == (|i: int, r: RenditionModel| audio_choice(i, r, master_url@)),
            audio@ == "AUDIO"@,
            out@.map_values(|o: AudioOption| o@) == rs.take(i as int).filter(keep).map(pick),
        decreases renditions@.len() - i,
    {
        proof {
            assert(rs.take(i + 1) =~= rs.take(i as int).push(rs[i as int]));
            rs.take(i as int).lemma_filter_push(rs[i as int], keep);
        }
        let m = &renditions[i];
        let t = chars_of(m.media_type.as_str());
        if same_chars(t.as_slice(), audio.as_slice()) {
            match &m.uri {
                Some(u) => {
                    let ghost before = out@.map_values(|o: AudioOption| o@);
                    let ghost prev = rs.take(i as int).filter(keep);
                    let language = match &m.language {
                        Some(l) => l.clone(),
                        None => String::from_str("Unknown"),
                    };
                    let opt = AudioOption {
                        id: out.len(),
                        name: m.name.clone(),
                        language,
                        uri: resolve_m3u8_url(master_url, u.clone()),
                    };
                    out.push(opt);
                    assert(out@.map_values(|o: AudioOption| o@) =~= before.push(opt@));
                    assert(prev.push(rs[i as int]).map(pick) =~= prev.map(pick).push(
                        pick(prev.len() as int, rs[i as int]),
                    ));
                },
                None => {},
            }
        }
        i = i + 1;
    }
    assert(rs.take(renditions@.len() as int) =~= rs);
    if out.len() == 0 {
        None
    } else {
        Some(out)
    }
}

/// The next step of a media check.
pub enum CheckMediaStep {
    /// The check is over with this answer.
    Done(CheckMediaResult),
    /// Try to reach the first segment; the answer is this one if it can be
    /// reached.
    ProbeSegment { segment_url: String, if_reachable: CheckMediaResult },
}

/// The step a media check takes once its playlist was fetched (or failed
/// to be): a failed fetch or parse is the answer; a master playlist
/// answers with its resolutions; a media playlist answers with its
/// segments, once its first segment (if any) was reached.
pub open spec fn check_step_of(
    fetched: Result<Seq<char>, Seq<char>>,
    url: Seq<char>,
    save_folder: Seq<char>,
    suggested: Seq<char>,
) -> (CheckModel, Option<Seq<char>>) {
    match fetched {
        Err(e) => (failed_check(e), None),
        Ok(c) => match playlist_parse(c, url) {
            Err(e) => (failed_check("Error: "@ + e), None),
            Ok(PlaylistModel::Master(m)) => (
                passed_check(
                    0,
                    seq![],
                    save_folder,
                    suggested,
                    Some(m.resolution_options),
                    offered_audio(m.renditions, url),
                ),
                None,
            ),
            Ok(PlaylistModel::Media(m)) => (
                passed_check(
                    m.total_segments as u32,
                    m.first_segment_url,
                    save_folder,
                    suggested,
                    None,
                    None,
                ),
                if m.first_segment_url.len() > 0 {
                    Some(m.first_segment_url)
                } else {
                    None
                },
            ),
        },
    }
}

/// The step a media check takes after fetching its playlist; `None`
/// exactly where parsing the playlist would panic.
pub fn check_media_step(
    fetched: Result<String, String>,
    url: &str,
    save_folder: String,
    suggested_filename: String,
) -> (r: Option<CheckMediaStep>)
    ensures
        r is None <==> (fetched matches Ok(c) && playlist_panics(c@, url@)),
        r matches Some(step) ==> {
            let plan = check_step_of(
                match fetched {
                    Ok(c) => Ok(c@),
                    Err(e) => Err(e@),
                },
                url@,
                save_folder@,
                suggested_filename@,
            );
            match step {
                CheckMediaStep::Done(res) => res@ == plan.0 && plan.1 is None,
                CheckMediaStep::ProbeSegment { segment_url, if_reachable } => if_reachable@
                    == plan.0 && plan.1 == Some(segment_url@),
            }
        },
{
    match fetched {
        Err(e) => Some(CheckMediaStep::Done(CheckMediaResult::failure(e))),
        Ok(c) => match try_parse_m3u8_content(c.as_str(), url) {
            None => None,
            Some(Err(e)) => Some(
                CheckMediaStep::Done(
                    CheckMediaResult::failure(String::from_str("Error: ").concat(e.as_str())),
                ),
            ),
            Some(Ok(PlaylistData::Master(m))) => {
                let audio = collect_audio_options(&m.media_renditions, url);
                Some(
                    CheckMediaStep::Done(
                        CheckMediaResult::success(
                            0,
                            String::new(),
                            save_folder,
                            suggested_filename,
                            Some(m.resolution_options),
                            audio,
                        ),
                    ),
                )
            },
            Some(Ok(PlaylistData::Media(m))) => {
                let first = chars_of(m.first_segment_url.as_str());
                let has_first = first.len() > 0;
                proof {
                    assert(m@.total_segments == m.total_segments as nat);
                }
                let res = CheckMediaResult::success(
                    m.total_segments,
                    m.first_segment_url.clone(),
                    save_folder,
                    suggested_filename,
                    None,
                    None,
                );
                if has_first {
                    Some(
                        CheckMediaStep::ProbeSegment {
                            segment_url: m.first_segment_url,
                            if_reachable: res,
                        },
                    )
                } else {
                    Some(CheckMediaStep::Done(res))
                }
            },
        },
    }
}

/// The answer of a media check after its first segment was tried: a
/// failure that says the playlist is fine when the segment cannot be
/// reached.
pub fn check_media_after_probe(probe: Result<(), String>, if_reachable: CheckMediaResult) -> (r:
    CheckMediaResult)
    ensures
        match probe {
            Ok(()) => r@ == if_reachable@,
            Err(e) => r@ == failed_check(
                "Playlist is valid, but cannot access media segments: "@ + e@,
            ),
        },
{
    match probe {
        Ok(()) => if_reachable,
        Err(e) => CheckMediaResult::failure(
            String::from_str("Playlist is valid, but cannot access media segments: ").concat(
                e.as_str(),
            ),
        ),
    }
}

// ------------------------------------------------------------ jobs

/// Where a playlist that must be a media playlist comes from.
#[derive(PartialEq, Eq, Structural, Clone, Copy, Debug)]
pub enum PlaylistRole {
    /// The video URL of a new job.
    Video,
    /// The audio URL of a new job.
    Audio,
    /// A track's URL, fetched again to resume a job.
    Refreshed(TrackType),
    /// A track's saved copy, read to resume a job.
    Saved(TrackType),
}

/// Why a master playlist is refused in each role.
pub open spec fn master_refusal(role: PlaylistRole) -> Seq<char> {
    match role {
        PlaylistRole::Video => "Cannot download Master playlist directly"@,
        PlaylistRole::Audio => "Audio URL points to a Master Playlist"@,
        PlaylistRole::Refreshed(t) => "Resumed "@ + track_name(t) + " URL is a Master Playlist."@,
        PlaylistRole::Saved(t) => "Saved "@ + track_name(t) + " backup is a Master Playlist."@,
    }
}

/// A playlist that must be a media playlist: a master playlist is refused
/// with the message for its role.
pub fn require_media(data: PlaylistData, role: PlaylistRole) -> (r: Result<
    M3U8MediaPlaylist,
    String,
>)
    ensures
        match data {
            PlaylistData::Master(_) => r matches Err(e) && e@ == master_refusal(role),
            PlaylistData::Media(m) => r == Ok::<M3U8MediaPlaylist, String>(m),
        },
{
    match data {
        PlaylistData::Master(_) => {
            let msg = match role {
                PlaylistRole::Video => String::from_str("Cannot download Master playlist directly"),
                PlaylistRole::Audio => String::from_str("Audio URL points to a Master Playlist"),
                PlaylistRole::Refreshed(t) => String::from_str("Resumed ").concat(t.as_str()).concat(
                    " URL is a Master Playlist.",
                ),
                PlaylistRole::Saved(t) => String::from_str("Saved ").concat(t.as_str()).concat(
                    " backup is a Master Playlist.",
                ),
            };
            Err(msg)
        },
        PlaylistData::Media(m) => Ok(m),
    }
}

/// A job just created, as plain data: downloading, nothing downloaded yet.
pub open spec fn created_job(
    j: JobModel,
    url: Seq<char>,
    headers: Seq<(Seq<char>, Seq<char>)>,
    save_folder: Seq<char>,
    file_name: Seq<char>,
    total_segments: int,
) -> bool {
    &&& j.id.len() == 36
    &&& j.m3u8_url == url
    &&& j.http_headers == headers
    &&& j.save_folder == save_folder
    &&& j.file_name == file_name
    &&& j.status == StatusModel::Downloading
    &&& j.downloaded_bytes == 0
    &&& j.total_segments == total_segments
    &&& j.downloaded_segments == 0
    &&& j.final_file_size is None
    &&& j.instant_speed == 0
    &&& j.smoothed_speed_bits == 0
    &&& j.average_speed == 0
    &&& j.eta == 0
    &&& j.progress_bits == 0
    &&& j.end_time is None
}

/// Adds the job for a download of `video` (and `audio`, if any) to the end
/// of the list: downloading, under a fresh id, its segment count the sum
/// of both tracks'. Gives its id; the other jobs stay as they were.
pub fn add_job(
    jobs: &mut Vec<DownloadJob>,
    url: String,
    headers: Vec<(String, String)>,
    save_folder: String,
    file_name: String,
    video: &M3U8MediaPlaylist,
    audio: Option<&M3U8MediaPlaylist>,
) -> (id: String)
    requires
        audio matches Some(a) ==> video.total_segments + a.total_segments <= u32::MAX,
    ensures
        final(jobs)@.len() == old(jobs)@.len() + 1,
        jobs_view(final(jobs)@).take(old(jobs)@.len() as int) == jobs_view(old(jobs)@),
        final(jobs)@.last().id == id,
        created_job(
            final(jobs)@.last()@,
            url@,
            headers_view(headers@),
            save_folder@,
            file_name@,
            video.total_segments + match audio {
                Some(a) => a.total_segments as int,
                None => 0int,
            },
        ),
{
    let total = combined_total_segments(
        video.total_segments,
        match audio {
            Some(a) => Some(a.total_segments),
            None => None,
        },
    );
    let job = DownloadJob::new(url, headers, save_folder, file_name, total);
    let id = job.id.clone();
    let ghost before = jobs_view(jobs@);
    jobs.push(job);
    assert(jobs_view(jobs@) =~= before.push(job@));
    assert(jobs_view(jobs@).take(before.len() as int) =~= before);
    id
}

/// The number of segments of a job: those of the video and of the audio
/// track, if there is one.
pub fn combined_total_segments(video: u32, audio: Option<u32>) -> (r: u32)
    requires
        audio matches Some(a) ==> video + a <= u32::MAX,
    ensures
        r == video + match audio {
            Some(a) => a as int,
            None => 0int,
        },
{
    match audio {
        Some(a) => video + a,
        None => video,
    }
}

/// The answer to a request to create a job, from how creating it went.
pub fn create_job_result(outcome: Result<String, String>) -> (r: CreateJobResult)
    ensures
        match outcome {
            Ok(_) => r.success && r.message@ == Seq::<char>::empty(),
            Err(e) => !r.success && r.message@ == "Failed to download video: "@ + e@,
        },
{
    match outcome {
        Ok(_) => CreateJobResult { success: true, message: String::new() },
        Err(e) => CreateJobResult {
            success: false,
            message: String::from_str("Failed to download video: ").concat(e.as_str()),
        },
    }
}

// ------------------------------------------------------------ merging

/// How the downloaded files of a job are merged.
pub enum MergePlan {
    /// Concatenate `inputs`, in order, into `temp_merged_path`, then run
    /// ffmpeg with `args`.
    Binary { temp_merged_path: String, inputs: Vec<String>, args: Vec<String> },
    /// Write `list_content` (the list of `inputs`) to `list_path`, then run
    /// ffmpeg with `args`.
    Concat { list_path: String, list_content: String, inputs: Vec<String>, args: Vec<String> },
}

/// Some file is the initialisation segment.
pub open spec fn has_init_segment(paths: Seq<Seq<char>>) -> bool {
    exists|i: int| 0 <= i < paths.len() && file_name_of(#[trigger] paths[i]) == Some(init_file_name())
}

/// Where the byte-wise merge concatenates the segments.
pub open spec fn temp_merged_of(base_folder: Seq<char>) -> Seq<char> {
    path_join(base_folder, "temp_merged.mp4"@)
}

/// A file that a merge writes: the concatenation of a byte-wise merge
/// (left behind by a merge that was paused or failed) or the final output.
pub open spec fn is_merge_output(p: Seq<char>, base_folder: Seq<char>, save_to_file: Seq<char>) -> bool {
    same_path(p, temp_merged_of(base_folder)) || same_path(p, save_to_file)
}

/// The files a merge reads: the files found, in order, without any file
/// that the merge itself writes.
pub open spec fn merge_inputs_of(
    files: Seq<Seq<char>>,
    base_folder: Seq<char>,
    save_to_file: Seq<char>,
) -> Seq<Seq<char>> {
    files.filter(|p: Seq<char>| !is_merge_output(p, base_folder, save_to_file))
}

/// The plan for merging `files` (in order) from `base_folder` into
/// `save_to_file`. The files that the merge writes itself are left out:
/// a `temp_merged.mp4` that an interrupted byte-wise merge left behind is
/// never read again. Nothing left to merge is an error; with an
/// initialisation segment the bytes are concatenated and remuxed, otherwise
/// ffmpeg's concat demuxer reads a list of the files.
pub fn plan_merge(files: &Vec<String>, base_folder: &str, save_to_file: &str) -> (r: Result<
    MergePlan,
    String,
>)
    ensures
        ({
            let ins = merge_inputs_of(files@.map_values(|s: String| s@), base_folder@, save_to_file@);
            &&& ins.len() == 0 ==> (r matches Err(e) && e@ == "No video segments found to merge"@)
            &&& ins.len() > 0 ==> match r {
                Ok(MergePlan::Binary { temp_merged_path, inputs, args }) => has_init_segment(ins)
                    && temp_merged_path@ == temp_merged_of(base_folder@) && inputs@.map_values(
                    |s: String| s@,
                ) == ins && args@.map_values(|s: String| s@) == binary_merge_args_of(
                    temp_merged_path@,
                    save_to_file@,
                ),
                Ok(MergePlan::Concat { list_path, list_content, inputs, args }) => !has_init_segment(
                    ins,
                ) && list_path@ == path_join(base_folder@, "segments.txt"@) && inputs@.map_values(
                    |s: String| s@,
                ) == ins && list_content@ == concat_list_of(ins) && args@.map_values(
                    |s: String| s@,
                ) == concat_merge_args_of(list_path@, save_to_file@),
                Err(_) => false,
            }
        }),
        r matches Ok(MergePlan::Binary { temp_merged_path, inputs, args }) ==> forall|k: int|
            0 <= k < inputs@.len() ==> !same_path(#[trigger] inputs@[k]@, temp_merged_path@)
                && !same_path(inputs@[k]@, save_to_file@),
        r matches Ok(MergePlan::Concat { list_path, list_content, inputs, args }) ==> forall|k: int|
            0 <= k < inputs@.len() ==> !same_path(#[trigger] inputs@[k]@, save_to_file@),
{
    let ghost ps = files@.map_values(|s: String| s@);
    let ghost keep = |p: Seq<char>| !is_merge_output(p, base_folder@, save_to_file@);
    let temp = join(base_folder, "temp_merged.mp4");
    let mut inputs: Vec<String> = Vec::new();
    let mut i: usize = 0;
    assert(ps.take(0).filter(keep) =~= Seq::<Seq<char>>::empty()) by {
        reveal(Seq::filter);
    }
    while i < files.len()
        invariant
            i <= files@.len(),
            ps == files@.map_values(|s: String| s@),
            keep == (|p: Seq<char>| !is_merge_output(p, base_folder@, save_to_file@)),
            temp@ == temp_merged_of(base_folder@),
            inputs@.map_values(|s: String| s@) == ps.take(i as int).filter(keep),
            forall|k: int|
                0 <= k < inputs@.len() ==> !same_path(#[trigger] inputs@[k]@, temp@) && !same_path(
                    inputs@[k]@,
                    save_to_file@,
                ),
        decreases files@.len() - i,
    {
        proof {
            assert(ps.take(i + 1) =~= ps.take(i as int).push(ps[i as int]));
            ps.take(i as int).lemma_filter_push(ps[i as int], keep);
        }
        let f = &files[i];
        if !paths_equal(f.as_str(), temp.as_str()) && !paths_equal(f.as_str(), save_to_file) {
            let ghost before = inputs@.map_values(|s: String| s@);
            inputs.push(f.clone());
            assert(inputs@.map_values(|s: String| s@) =~= before.push(ps[i as int]));
        }
        i = i + 1;
    }
    assert(ps.take(files@.len() as int) =~= ps);
    let ghost ins = inputs@.map_values(|s: String| s@);
    if inputs.len() == 0 {
        return Err(String::from_str("No video segments found to merge"));
    }
    let init = vec!['i', 'n', 'i', 't', '.', 'm', 'p', '4'];
    assert(init@ =~= init_file_name());
    let mut found = false;
    let mut j: usize = 0;
    while j < inputs.len()
        invariant
            j <= inputs@.len(),
            ins == inputs@.map_values(|s: String| s@),
            init@ == init_file_name(),
            found == exists|k: int|
                0 <= k < j && file_name_of(#[trigger] ins[k]) == Some(init_file_name()),
        decreases inputs@.len() - j,
    {
        let is_init = match last_name_part(inputs[j].as_str()) {
            Some(n) => same_chars(n.as_slice(), init.as_slice()),
            None => false,
        };
        if is_init {
            assert(file_name_of(ins[j as int]) == Some(init_file_name()));
        }
        found = found || is_init;
        j = j + 1;
    }
    if found {
        let args = binary_merge_args(temp.as_str(), save_to_file);
        Ok(MergePlan::Binary { temp_merged_path: temp, inputs, args })
    } else {
        let list = join(base_folder, "segments.txt");
        let content = concat_list_content(&inputs);
        let args = concat_merge_args(list.as_str(), save_to_file);
        Ok(MergePlan::Concat { list_path: list, list_content: content, inputs, args })
    }
}

} // verus!
