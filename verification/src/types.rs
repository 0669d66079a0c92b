//! Plain data exchanged with the user interface: statuses, categories,
//! check results and settings.
use vstd::prelude::*;
use crate::playlist::ResolutionModel;
use crate::text::{chars_of, same_chars};

verus! {

/// A quality choice offered for a master playlist.
#[derive(Debug, Clone)]
pub struct ResolutionOption {
    pub id: usize,
    pub resolution: String,
    pub bandwidth_kbps: u32,
    pub uri: String,
}

impl View for ResolutionOption {
    type V = ResolutionModel;

    open spec fn view(&self) -> ResolutionModel {
        ResolutionModel {
            id: self.id,
            resolution: self.resolution@,
            bandwidth_kbps: self.bandwidth_kbps,
            uri: self.uri@,
        }
    }
}


/// An audio track offered for a master playlist.
#[derive(Debug, Clone)]
pub struct AudioOption {
    pub id: usize,
    pub name: String,
    pub language: String,
    pub uri: String,
}

/// An audio choice as plain data.
pub struct AudioModel {
    pub id: int,
    pub name: Seq<char>,
    pub language: Seq<char>,
    pub uri: Seq<char>,
}

impl View for AudioOption {
    type V = AudioModel;

    open spec fn view(&self) -> AudioModel {
        AudioModel { id: self.id as int, name: self.name@, language: self.language@, uri: self.uri@ }
    }
}

/// The state of a download job.
#[derive(Debug, Clone, PartialEq, Eq)]
pub enum DownloadStatus {
    Queued,
    Downloading,
    Merging,
    Paused,
    CompletedSuccess,
    CompletedError(String),
}

/// A download status as plain data, with an error's message as its text.
pub enum StatusModel {
    Queued,
    Downloading,
    Merging,
    Paused,
    CompletedSuccess,
    CompletedError(Seq<char>),
}

impl View for DownloadStatus {
    type V = StatusModel;

    open spec fn view(&self) -> StatusModel {
        match self {
            DownloadStatus::Queued => StatusModel::Queued,
            DownloadStatus::Downloading => StatusModel::Downloading,
            DownloadStatus::Merging => StatusModel::Merging,
            DownloadStatus::Paused => StatusModel::Paused,
            DownloadStatus::CompletedSuccess => StatusModel::CompletedSuccess,
            DownloadStatus::CompletedError(m) => StatusModel::CompletedError(m@),
        }
    }
}

/// The job has not finished: queued, downloading, merging or paused.
pub open spec fn status_is_ongoing(s: StatusModel) -> bool {
    match s {
        StatusModel::CompletedSuccess | StatusModel::CompletedError(_) => false,
        _ => true,
    }
}

/// The job can be resumed: it is paused or ended in an error.
pub open spec fn status_can_resume(s: StatusModel) -> bool {
    match s {
        StatusModel::Paused | StatusModel::CompletedError(_) => true,
        _ => false,
    }
}

/// The job can be paused: it is queued, downloading or merging.
pub open spec fn status_can_pause(s: StatusModel) -> bool {
    match s {
        StatusModel::Queued | StatusModel::Downloading | StatusModel::Merging => true,
        _ => false,
    }
}

impl DownloadStatus {
    /// Whether the job has not finished yet.
    pub fn is_ongoing(&self) -> (r: bool)
        ensures
            r == status_is_ongoing(self@),
    {
        match self {
            DownloadStatus::Queued | DownloadStatus::Downloading | DownloadStatus::Merging
            | DownloadStatus::Paused => true,
            DownloadStatus::CompletedSuccess | DownloadStatus::CompletedError(_) => false,
        }
    }

    /// Whether the job may be resumed.
    pub fn can_resume(&self) -> (r: bool)
        ensures
            r == status_can_resume(self@),
    {
        match self {
            DownloadStatus::Paused | DownloadStatus::CompletedError(_) => true,
            _ => false,
        }
    }

    /// Whether the job may be paused.
    pub fn can_pause(&self) -> (r: bool)
        ensures
            r == status_can_pause(self@),
    {
        match self {
            DownloadStatus::Downloading | DownloadStatus::Merging | DownloadStatus::Queued => true,
            _ => false,
        }
    }

    /// Whether the job has finished, successfully or not.
    pub fn is_completed(&self) -> (r: bool)
        ensures
            r == !status_is_ongoing(self@),
    {
        match self {
            DownloadStatus::CompletedSuccess | DownloadStatus::CompletedError(_) => true,
            _ => false,
        }
    }

    /// Whether the job is downloading segments right now.
    pub fn is_downloading(&self) -> (r: bool)
        ensures
            r == (self@ is Downloading),
    {
        match self {
            DownloadStatus::Downloading => true,
            _ => false,
        }
    }

    /// A copy of the status.
    pub fn duplicate(&self) -> (r: DownloadStatus)
        ensures
            r@ == self@,
    {
        match self {
            DownloadStatus::Queued => DownloadStatus::Queued,
            DownloadStatus::Downloading => DownloadStatus::Downloading,
            DownloadStatus::Merging => DownloadStatus::Merging,
            DownloadStatus::Paused => DownloadStatus::Paused,
            DownloadStatus::CompletedSuccess => DownloadStatus::CompletedSuccess,
            DownloadStatus::CompletedError(m) => DownloadStatus::CompletedError(m.clone()),
        }
    }
}

/// Which log of a job a line goes to.
#[derive(PartialEq, Eq, Structural, Clone, Copy, Debug)]
pub enum LogCategory {
    General,
    Download,
    Merge,
}

/// The name of a log category, as used in log file names.
pub open spec fn category_name(c: LogCategory) -> Seq<char> {
    match c {
        LogCategory::General => "general"@,
        LogCategory::Download => "download"@,
        LogCategory::Merge => "merge"@,
    }
}

/// The category a name asks for: `download`, `merge`, anything else the
/// general log.
pub open spec fn category_named(name: Seq<char>) -> LogCategory {
    if name == "download"@ {
        LogCategory::Download
    } else if name == "merge"@ {
        LogCategory::Merge
    } else {
        LogCategory::General
    }
}

impl LogCategory {
    /// The category's name.
    pub fn as_str(&self) -> (r: &'static str)
        ensures
            r@ == category_name(*self),
    {
        match self {
            LogCategory::General => "general",
            LogCategory::Download => "download",
            LogCategory::Merge => "merge",
        }
    }

    /// The category a log request names.
    pub fn from_name(name: &str) -> (r: LogCategory)
        ensures
            r == category_named(name@),
    {
        let n = chars_of(name);
        let d = chars_of("download");
        let m = chars_of("merge");
        if same_chars(n.as_slice(), d.as_slice()) {
            LogCategory::Download
        } else if same_chars(n.as_slice(), m.as_slice()) {
            LogCategory::Merge
        } else {
            LogCategory::General
        }
    }
}

/// How important a log line is.
#[derive(PartialEq, Eq, Structural, Clone, Copy, Debug)]
pub enum LogLevel {
    Debug,
    Info,
    Warning,
    Error,
}

/// A line of a category other than the general log, unless it is a debug
/// line, is copied into the general log too.
pub open spec fn copies_to_general(category: LogCategory, level: LogLevel) -> bool {
    category != LogCategory::General && level != LogLevel::Debug
}

/// Whether a log line of this category and level also goes to the general
/// log.
pub fn duplicates_to_general(category: LogCategory, level: LogLevel) -> (r: bool)
    ensures
        r == copies_to_general(category, level),
{
    !matches!(category, LogCategory::General) && !matches!(level, LogLevel::Debug)
}

/// Which track of a stream a playlist belongs to.
#[derive(PartialEq, Eq, Structural, Clone, Copy, Debug)]
pub enum TrackType {
    Video,
    Audio,
}

pub open spec fn track_name(t: TrackType) -> Seq<char> {
    match t {
        TrackType::Video => "video"@,
        TrackType::Audio => "audio"@,
    }
}

impl TrackType {
    /// The track's name.
    pub fn as_str(&self) -> (r: &'static str)
        ensures
            r@ == track_name(*self),
    {
        match self {
            TrackType::Video => "video",
            TrackType::Audio => "audio",
        }
    }
}

/// Whether a file may be downloaded to a path.
#[derive(PartialEq, Eq, Structural, Clone, Copy, Debug)]
pub enum TargetFileStatus {
    Ready,
    Exists,
    /// Locked by an active download.
    Busy,
}

/// How a merge ended when it did not fail.
#[derive(PartialEq, Eq, Structural, Clone, Copy, Debug)]
pub enum MergeOutcome {
    Success,
    Cancelled,
}

/// A report from a segment download to the job's monitor.
#[derive(Debug)]
pub enum DownloadProgress {
    /// A chunk of data arrived.
    BytesDownloaded(u64),
    /// A segment ended, successfully or not.
    SegmentFinished(bool),
    /// The initialisation segment ended, successfully or not; it is no
    /// media segment and is not counted as one.
    InitSegmentFinished(bool),
    Log(LogLevel, String),
}

/// The answer to a media check, shown to the user before a download.
pub struct CheckMediaResult {
    pub success: bool,
    pub message: String,
    pub total_segments: u32,
    pub first_segment_url: String,
    pub save_folder: String,
    pub suggested_filename: String,
    pub resolutions: Option<Vec<ResolutionOption>>,
    pub audio_options: Option<Vec<AudioOption>>,
}

impl CheckMediaResult {
    /// A successful check.
    pub fn success(
        total_segments: u32,
        first_segment_url: String,
        save_folder: String,
        suggested_filename: String,
        resolutions: Option<Vec<ResolutionOption>>,
        audio_options: Option<Vec<AudioOption>>,
    ) -> (r: Self)
        ensures
            r.success,
            r.message@ == Seq::<char>::empty(),
            r.total_segments == total_segments,
            r.first_segment_url == first_segment_url,
            r.save_folder == save_folder,
            r.suggested_filename == suggested_filename,
            r.resolutions == resolutions,
            r.audio_options == audio_options,
    {
        Self {
            success: true,
            message: String::new(),
            total_segments,
            first_segment_url,
            save_folder,
            suggested_filename,
            resolutions,
            audio_options,
        }
    }

    /// A failed check with its message; everything else empty.
    pub fn failure(message: String) -> (r: Self)
        ensures
            !r.success,
            r.message == message,
            r.total_segments == 0,
            r.first_segment_url@ == Seq::<char>::empty(),
            r.save_folder@ == Seq::<char>::empty(),
            r.suggested_filename@ == Seq::<char>::empty(),
            r.resolutions is None,
            r.audio_options is None,
    {
        Self {
            success: false,
            message,
            total_segments: 0,
            first_segment_url: String::new(),
            save_folder: String::new(),
            suggested_filename: String::new(),
            resolutions: None,
            audio_options: None,
        }
    }
}

/// The answer to a request to create a job.
pub struct CreateJobResult {
    pub success: bool,
    pub message: String,
}

/// New lines of a job log and where the next read starts.
pub struct LogUpdate {
    pub logs: String,
    pub new_offset: u64,
}

/// The user's settings.
#[derive(Debug, Clone)]
pub struct AppSettings {
    pub download_path: String,
    pub play_completion_sound: bool,
}

impl Default for AppSettings {
    /// No download folder chosen; completion sounds on.
    fn default() -> (r: Self)
        ensures
            r.download_path@ == Seq::<char>::empty(),
            r.play_completion_sound,
    {
        Self { download_path: String::new(), play_completion_sound: true }
    }
}

} // verus!
