//! Download jobs and the decisions taken on the list of jobs: pausing,
//! resuming, deleting, progress and the phases of a finished download.
use vstd::prelude::*;
use crate::string_utils::{join, path_join};
use crate::text::{chars_of, same_chars};
use crate::types::{
    status_can_pause, status_can_resume, status_is_ongoing, DownloadStatus, StatusModel,
    TargetFileStatus,
};

verus! {

/// The bits of the `f32` progress shown while a job merges (0.96).
pub const PROGRESS_MERGING_BITS: u32 = 0x3F75_C28F;

/// The bits of the `f32` progress of a finished job (1.0).
pub const PROGRESS_DONE_BITS: u32 = 0x3F80_0000;

/// A download job as plain data.
pub struct JobModel {
    pub id: Seq<char>,
    pub m3u8_url: Seq<char>,
    pub http_headers: Seq<(Seq<char>, Seq<char>)>,
    pub file_name: Seq<char>,
    pub save_folder: Seq<char>,
    pub status: StatusModel,
    pub downloaded_bytes: u64,
    pub total_segments: u32,
    pub downloaded_segments: u32,
    pub final_file_size: Option<u64>,
    pub instant_speed: u64,
    pub smoothed_speed_bits: u64,
    pub average_speed: u64,
    pub eta: u64,
    pub progress_bits: u32,
    pub start_time: u64,
    pub end_time: Option<u64>,
}

/// A download job. The smoothed speed (an `f64`, bytes per second) and the
/// progress (an `f32` between 0 and 1) are kept as their IEEE-754 bits.
#[derive(Debug, Clone)]
pub struct DownloadJob {
    pub id: String,
    pub m3u8_url: String,
    pub http_headers: Vec<(String, String)>,
    pub file_name: String,
    pub save_folder: String,
    pub status: DownloadStatus,
    /// Sum of the bytes downloaded so far.
    pub downloaded_bytes: u64,
    pub total_segments: u32,
    pub downloaded_segments: u32,
    pub final_file_size: Option<u64>,
    /// Bytes per second.
    pub instant_speed: u64,
    pub smoothed_speed_bits: u64,
    pub average_speed: u64,
    /// Seconds remaining.
    pub eta: u64,
    pub progress_bits: u32,
    pub start_time: u64,
    pub end_time: Option<u64>,
}

/// The texts of a list of HTTP headers.
pub open spec fn headers_view(h: Seq<(String, String)>) -> Seq<(Seq<char>, Seq<char>)> {
    h.map_values(|p: (String, String)| (p.0@, p.1@))
}

impl View for DownloadJob {
    type V = JobModel;

    open spec fn view(&self) -> JobModel {
        JobModel {
            id: self.id@,
            m3u8_url: self.m3u8_url@,
            http_headers: headers_view(self.http_headers@),
            file_name: self.file_name@,
            save_folder: self.save_folder@,
            status: self.status@,
            downloaded_bytes: self.downloaded_bytes,
            total_segments: self.total_segments,
            downloaded_segments: self.downloaded_segments,
            final_file_size: self.final_file_size,
            instant_speed: self.instant_speed,
            smoothed_speed_bits: self.smoothed_speed_bits,
            average_speed: self.average_speed,
            eta: self.eta,
            progress_bits: self.progress_bits,
            start_time: self.start_time,
            end_time: self.end_time,
        }
    }
}

/// The jobs of a list as plain data.
pub open spec fn jobs_view(jobs: Seq<DownloadJob>) -> Seq<JobModel> {
    jobs.map_values(|j: DownloadJob| j@)
}

/// A copy of a header list.
pub fn clone_headers(h: &Vec<(String, String)>) -> (r: Vec<(String, String)>)
    ensures
        headers_view(r@) == headers_view(h@),
{
    let mut r: Vec<(String, String)> = Vec::new();
    let mut i: usize = 0;
    while i < h.len()
        invariant
            i <= h@.len(),
            headers_view(r@) == headers_view(h@).take(i as int),
        decreases h@.len() - i,
    {
        let p = (h[i].0.clone(), h[i].1.clone());
        let ghost before = headers_view(r@);
        r.push(p);
        assert(headers_view(r@) =~= before.push((p.0@, p.1@)));
        i = i + 1;
        assert(headers_view(r@) =~= headers_view(h@).take(i as int));
    }
    assert(headers_view(h@).take(h@.len() as int) =~= headers_view(h@));
    r
}

impl DownloadJob {
    /// A copy of the job.
    pub fn duplicate(&self) -> (r: DownloadJob)
        ensures
            r@ == self@,
    {
        DownloadJob {
            id: self.id.clone(),
            m3u8_url: self.m3u8_url.clone(),
            http_headers: clone_headers(&self.http_headers),
            file_name: self.file_name.clone(),
            save_folder: self.save_folder.clone(),
            status: self.status.duplicate(),
            downloaded_bytes: self.downloaded_bytes,
            total_segments: self.total_segments,
            downloaded_segments: self.downloaded_segments,
            final_file_size: self.final_file_size,
            instant_speed: self.instant_speed,
            smoothed_speed_bits: self.smoothed_speed_bits,
            average_speed: self.average_speed,
            eta: self.eta,
            progress_bits: self.progress_bits,
            start_time: self.start_time,
            end_time: self.end_time,
        }
    }

    /// A new job that starts downloading now, under a fresh random id.
    pub fn new(
        url: String,
        http_headers: Vec<(String, String)>,
        save_folder: String,
        file_name: String,
        total_segments: u32,
    ) -> (r: Self)
        ensures
            r.id@.len() == 36,
            r.m3u8_url == url,
            r.http_headers == http_headers,
            r.save_folder == save_folder,
            r.file_name == file_name,
            r.status@ == StatusModel::Downloading,
            r.downloaded_bytes == 0,
            r.total_segments == total_segments,
            r.downloaded_segments == 0,
            r.final_file_size is None,
            r.instant_speed == 0,
            r.smoothed_speed_bits == 0,
            r.average_speed == 0,
            r.eta == 0,
            r.progress_bits == 0,
            r.end_time is None,
    {
        DownloadJob {
            id: new_job_id(),
            file_name,
            m3u8_url: url,
            http_headers,
            save_folder,
            status: DownloadStatus::Downloading,
            downloaded_bytes: 0,
            total_segments,
            downloaded_segments: 0,
            final_file_size: None,
            instant_speed: 0,
            smoothed_speed_bits: 0,
            average_speed: 0,
            eta: 0,
            progress_bits: 0,
            start_time: epoch_now(),
            end_time: None,
        }
    }
}

impl Default for DownloadJob {
    /// An empty job: no id, URL, headers or names, status `Queued`, every
    /// count zero, no times.
    fn default() -> (r: Self)
        ensures
            r.id@ == Seq::<char>::empty(),
            r.m3u8_url@ == Seq::<char>::empty(),
            r.http_headers@ == Seq::<(String, String)>::empty(),
            r.file_name@ == Seq::<char>::empty(),
            r.save_folder@ == Seq::<char>::empty(),
            r.status@ == StatusModel::Queued,
            r.downloaded_bytes == 0,
            r.total_segments == 0,
            r.downloaded_segments == 0,
            r.final_file_size is None,
            r.instant_speed == 0,
            r.smoothed_speed_bits == 0,
            r.average_speed == 0,
            r.eta == 0,
            r.progress_bits == 0,
            r.start_time == 0,
            r.end_time is None,
    {
        DownloadJob {
            id: String::new(),
            file_name: String::new(),
            m3u8_url: String::new(),
            http_headers: Vec::new(),
            save_folder: String::new(),
            status: DownloadStatus::Queued,
            downloaded_bytes: 0,
            total_segments: 0,
            downloaded_segments: 0,
            final_file_size: None,
            instant_speed: 0,
            smoothed_speed_bits: 0,
            average_speed: 0,
            eta: 0,
            progress_bits: 0,
            start_time: 0,
            end_time: None,
        }
    }
}

/// Calls `uuid::Uuid::new_v4` and writes the id with `to_string`; trusted
/// to give the hyphenated form, 36 characters long. Which id comes out is
/// left open: it is random.
#[verifier::external_body]
fn new_job_id() -> (r: String)
    ensures
        r@.len() == 36,
{
    uuid::Uuid::new_v4().to_string()
}

/// Calls `std::time::SystemTime::now` and gives the whole seconds since the
/// Unix epoch (0 for a clock set before it). Nothing is promised of the
/// value: it is the time.
#[verifier::external_body]
pub(crate) fn epoch_now() -> (r: u64) {
    match std::time::SystemTime::now().duration_since(std::time::UNIX_EPOCH) {
        Ok(d) => d.as_secs(),
        Err(_) => 0,
    }
}

// ------------------------------------------------------------ finding jobs

/// The position of the first job with id `id`.
pub open spec fn find_job(jobs: Seq<JobModel>, id: Seq<char>) -> Option<int>
    decreases jobs.len(),
{
    if jobs.len() == 0 {
        None
    } else if jobs[0].id == id {
        Some(0)
    } else {
        match find_job(jobs.drop_first(), id) {
            Some(i) => Some(i + 1),
            None => None,
        }
    }
}

pub proof fn lemma_find_job(jobs: Seq<JobModel>, id: Seq<char>)
    ensures
        match find_job(jobs, id) {
            Some(i) => 0 <= i < jobs.len() && jobs[i].id == id && forall|k: int|
                0 <= k < i ==> jobs[k].id != id,
            None => forall|k: int| 0 <= k < jobs.len() ==> jobs[k].id != id,
        },
    decreases jobs.len(),
{
    if jobs.len() > 0 {
        lemma_find_job(jobs.drop_first(), id);
        if jobs[0].id != id {
            assert forall|k: int| 0 < k < jobs.len() implies jobs[k] == jobs.drop_first()[k - 1] by {}
        }
    }
}

pub proof fn lemma_find_job_is(jobs: Seq<JobModel>, id: Seq<char>, i: int)
    requires
        0 <= i < jobs.len(),
        jobs[i].id == id,
        forall|k: int| 0 <= k < i ==> jobs[k].id != id,
    ensures
        find_job(jobs, id) == Some(i),
{
    lemma_find_job(jobs, id);
    match find_job(jobs, id) {
        Some(j) => {
            if j < i {
            } else if j > i {
            }
        },
        None => {},
    }
}

/// The position of the first job with id `job_id`.
pub fn find_job_index(jobs: &Vec<DownloadJob>, job_id: &str) -> (r: Option<usize>)
    ensures
        r matches Some(i) ==> i < jobs@.len(),
        match r {
            Some(i) => find_job(jobs_view(jobs@), job_id@) == Some(i as int),
            None => find_job(jobs_view(jobs@), job_id@) is None,
        },
{
    let ghost js = jobs_view(jobs@);
    let key = chars_of(job_id);
    let mut i: usize = 0;
    while i < jobs.len()
        invariant
            i <= jobs@.len(),
            js == jobs_view(jobs@),
            key@ == job_id@,
            forall|k: int| 0 <= k < i ==> js[k].id != job_id@,
        decreases jobs@.len() - i,
    {
        let c = chars_of(jobs[i].id.as_str());
        if same_chars(c.as_slice(), key.as_slice()) {
            proof {
                lemma_find_job_is(js, job_id@, i as int);
            }
            return Some(i);
        }
        i = i + 1;
    }
    proof {
        lemma_find_job(js, job_id@);
        if find_job(js, job_id@) is Some {
            let j = find_job(js, job_id@).unwrap();
            assert(js[j].id == job_id@);
        }
    }
    None
}

// ------------------------------------------------------------ updates

/// The jobs after the first job with id `id` is changed by `f`; unchanged
/// when there is none.
pub open spec fn update_job(
    jobs: Seq<JobModel>,
    id: Seq<char>,
    f: spec_fn(JobModel) -> JobModel,
) -> Seq<JobModel> {
    match find_job(jobs, id) {
        Some(i) => jobs.update(i, f(jobs[i])),
        None => jobs,
    }
}

/// A paused job: status `Paused`, no speed.
pub open spec fn paused(j: JobModel) -> JobModel {
    JobModel { status: StatusModel::Paused, instant_speed: 0, ..j }
}

/// Replaces job `i` of `jobs`.
fn set_job(jobs: &mut Vec<DownloadJob>, i: usize, job: DownloadJob)
    requires
        i < old(jobs)@.len(),
    ensures
        jobs_view(final(jobs)@) == jobs_view(old(jobs)@).update(i as int, job@),
{
    let ghost before = jobs_view(jobs@);
    jobs.set(i, job);
    assert(jobs_view(jobs@) =~= before.update(i as int, job@));
}

fn job_at(jobs: &Vec<DownloadJob>, i: usize) -> (r: DownloadJob)
    requires
        i < jobs@.len(),
    ensures
        r@ == jobs_view(jobs@)[i as int],
{
    jobs[i].duplicate()
}

/// Pauses the first job with id `job_id` if it can be paused (queued,
/// downloading or merging): its status becomes `Paused` and its speed 0.
/// Tells whether it did.
pub fn pause_job_in_list(jobs: &mut Vec<DownloadJob>, job_id: &str) -> (r: bool)
    ensures
        r == (match find_job(jobs_view(old(jobs)@), job_id@) {
            Some(i) => status_can_pause(jobs_view(old(jobs)@)[i].status),
            None => false,
        }),
        jobs_view(final(jobs)@) == if r {
            update_job(jobs_view(old(jobs)@), job_id@, |j: JobModel| paused(j))
        } else {
            jobs_view(old(jobs)@)
        },
{
    match find_job_index(jobs, job_id) {
        Some(i) => {
            if jobs[i].status.can_pause() {
                let mut job = job_at(jobs, i);
                job.status = DownloadStatus::Paused;
                job.instant_speed = 0;
                set_job(jobs, i, job);
                true
            } else {
                false
            }
        },
        None => false,
    }
}

/// Marks the first job with id `job_id` paused (a cancelled download or
/// merge): status `Paused`, speed 0.
pub fn mark_job_paused(jobs: &mut Vec<DownloadJob>, job_id: &str)
    ensures
        jobs_view(final(jobs)@) == update_job(
            jobs_view(old(jobs)@),
            job_id@,
            |j: JobModel| paused(j),
        ),
{
    match find_job_index(jobs, job_id) {
        Some(i) => {
            let mut job = job_at(jobs, i);
            job.status = DownloadStatus::Paused;
            job.instant_speed = 0;
            set_job(jobs, i, job);
        },
        None => {},
    }
}

/// A job whose download was aborted with message `m`.
pub open spec fn aborted(j: JobModel, m: Seq<char>) -> JobModel {
    JobModel { status: StatusModel::CompletedError(m), instant_speed: 0, ..j }
}

/// Marks the first job with id `job_id` as ended by a download error.
pub fn mark_job_aborted(jobs: &mut Vec<DownloadJob>, job_id: &str, message: String)
    ensures
        jobs_view(final(jobs)@) == update_job(
            jobs_view(old(jobs)@),
            job_id@,
            |j: JobModel| aborted(j, message@),
        ),
{
    match find_job_index(jobs, job_id) {
        Some(i) => {
            let mut job = job_at(jobs, i);
            job.status = DownloadStatus::CompletedError(message);
            job.instant_speed = 0;
            set_job(jobs, i, job);
        },
        None => {},
    }
}

/// A job whose playlist was fetched again before resuming.
pub open spec fn refreshed(
    j: JobModel,
    total_segments: u32,
    headers: Seq<(Seq<char>, Seq<char>)>,
) -> JobModel {
    JobModel {
        total_segments,
        http_headers: headers,
        status: StatusModel::Downloading,
        ..j
    }
}

/// Updates the first job with id `job_id` after its playlist was fetched
/// again: new segment count and headers, status `Downloading`.
pub fn update_job_after_refresh(
    jobs: &mut Vec<DownloadJob>,
    job_id: &str,
    total_segments: u32,
    fresh_headers: &Vec<(String, String)>,
)
    ensures
        jobs_view(final(jobs)@) == update_job(
            jobs_view(old(jobs)@),
            job_id@,
            |j: JobModel| refreshed(j, total_segments, headers_view(fresh_headers@)),
        ),
{
    match find_job_index(jobs, job_id) {
        Some(i) => {
            let mut job = job_at(jobs, i);
            job.total_segments = total_segments;
            job.http_headers = clone_headers(fresh_headers);
            job.status = DownloadStatus::Downloading;
            set_job(jobs, i, job);
        },
        None => {},
    }
}

/// A job with new progress figures.
pub open spec fn progressed(
    j: JobModel,
    bytes: u64,
    segments: u32,
    speed: u64,
    eta: u64,
) -> JobModel {
    JobModel {
        downloaded_bytes: bytes,
        downloaded_segments: segments,
        instant_speed: speed,
        eta,
        ..j
    }
}

/// Records progress of the first job with id `job_id`: bytes and segments
/// downloaded, current speed and time left.
pub fn record_progress(
    jobs: &mut Vec<DownloadJob>,
    job_id: &str,
    bytes: u64,
    segments: u32,
    speed: u64,
    eta: u64,
)
    ensures
        jobs_view(final(jobs)@) == update_job(
            jobs_view(old(jobs)@),
            job_id@,
            |j: JobModel| progressed(j, bytes, segments, speed, eta),
        ),
{
    match find_job_index(jobs, job_id) {
        Some(i) => {
            let mut job = job_at(jobs, i);
            job.downloaded_bytes = bytes;
            job.downloaded_segments = segments;
            job.instant_speed = speed;
            job.eta = eta;
            set_job(jobs, i, job);
        },
        None => {},
    }
}

/// The average speed of a finished download: bytes over the seconds it took,
/// at least one.
pub open spec fn average_speed_of(bytes: u64, start: u64, end: u64) -> u64 {
    let d: int = end - start;
    let span: int = if d < 1 {
        1
    } else {
        d
    };
    (bytes as int / span) as u64
}

/// A job whose segments are all downloaded and that now merges.
pub open spec fn merging(j: JobModel, end_time: u64) -> JobModel {
    JobModel {
        average_speed: average_speed_of(j.downloaded_bytes, j.start_time, end_time),
        instant_speed: 0,
        status: StatusModel::Merging,
        progress_bits: PROGRESS_MERGING_BITS,
        ..j
    }
}

/// Starts the merge of the first job with id `job_id` at `end_time`: its
/// average speed is computed, its status becomes `Merging`.
pub fn begin_merge(jobs: &mut Vec<DownloadJob>, job_id: &str, end_time: u64)
    requires
        find_job(jobs_view(old(jobs)@), job_id@) matches Some(i) ==> jobs_view(old(jobs)@)[i].start_time
            <= end_time,
    ensures
        jobs_view(final(jobs)@) == update_job(
            jobs_view(old(jobs)@),
            job_id@,
            |j: JobModel| merging(j, end_time),
        ),
{
    match find_job_index(jobs, job_id) {
        Some(i) => {
            let mut job = job_at(jobs, i);
            let d = end_time - job.start_time;
            let duration = if d < 1 {
                1
            } else {
                d
            };
            job.average_speed = job.downloaded_bytes / duration;
            job.instant_speed = 0;
            job.status = DownloadStatus::Merging;
            job.progress_bits = PROGRESS_MERGING_BITS;
            set_job(jobs, i, job);
        },
        None => {},
    }
}

/// A job whose merge succeeded at `end_time`; its size is that of the
/// merged file when it could be read.
pub open spec fn merged(j: JobModel, end_time: u64, size: Option<u64>) -> JobModel {
    let done = JobModel {
        status: StatusModel::CompletedSuccess,
        progress_bits: PROGRESS_DONE_BITS,
        end_time: Some(end_time),
        ..j
    };
    match size {
        Some(s) => JobModel { final_file_size: Some(s), downloaded_bytes: s, ..done },
        None => done,
    }
}

/// Marks the first job with id `job_id` completed.
pub fn finish_merge_success(
    jobs: &mut Vec<DownloadJob>,
    job_id: &str,
    end_time: u64,
    final_size: Option<u64>,
)
    ensures
        jobs_view(final(jobs)@) == update_job(
            jobs_view(old(jobs)@),
            job_id@,
            |j: JobModel| merged(j, end_time, final_size),
        ),
{
    match find_job_index(jobs, job_id) {
        Some(i) => {
            let mut job = job_at(jobs, i);
            job.status = DownloadStatus::CompletedSuccess;
            job.progress_bits = PROGRESS_DONE_BITS;
            job.end_time = Some(end_time);
            match final_size {
                Some(s) => {
                    job.final_file_size = Some(s);
                    job.downloaded_bytes = s;
                },
                None => {},
            }
            set_job(jobs, i, job);
        },
        None => {},
    }
}

/// A job whose merge failed with message `m` at `end_time`.
pub open spec fn merge_failed(j: JobModel, m: Seq<char>, end_time: u64) -> JobModel {
    JobModel { status: StatusModel::CompletedError(m), end_time: Some(end_time), ..j }
}

/// Marks the first job with id `job_id` as ended by a merge error.
pub fn finish_merge_error(jobs: &mut Vec<DownloadJob>, job_id: &str, message: String, end_time: u64)
    ensures
        jobs_view(final(jobs)@) == update_job(
            jobs_view(old(jobs)@),
            job_id@,
            |j: JobModel| merge_failed(j, message@, end_time),
        ),
{
    match find_job_index(jobs, job_id) {
        Some(i) => {
            let mut job = job_at(jobs, i);
            job.status = DownloadStatus::CompletedError(message);
            job.end_time = Some(end_time);
            set_job(jobs, i, job);
        },
        None => {},
    }
}

// ------------------------------------------------------------ removing

/// The jobs without the first job with id `id`; unchanged when there is none.
pub open spec fn without_job(jobs: Seq<JobModel>, id: Seq<char>) -> Seq<JobModel> {
    match find_job(jobs, id) {
        Some(i) => jobs.remove(i),
        None => jobs,
    }
}

/// The jobs after removing, in turn, the first job with each id of `ids`.
pub open spec fn without_jobs(jobs: Seq<JobModel>, ids: Seq<Seq<char>>) -> Seq<JobModel>
    decreases ids.len(),
{
    if ids.len() == 0 {
        jobs
    } else {
        without_jobs(without_job(jobs, ids[0]), ids.drop_first())
    }
}

/// No two jobs of the list share an id.
pub open spec fn distinct_ids(jobs: Seq<JobModel>) -> bool {
    forall|a: int, b: int| 0 <= a < b < jobs.len() ==> #[trigger] jobs[a].id != #[trigger] jobs[b].id
}

/// Removes the first job with id `job_id`; fails with `Job not found` when
/// there is none.
pub fn remove_job(jobs: &mut Vec<DownloadJob>, job_id: &str) -> (r: Result<(), String>)
    ensures
        jobs_view(final(jobs)@) == without_job(jobs_view(old(jobs)@), job_id@),
        match find_job(jobs_view(old(jobs)@), job_id@) {
            Some(i) => r is Ok && jobs_view(final(jobs)@) == jobs_view(old(jobs)@).remove(i),
            None => r matches Err(e) && e@ == "Job not found"@ && jobs_view(final(jobs)@)
                == jobs_view(old(jobs)@),
        },
{
    match find_job_index(jobs, job_id) {
        Some(i) => {
            let ghost before = jobs_view(jobs@);
            jobs.remove(i);
            assert(jobs_view(jobs@) =~= before.remove(i as int));
            Ok(())
        },
        None => Err(String::from_str("Job not found")),
    }
}

/// The ids of the finished jobs, in list order.
pub open spec fn completed_ids(jobs: Seq<JobModel>) -> Seq<Seq<char>> {
    jobs.filter(|j: JobModel| !status_is_ongoing(j.status)).map_values(|j: JobModel| j.id)
}

/// The ids of the finished jobs (successful or not).
pub fn completed_job_ids(jobs: &Vec<DownloadJob>) -> (r: Vec<String>)
    ensures
        r@.map_values(|s: String| s@) == completed_ids(jobs_view(jobs@)),
{
    let ghost js = jobs_view(jobs@);
    let ghost done = |j: JobModel| !status_is_ongoing(j.status);
    let mut r: Vec<String> = Vec::new();
    let mut i: usize = 0;
    assert(js.take(0).filter(done) =~= Seq::<JobModel>::empty()) by {
        reveal(Seq::filter);
    }
    while i < jobs.len()
        invariant
            i <= jobs@.len(),
            js == jobs_view(jobs@),
            done == (|j: JobModel| !status_is_ongoing(j.status)),
            r@.map_values(|s: String| s@) == js.take(i as int).filter(done).map_values(
                |j: JobModel| j.id,
            ),
        decreases jobs@.len() - i,
    {
        proof {
            assert(js.take(i + 1) =~= js.take(i as int).push(js[i as int]));
            js.take(i as int).lemma_filter_push(js[i as int], done);
        }
        if jobs[i].status.is_completed() {
            let ghost before = r@.map_values(|s: String| s@);
            r.push(jobs[i].id.clone());
            assert(r@.map_values(|s: String| s@) =~= before.push(js[i as int].id));
            assert(js.take(i + 1).filter(done).map_values(|j: JobModel| j.id) =~= js.take(
                i as int,
            ).filter(done).map_values(|j: JobModel| j.id).push(js[i as int].id));
        } else {
        }
        i = i + 1;
    }
    assert(js.take(jobs@.len() as int) =~= js);
    r
}

// ------------------------------------------------------------ target paths

/// The paths claimed by jobs that have not finished: each job's folder
/// joined with its file name, in list order.
pub open spec fn active_paths_of(jobs: Seq<JobModel>) -> Seq<Seq<char>> {
    jobs.filter(|j: JobModel| status_is_ongoing(j.status)).map_values(
        |j: JobModel| path_join(j.save_folder, j.file_name),
    )
}

/// The output paths of the jobs that have not finished.
pub fn active_paths(jobs: &Vec<DownloadJob>) -> (r: Vec<String>)
    ensures
        r@.map_values(|s: String| s@) == active_paths_of(jobs_view(jobs@)),
{
    let ghost js = jobs_view(jobs@);
    let ghost live = |j: JobModel| status_is_ongoing(j.status);
    let mut r: Vec<String> = Vec::new();
    let mut i: usize = 0;
    assert(js.take(0).filter(live) =~= Seq::<JobModel>::empty()) by {
        reveal(Seq::filter);
    }
    while i < jobs.len()
        invariant
            i <= jobs@.len(),
            js == jobs_view(jobs@),
            live == (|j: JobModel| status_is_ongoing(j.status)),
            r@.map_values(|s: String| s@) == js.take(i as int).filter(live).map_values(
                |j: JobModel| path_join(j.save_folder, j.file_name),
            ),
        decreases jobs@.len() - i,
    {
        proof {
            assert(js.take(i + 1) =~= js.take(i as int).push(js[i as int]));
            js.take(i as int).lemma_filter_push(js[i as int], live);
        }
        if jobs[i].status.is_ongoing() {
            let p = join(jobs[i].save_folder.as_str(), jobs[i].file_name.as_str());
            let ghost before = r@.map_values(|s: String| s@);
            r.push(p);
            assert(r@.map_values(|s: String| s@) =~= before.push(p@));
            assert(js.take(i + 1).filter(live).map_values(
                |j: JobModel| path_join(j.save_folder, j.file_name),
            ) =~= js.take(i as int).filter(live).map_values(
                |j: JobModel| path_join(j.save_folder, j.file_name),
            ).push(p@));
        }
        i = i + 1;
    }
    assert(js.take(jobs@.len() as int) =~= js);
    r
}

/// Some unfinished job writes to `file_name` in `folder`.
pub open spec fn target_busy(jobs: Seq<JobModel>, folder: Seq<char>, file_name: Seq<char>) -> bool {
    exists|k: int|
        0 <= k < jobs.len() && #[trigger] jobs[k].save_folder == folder && jobs[k].file_name
            == file_name && status_is_ongoing(jobs[k].status)
}

/// Whether an unfinished job writes to `file_name` in `folder`.
pub fn is_target_busy(jobs: &Vec<DownloadJob>, folder: &str, file_name: &str) -> (r: bool)
    ensures
        r == target_busy(jobs_view(jobs@), folder@, file_name@),
{
    let ghost js = jobs_view(jobs@);
    let f = chars_of(folder);
    let n = chars_of(file_name);
    let mut i: usize = 0;
    while i < jobs.len()
        invariant
            i <= jobs@.len(),
            js == jobs_view(jobs@),
            f@ == folder@,
            n@ == file_name@,
            forall|k: int|
                0 <= k < i ==> !(#[trigger] js[k].save_folder == folder@ && js[k].file_name
                    == file_name@ && status_is_ongoing(js[k].status)),
        decreases jobs@.len() - i,
    {
        let jf = chars_of(jobs[i].save_folder.as_str());
        let jn = chars_of(jobs[i].file_name.as_str());
        if same_chars(jf.as_slice(), f.as_slice()) && same_chars(jn.as_slice(), n.as_slice())
            && jobs[i].status.is_ongoing() {
            assert(js[i as int].save_folder == folder@);
            return true;
        }
        i = i + 1;
    }
    false
}

/// What may be done with the path `folder`/`file_name`: busy when an
/// unfinished job writes there, else taken when a file is there already,
/// else ready.
pub open spec fn file_status_of(
    jobs: Seq<JobModel>,
    folder: Seq<char>,
    file_name: Seq<char>,
    exists_on_disk: bool,
) -> TargetFileStatus {
    if target_busy(jobs, folder, file_name) {
        TargetFileStatus::Busy
    } else if exists_on_disk {
        TargetFileStatus::Exists
    } else {
        TargetFileStatus::Ready
    }
}

/// Whether a download may go to `folder`/`file_name`, given whether a file
/// is there already.
pub fn check_file_status(
    jobs: &Vec<DownloadJob>,
    folder: &str,
    file_name: &str,
    exists_on_disk: bool,
) -> (r: TargetFileStatus)
    ensures
        r == file_status_of(jobs_view(jobs@), folder@, file_name@, exists_on_disk),
{
    if is_target_busy(jobs, folder, file_name) {
        TargetFileStatus::Busy
    } else if exists_on_disk {
        TargetFileStatus::Exists
    } else {
        TargetFileStatus::Ready
    }
}

/// Some job is downloading segments.
pub open spec fn any_downloading(jobs: Seq<JobModel>) -> bool {
    exists|k: int| 0 <= k < jobs.len() && #[trigger] jobs[k].status is Downloading
}

/// Whether a job is downloading segments right now.
pub fn check_active_downloads(jobs: &Vec<DownloadJob>) -> (r: bool)
    ensures
        r == any_downloading(jobs_view(jobs@)),
{
    let ghost js = jobs_view(jobs@);
    let mut i: usize = 0;
    while i < jobs.len()
        invariant
            i <= jobs@.len(),
            js == jobs_view(jobs@),
            forall|k: int| 0 <= k < i ==> !(#[trigger] js[k].status is Downloading),
        decreases jobs@.len() - i,
    {
        if jobs[i].status.is_downloading() {
            assert(js[i as int].status is Downloading);
            return true;
        }
        i = i + 1;
    }
    false
}

/// What resuming the job `id` needs: nothing when it cannot be resumed,
/// else its URL, folder, file name and headers.
pub open spec fn resume_data_of(jobs: Seq<JobModel>, id: Seq<char>) -> Result<
    Option<(Seq<char>, Seq<char>, Seq<char>, Seq<(Seq<char>, Seq<char>)>)>,
    Seq<char>,
> {
    match find_job(jobs, id) {
        None => Err("Job not found"@),
        Some(i) => if !status_can_resume(jobs[i].status) {
            Ok(None)
        } else {
            Ok(
                Some(
                    (jobs[i].m3u8_url, jobs[i].save_folder, jobs[i].file_name, jobs[i].http_headers),
                ),
            )
        },
    }
}

/// The data needed to resume the job `job_id`: `None` when it is not
/// paused or failed (nothing to do), an error when there is no such job.
pub fn resume_job_data(jobs: &Vec<DownloadJob>, job_id: &str) -> (r: Result<
    Option<(String, String, String, Vec<(String, String)>)>,
    String,
>)
    ensures
        match r {
            Ok(Some(d)) => resume_data_of(jobs_view(jobs@), job_id@) == Ok::<
                Option<(Seq<char>, Seq<char>, Seq<char>, Seq<(Seq<char>, Seq<char>)>)>,
                Seq<char>,
            >(Some((d.0@, d.1@, d.2@, headers_view(d.3@)))),
            Ok(None) => resume_data_of(jobs_view(jobs@), job_id@) == Ok::<
                Option<(Seq<char>, Seq<char>, Seq<char>, Seq<(Seq<char>, Seq<char>)>)>,
                Seq<char>,
            >(None),
            Err(e) => resume_data_of(jobs_view(jobs@), job_id@) == Err::<
                Option<(Seq<char>, Seq<char>, Seq<char>, Seq<(Seq<char>, Seq<char>)>)>,
                Seq<char>,
            >(e@),
        },
{
    match find_job_index(jobs, job_id) {
        None => Err(String::from_str("Job not found")),
        Some(i) => {
            let job = &jobs[i];
            if !job.status.can_resume() {
                Ok(None)
            } else {
                Ok(
                    Some(
                        (
                            job.m3u8_url.clone(),
                            job.save_folder.clone(),
                            job.file_name.clone(),
                            clone_headers(&job.http_headers),
                        ),
                    ),
                )
            }
        },
    }
}

} // verus!
