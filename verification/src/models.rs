//! The data model: jobs as declared, jobs as they run, and the payloads of
//! the events that report on them.
//!
//! Every type that owns text has a view in which each string is its
//! sequence of characters; contracts are stated over these views.

use vstd::prelude::*;

verus! {

/// Identifies a job: the 128 bits of its UUID.
pub type JobId = u128;

/// Progress in hundredths of a percent: `10_000` is 100 %.
pub type Percent = u32;

/// The value of [`Percent`] that stands for 100 %.
pub const PERCENT_FULL: Percent = 10_000;

#[derive(Clone, Copy, Debug, PartialEq, Eq, Structural)]
pub enum JobStatus {
    Pending,
    Downloading,
    Completed,
    Cancelled,
    Error,
}

#[derive(Clone, Copy, Debug, PartialEq, Eq, Structural)]
pub enum DownloadFormatPreset {
    Best,
    BestMp4,
    BestMkv,
    BestWebm,
    AudioBest,
    AudioMp3,
    AudioFlac,
    AudioM4a,
}

/// The characters of an optional string.
pub open spec fn opt_view(o: Option<String>) -> Option<Seq<char>> {
    match o {
        Some(s) => Some(s@),
        None => None,
    }
}

/// A copy of an optional string.
pub fn clone_opt(o: &Option<String>) -> (r: Option<String>)
    ensures
        r == *o,
{
    match o {
        Some(s) => Some(s.clone()),
        None => None,
    }
}

/// One entry of a probed URL: a single item, or one item of a playlist.
#[derive(Debug)]
pub struct PlaylistEntry {
    pub id: Option<String>,
    pub url: String,
    pub title: String,
}

pub ghost struct PlaylistEntryView {
    pub id: Option<Seq<char>>,
    pub url: Seq<char>,
    pub title: Seq<char>,
}

impl View for PlaylistEntry {
    type V = PlaylistEntryView;

    open spec fn view(&self) -> PlaylistEntryView {
        PlaylistEntryView { id: opt_view(self.id), url: self.url@, title: self.title@ }
    }
}

impl Clone for PlaylistEntry {
    fn clone(&self) -> (r: Self)
        ensures
            r == *self,
    {
        PlaylistEntry { id: clone_opt(&self.id), url: self.url.clone(), title: self.title.clone() }
    }
}

/// The views of a sequence of entries.
pub open spec fn entry_views(v: Seq<PlaylistEntry>) -> Seq<PlaylistEntryView> {
    v.map_values(|e: PlaylistEntry| e@)
}

/// What a probe found.
#[derive(Debug)]
pub struct PlaylistResult {
    pub entries: Vec<PlaylistEntry>,
}

/// A job as declared: what to fetch and how.
#[derive(Debug)]
pub struct QueuedJob {
    pub id: JobId,
    pub url: String,
    pub download_path: Option<String>,
    pub format_preset: DownloadFormatPreset,
    pub video_resolution: String,
    pub embed_metadata: bool,
    pub embed_thumbnail: bool,
    pub filename_template: String,
    pub restrict_filenames: bool,
    pub live_from_start: bool,
    /// What is left of a failed attempt, kept for display after a restart.
    pub status: Option<String>,
    pub error: Option<String>,
    pub stderr: Option<String>,
}

pub ghost struct QueuedJobView {
    pub id: JobId,
    pub url: Seq<char>,
    pub download_path: Option<Seq<char>>,
    pub format_preset: DownloadFormatPreset,
    pub video_resolution: Seq<char>,
    pub embed_metadata: bool,
    pub embed_thumbnail: bool,
    pub filename_template: Seq<char>,
    pub restrict_filenames: bool,
    pub live_from_start: bool,
    pub status: Option<Seq<char>>,
    pub error: Option<Seq<char>>,
    pub stderr: Option<Seq<char>>,
}

impl View for QueuedJob {
    type V = QueuedJobView;

    open spec fn view(&self) -> QueuedJobView {
        QueuedJobView {
            id: self.id,
            url: self.url@,
            download_path: opt_view(self.download_path),
            format_preset: self.format_preset,
            video_resolution: self.video_resolution@,
            embed_metadata: self.embed_metadata,
            embed_thumbnail: self.embed_thumbnail,
            filename_template: self.filename_template@,
            restrict_filenames: self.restrict_filenames,
            live_from_start: self.live_from_start,
            status: opt_view(self.status),
            error: opt_view(self.error),
            stderr: opt_view(self.stderr),
        }
    }
}

impl Clone for QueuedJob {
    fn clone(&self) -> (r: Self)
        ensures
            r == *self,
    {
        QueuedJob {
            id: self.id,
            url: self.url.clone(),
            download_path: clone_opt(&self.download_path),
            format_preset: self.format_preset,
            video_resolution: self.video_resolution.clone(),
            embed_metadata: self.embed_metadata,
            embed_thumbnail: self.embed_thumbnail,
            filename_template: self.filename_template.clone(),
            restrict_filenames: self.restrict_filenames,
            live_from_start: self.live_from_start,
            status: clone_opt(&self.status),
            error: clone_opt(&self.error),
            stderr: clone_opt(&self.stderr),
        }
    }
}

/// The views of a sequence of declared jobs.
pub open spec fn queued_views(v: Seq<QueuedJob>) -> Seq<QueuedJobView> {
    v.map_values(|j: QueuedJob| j@)
}

/// A job as it runs: the state that the manager keeps for it.
#[derive(Debug)]
pub struct Job {
    pub id: JobId,
    pub url: String,
    pub pid: Option<u32>,
    pub status: JobStatus,
    pub progress: Percent,
    /// Stamped onto every change of this job; it only grows.
    pub sequence_id: u64,
    pub output_path: Option<String>,
    pub speed: Option<String>,
    pub eta: Option<String>,
    pub filename: Option<String>,
    pub phase: Option<String>,
    pub error: Option<String>,
    pub exit_code: Option<i32>,
    pub stderr: Option<String>,
    pub logs: Option<String>,
    pub preset: Option<DownloadFormatPreset>,
    pub video_resolution: Option<String>,
    pub download_path: Option<String>,
    pub filename_template: Option<String>,
    pub embed_metadata: Option<bool>,
    pub embed_thumbnail: Option<bool>,
    pub restrict_filenames: Option<bool>,
    pub live_from_start: Option<bool>,
}

pub ghost struct JobView {
    pub id: JobId,
    pub url: Seq<char>,
    pub pid: Option<u32>,
    pub status: JobStatus,
    pub progress: Percent,
    pub sequence_id: u64,
    pub output_path: Option<Seq<char>>,
    pub speed: Option<Seq<char>>,
    pub eta: Option<Seq<char>>,
    pub filename: Option<Seq<char>>,
    pub phase: Option<Seq<char>>,
    pub error: Option<Seq<char>>,
    pub exit_code: Option<i32>,
    pub stderr: Option<Seq<char>>,
    pub logs: Option<Seq<char>>,
    pub preset: Option<DownloadFormatPreset>,
    pub video_resolution: Option<Seq<char>>,
    pub download_path: Option<Seq<char>>,
    pub filename_template: Option<Seq<char>>,
    pub embed_metadata: Option<bool>,
    pub embed_thumbnail: Option<bool>,
    pub restrict_filenames: Option<bool>,
    pub live_from_start: Option<bool>,
}

impl View for Job {
    type V = JobView;

    open spec fn view(&self) -> JobView {
        JobView {
            id: self.id,
            url: self.url@,
            pid: self.pid,
            status: self.status,
            progress: self.progress,
            sequence_id: self.sequence_id,
            output_path: opt_view(self.output_path),
            speed: opt_view(self.speed),
            eta: opt_view(self.eta),
            filename: opt_view(self.filename),
            phase: opt_view(self.phase),
            error: opt_view(self.error),
            exit_code: self.exit_code,
            stderr: opt_view(self.stderr),
            logs: opt_view(self.logs),
            preset: self.preset,
            video_resolution: opt_view(self.video_resolution),
            download_path: opt_view(self.download_path),
            filename_template: opt_view(self.filename_template),
            embed_metadata: self.embed_metadata,
            embed_thumbnail: self.embed_thumbnail,
            restrict_filenames: self.restrict_filenames,
            live_from_start: self.live_from_start,
        }
    }
}

/// The state of a job that nothing has happened to yet.
pub open spec fn fresh_job(id: JobId, url: Seq<char>) -> JobView {
    JobView {
        id,
        url,
        pid: None,
        status: JobStatus::Pending,
        progress: 0,
        sequence_id: 0,
        output_path: None,
        speed: None,
        eta: None,
        filename: None,
        phase: None,
        error: None,
        exit_code: None,
        stderr: None,
        logs: None,
        preset: None,
        video_resolution: None,
        download_path: None,
        filename_template: None,
        embed_metadata: None,
        embed_thumbnail: None,
        restrict_filenames: None,
        live_from_start: None,
    }
}

/// The state in which a declared job enters the table: fresh, with the
/// declaration's options copied over.
pub open spec fn admitted_job(q: QueuedJobView) -> JobView {
    JobView {
        preset: Some(q.format_preset),
        video_resolution: Some(q.video_resolution),
        download_path: q.download_path,
        filename_template: Some(q.filename_template),
        embed_metadata: Some(q.embed_metadata),
        embed_thumbnail: Some(q.embed_thumbnail),
        restrict_filenames: Some(q.restrict_filenames),
        live_from_start: Some(q.live_from_start),
        ..fresh_job(q.id, q.url)
    }
}

impl Job {
    /// The job with identifier `id` for `url`, to which nothing has happened yet.
    pub fn new(id: JobId, url: String) -> (job: Self)
        ensures
            job@ == fresh_job(id, url@),
    {
        Job {
            id,
            url,
            pid: None,
            status: JobStatus::Pending,
            progress: 0,
            sequence_id: 0,
            output_path: None,
            speed: None,
            eta: None,
            filename: None,
            phase: None,
            error: None,
            exit_code: None,
            stderr: None,
            logs: None,
            preset: None,
            video_resolution: None,
            download_path: None,
            filename_template: None,
            embed_metadata: None,
            embed_thumbnail: None,
            restrict_filenames: None,
            live_from_start: None,
        }
    }

    /// The job as it enters the table for the declaration `q`.
    pub fn admitted(q: &QueuedJob) -> (job: Self)
        ensures
            job@ == admitted_job(q@),
    {
        let mut job = Job::new(q.id, q.url.clone());
        job.preset = Some(q.format_preset);
        job.video_resolution = Some(q.video_resolution.clone());
        job.download_path = clone_opt(&q.download_path);
        job.filename_template = Some(q.filename_template.clone());
        job.embed_metadata = Some(q.embed_metadata);
        job.embed_thumbnail = Some(q.embed_thumbnail);
        job.restrict_filenames = Some(q.restrict_filenames);
        job.live_from_start = Some(q.live_from_start);
        job
    }
}

impl Clone for Job {
    fn clone(&self) -> (r: Self)
        ensures
            r == *self,
    {
        Job {
            id: self.id,
            url: self.url.clone(),
            pid: self.pid,
            status: self.status,
            progress: self.progress,
            sequence_id: self.sequence_id,
            output_path: clone_opt(&self.output_path),
            speed: clone_opt(&self.speed),
            eta: clone_opt(&self.eta),
            filename: clone_opt(&self.filename),
            phase: clone_opt(&self.phase),
            error: clone_opt(&self.error),
            exit_code: self.exit_code,
            stderr: clone_opt(&self.stderr),
            logs: clone_opt(&self.logs),
            preset: self.preset,
            video_resolution: clone_opt(&self.video_resolution),
            download_path: clone_opt(&self.download_path),
            filename_template: clone_opt(&self.filename_template),
            embed_metadata: self.embed_metadata,
            embed_thumbnail: self.embed_thumbnail,
            restrict_filenames: self.restrict_filenames,
            live_from_start: self.live_from_start,
        }
    }
}

/// The views of a sequence of live jobs.
pub open spec fn job_views(v: Seq<Job>) -> Seq<JobView> {
    v.map_values(|j: Job| j@)
}

/// Answer to a request to download a URL.
#[derive(Debug)]
pub struct StartDownloadResponse {
    pub job_ids: Vec<JobId>,
    pub skipped_count: u32,
    pub total_found: u32,
    pub skipped_urls: Vec<String>,
}

/// The latest progress of one job.
#[derive(Debug)]
pub struct DownloadProgressPayload {
    pub job_id: JobId,
    pub percentage: Percent,
    pub sequence_id: u64,
    pub speed: String,
    pub eta: String,
    pub filename: Option<String>,
    pub phase: Option<String>,
}

pub ghost struct DownloadProgressPayloadView {
    pub job_id: JobId,
    pub percentage: Percent,
    pub sequence_id: u64,
    pub speed: Seq<char>,
    pub eta: Seq<char>,
    pub filename: Option<Seq<char>>,
    pub phase: Option<Seq<char>>,
}

impl View for DownloadProgressPayload {
    type V = DownloadProgressPayloadView;

    open spec fn view(&self) -> DownloadProgressPayloadView {
        DownloadProgressPayloadView {
            job_id: self.job_id,
            percentage: self.percentage,
            sequence_id: self.sequence_id,
            speed: self.speed@,
            eta: self.eta@,
            filename: opt_view(self.filename),
            phase: opt_view(self.phase),
        }
    }
}

impl Clone for DownloadProgressPayload {
    fn clone(&self) -> (r: Self)
        ensures
            r == *self,
    {
        DownloadProgressPayload {
            job_id: self.job_id,
            percentage: self.percentage,
            sequence_id: self.sequence_id,
            speed: self.speed.clone(),
            eta: self.eta.clone(),
            filename: clone_opt(&self.filename),
            phase: clone_opt(&self.phase),
        }
    }
}

/// The views of a sequence of progress payloads.
pub open spec fn progress_views(v: Seq<DownloadProgressPayload>) -> Seq<
    DownloadProgressPayloadView,
> {
    v.map_values(|p: DownloadProgressPayload| p@)
}

/// A batch of progress payloads, one per job that changed.
#[derive(Debug)]
pub struct BatchProgressPayload {
    pub updates: Vec<DownloadProgressPayload>,
}

/// A job has failed.
#[derive(Debug)]
pub struct DownloadErrorPayload {
    pub job_id: JobId,
    pub error: String,
    pub exit_code: Option<i32>,
    pub stderr: String,
    pub logs: String,
}

pub ghost struct DownloadErrorPayloadView {
    pub job_id: JobId,
    pub error: Seq<char>,
    pub exit_code: Option<i32>,
    pub stderr: Seq<char>,
    pub logs: Seq<char>,
}

impl View for DownloadErrorPayload {
    type V = DownloadErrorPayloadView;

    open spec fn view(&self) -> DownloadErrorPayloadView {
        DownloadErrorPayloadView {
            job_id: self.job_id,
            error: self.error@,
            exit_code: self.exit_code,
            stderr: self.stderr@,
            logs: self.logs@,
        }
    }
}

impl Clone for DownloadErrorPayload {
    fn clone(&self) -> (r: Self)
        ensures
            r == *self,
    {
        DownloadErrorPayload {
            job_id: self.job_id,
            error: self.error.clone(),
            exit_code: self.exit_code,
            stderr: self.stderr.clone(),
            logs: self.logs.clone(),
        }
    }
}

/// What reaches the manager: requests from the host and reports from workers.
#[derive(Debug)]
pub enum JobMessage {
    AddJob { job: QueuedJob },
    CancelJob { id: JobId },
    UpdateProgress {
        id: JobId,
        percentage: Percent,
        speed: String,
        eta: String,
        filename: Option<String>,
        phase: String,
    },
    ProcessStarted { id: JobId, pid: u32 },
    JobCompleted { id: JobId, output_path: String },
    JobError { id: JobId, payload: DownloadErrorPayload },
    FileConflict { id: JobId, temp_path: String, output_path: String },
    WorkerFinished,
    /// Carries the declarations read back from the persisted queue.
    ResumePending { jobs: Vec<QueuedJob> },
    ClearPending,
}

pub ghost enum JobMessageView {
    AddJob { job: QueuedJobView },
    CancelJob { id: JobId },
    UpdateProgress {
        id: JobId,
        percentage: Percent,
        speed: Seq<char>,
        eta: Seq<char>,
        filename: Option<Seq<char>>,
        phase: Seq<char>,
    },
    ProcessStarted { id: JobId, pid: u32 },
    JobCompleted { id: JobId, output_path: Seq<char> },
    JobError { id: JobId, payload: DownloadErrorPayloadView },
    FileConflict { id: JobId, temp_path: Seq<char>, output_path: Seq<char> },
    WorkerFinished,
    ResumePending { jobs: Seq<QueuedJobView> },
    ClearPending,
}

impl View for JobMessage {
    type V = JobMessageView;

    open spec fn view(&self) -> JobMessageView {
        match *self {
            JobMessage::AddJob { job } => JobMessageView::AddJob { job: job@ },
            JobMessage::CancelJob { id } => JobMessageView::CancelJob { id },
            JobMessage::UpdateProgress { id, percentage, speed, eta, filename, phase } =>
                JobMessageView::UpdateProgress {
                    id,
                    percentage,
                    speed: speed@,
                    eta: eta@,
                    filename: opt_view(filename),
                    phase: phase@,
                },
            JobMessage::ProcessStarted { id, pid } => JobMessageView::ProcessStarted { id, pid },
            JobMessage::JobCompleted { id, output_path } => JobMessageView::JobCompleted {
                id,
                output_path: output_path@,
            },
            JobMessage::JobError { id, payload } => JobMessageView::JobError {
                id,
                payload: payload@,
            },
            JobMessage::FileConflict { id, temp_path, output_path } =>
                JobMessageView::FileConflict {
                    id,
                    temp_path: temp_path@,
                    output_path: output_path@,
                },
            JobMessage::WorkerFinished => JobMessageView::WorkerFinished,
            JobMessage::ResumePending { jobs } => JobMessageView::ResumePending {
                jobs: queued_views(jobs@),
            },
            JobMessage::ClearPending => JobMessageView::ClearPending,
        }
    }
}

} // verus!
