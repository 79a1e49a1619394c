//! The job manager: the one owner of the job table, the queue, the
//! persistence registry and the concurrency counters.
//!
//! The manager is a state machine. [`JobManager::handle_message`] takes the
//! state and one message to the next state and a list of effects; the
//! caller carries the effects out (kills, spawns, events) and feeds what
//! comes of them back in as messages. [`step`] says exactly what each
//! message does.

use vstd::prelude::*;
use std::collections::VecDeque;
use crate::config::Limits;
use crate::models::{
    admitted_job, clone_opt, job_views, opt_view, progress_views, queued_views,
    DownloadErrorPayload, DownloadErrorPayloadView, DownloadProgressPayload,
    DownloadProgressPayloadView, Job, JobId, JobMessage, JobMessageView, JobStatus, JobView,
    Percent, QueuedJob, QueuedJobView, PERCENT_FULL,
};
use crate::text::{chars_of, contains, contains_text, lowered, same_text, to_lower};

verus! {

/// Milliseconds between two ticks, on each of which the pending progress is
/// flushed and a changed registry is handed on to be written.
pub const TICK_INTERVAL_MS: u64 = 100;

/// Seconds that a shutdown waits for its workers to finish.
pub const SHUTDOWN_DEADLINE_SECS: u64 = 3;

/// How many messages may wait for the manager.
pub const MAILBOX_CAPACITY: usize = 1000;

/// How many requests may wait for the task that writes the registry out.
pub const PERSISTENCE_MAILBOX_CAPACITY: usize = 100;

/// The answer to a request to add a job.
#[derive(Clone, Copy, Debug, PartialEq, Eq, Structural)]
pub enum AddJobReply {
    Accepted,
    /// A job with this identifier is in the table already.
    AlreadyExists,
    /// A job for this URL is pending or downloading.
    DuplicateUrl,
}

impl AddJobReply {
    /// The words in which a refusal is handed to the host.
    pub fn message(&self) -> (text: String)
        ensures
            text@ == match *self {
                AddJobReply::Accepted => ""@,
                AddJobReply::AlreadyExists => "Job already exists"@,
                AddJobReply::DuplicateUrl => "URL is already in queue"@,
            },
    {
        match self {
            AddJobReply::Accepted => "".to_owned(),
            AddJobReply::AlreadyExists => "Job already exists".to_owned(),
            AddJobReply::DuplicateUrl => "URL is already in queue".to_owned(),
        }
    }
}

/// What the manager asks of its caller.
#[derive(Debug)]
pub enum Effect {
    /// Answer the request to add a job.
    Reply(AddJobReply),
    /// End the process group of this process id.
    Kill(u32),
    /// Start a worker for this job.
    SpawnWorker(QueuedJob),
    EmitCancelled(JobId),
    EmitComplete { job_id: JobId, output_path: String },
    EmitError(DownloadErrorPayload),
    EmitConflict { job_id: JobId, temp_path: String, output_path: String },
    /// Tell the user that this many files were handled.
    Notify(u32),
    /// Empty the parent directory of the stage directories.
    CleanTemp,
    /// Delete the persisted queue.
    ClearPersistence,
    /// Answer the request to resume with the jobs that were taken up.
    Resumed(Vec<QueuedJob>),
}

pub ghost enum EffectView {
    Reply(AddJobReply),
    Kill(u32),
    SpawnWorker(QueuedJobView),
    EmitCancelled(JobId),
    EmitComplete { job_id: JobId, output_path: Seq<char> },
    EmitError(DownloadErrorPayloadView),
    EmitConflict { job_id: JobId, temp_path: Seq<char>, output_path: Seq<char> },
    Notify(u32),
    CleanTemp,
    ClearPersistence,
    Resumed(Seq<QueuedJobView>),
}

impl View for Effect {
    type V = EffectView;

    open spec fn view(&self) -> EffectView {
        match *self {
            Effect::Reply(r) => EffectView::Reply(r),
            Effect::Kill(pid) => EffectView::Kill(pid),
            Effect::SpawnWorker(job) => EffectView::SpawnWorker(job@),
            Effect::EmitCancelled(id) => EffectView::EmitCancelled(id),
            Effect::EmitComplete { job_id, output_path } => EffectView::EmitComplete {
                job_id,
                output_path: output_path@,
            },
            Effect::EmitError(payload) => EffectView::EmitError(payload@),
            Effect::EmitConflict { job_id, temp_path, output_path } => EffectView::EmitConflict {
                job_id,
                temp_path: temp_path@,
                output_path: output_path@,
            },
            Effect::Notify(count) => EffectView::Notify(count),
            Effect::CleanTemp => EffectView::CleanTemp,
            Effect::ClearPersistence => EffectView::ClearPersistence,
            Effect::Resumed(jobs) => EffectView::Resumed(queued_views(jobs@)),
        }
    }
}

/// The views of a sequence of effects.
pub open spec fn effect_views(v: Seq<Effect>) -> Seq<EffectView> {
    v.map_values(|e: Effect| e@)
}

/// The state of the manager.
pub ghost struct ManagerView {
    /// The job table, in the order in which the jobs came in.
    pub jobs: Seq<JobView>,
    /// The jobs that wait for a slot, first in first out.
    pub queue: Seq<QueuedJobView>,
    /// The jobs whose declaration survives a restart.
    pub registry: Seq<QueuedJobView>,
    /// Whether the registry has changed since it was last written out.
    pub dirty: bool,
    pub active_network_jobs: u32,
    pub active_process_instances: u32,
    /// Workers that finished since the last notification.
    pub completed_session_count: u32,
    /// The latest progress of each job that changed since the last flush.
    pub pending_updates: Seq<DownloadProgressPayloadView>,
}

/// The offset of the first job with identifier `id`; the length of the
/// table where there is none.
pub open spec fn job_index(jobs: Seq<JobView>, id: JobId) -> int
    decreases jobs.len(),
{
    if jobs.len() == 0 || jobs.first().id == id {
        0
    } else {
        1 + job_index(jobs.drop_first(), id)
    }
}

/// Whether the table holds a job with identifier `id`.
pub open spec fn has_job(jobs: Seq<JobView>, id: JobId) -> bool {
    job_index(jobs, id) < jobs.len()
}

/// The offset of the first declaration with identifier `id`; the length of
/// the sequence where there is none.
pub open spec fn entry_index(entries: Seq<QueuedJobView>, id: JobId) -> int
    decreases entries.len(),
{
    if entries.len() == 0 || entries.first().id == id {
        0
    } else {
        1 + entry_index(entries.drop_first(), id)
    }
}

/// The offset of the first payload for job `id`; the length of the sequence
/// where there is none.
pub open spec fn update_index(updates: Seq<DownloadProgressPayloadView>, id: JobId) -> int
    decreases updates.len(),
{
    if updates.len() == 0 || updates.first().job_id == id {
        0
    } else {
        1 + update_index(updates.drop_first(), id)
    }
}

/// A job counts as active while it is pending or downloading.
pub open spec fn is_active(status: JobStatus) -> bool {
    status == JobStatus::Pending || status == JobStatus::Downloading
}

/// Whether an active job of the table is for `url`.
pub open spec fn url_is_active(jobs: Seq<JobView>, url: Seq<char>) -> bool {
    exists|i: int| 0 <= i < jobs.len() && #[trigger] jobs[i].url == url && is_active(jobs[i].status)
}

/// The next sequence id; the largest one is its own successor.
pub open spec fn next_sequence(seq: u64) -> u64 {
    if seq < u64::MAX {
        (seq + 1) as u64
    } else {
        seq
    }
}

/// The registry with the declaration `job` put in, in place of one with
/// the same identifier where there is one.
pub open spec fn registry_put(registry: Seq<QueuedJobView>, job: QueuedJobView) -> Seq<
    QueuedJobView,
> {
    if entry_index(registry, job.id) < registry.len() {
        registry.update(entry_index(registry, job.id), job)
    } else {
        registry.push(job)
    }
}

/// The registry without the declaration with identifier `id`.
pub open spec fn registry_without(registry: Seq<QueuedJobView>, id: JobId) -> Seq<QueuedJobView> {
    if entry_index(registry, id) < registry.len() {
        registry.remove(entry_index(registry, id))
    } else {
        registry
    }
}

/// The pending updates with `payload` put in, in place of one for the same
/// job where there is one.
pub open spec fn updates_put(
    updates: Seq<DownloadProgressPayloadView>,
    payload: DownloadProgressPayloadView,
) -> Seq<DownloadProgressPayloadView> {
    if update_index(updates, payload.job_id) < updates.len() {
        updates.update(update_index(updates, payload.job_id), payload)
    } else {
        updates.push(payload)
    }
}

/// Whether the text of an error says that a retry is pointless. Letter case
/// does not count.
pub open spec fn is_fatal_text(msg: Seq<char>) -> bool {
    let m = lowered(msg);
    contains_text(m, "video unavailable"@) || contains_text(m, "video has been removed"@) || (
    contains_text(m, "fragment"@) && contains_text(m, "not received"@)) || contains_text(
        m,
        "http error 404"@,
    )
}

/// Whether a slot is free under the limits.
pub open spec fn has_capacity(s: ManagerView, limits: Limits) -> bool {
    s.active_network_jobs < limits.max_concurrent_downloads && s.active_process_instances
        < limits.max_total_instances
}

/// Hands queued jobs to workers while slots are free. A queued job that was
/// cancelled meanwhile is dropped.
pub open spec fn dispatch(s: ManagerView, limits: Limits) -> (ManagerView, Seq<EffectView>)
    decreases s.queue.len(),
{
    if has_capacity(s, limits) && s.queue.len() > 0 {
        let next = s.queue.first();
        let rest = ManagerView { queue: s.queue.drop_first(), ..s };
        if has_job(s.jobs, next.id) && s.jobs[job_index(s.jobs, next.id)].status
            == JobStatus::Cancelled {
            dispatch(rest, limits)
        } else {
            let started = ManagerView {
                active_network_jobs: (s.active_network_jobs + 1) as u32,
                active_process_instances: (s.active_process_instances + 1) as u32,
                ..rest
            };
            (
                dispatch(started, limits).0,
                seq![EffectView::SpawnWorker(next)] + dispatch(started, limits).1,
            )
        }
    } else {
        (s, Seq::empty())
    }
}

/// The table with the job at `id` replaced by `job`.
pub open spec fn with_job(s: ManagerView, id: JobId, job: JobView) -> ManagerView {
    ManagerView { jobs: s.jobs.update(job_index(s.jobs, id), job), ..s }
}

/// A request to add a job. It is refused where a job has its identifier or
/// an active job has its URL. Otherwise the job enters the table, the
/// registry and the queue, the registry counts as changed, and workers are
/// started while slots are free.
pub open spec fn after_add(s: ManagerView, job: QueuedJobView, limits: Limits) -> (
    ManagerView,
    Seq<EffectView>,
) {
    if has_job(s.jobs, job.id) {
        (s, seq![EffectView::Reply(AddJobReply::AlreadyExists)])
    } else if url_is_active(s.jobs, job.url) {
        (s, seq![EffectView::Reply(AddJobReply::DuplicateUrl)])
    } else {
        let admitted = ManagerView {
            jobs: s.jobs.push(admitted_job(job)),
            registry: registry_put(s.registry, job),
            queue: s.queue.push(job),
            dirty: true,
            ..s
        };
        (
            dispatch(admitted, limits).0,
            dispatch(admitted, limits).1 + seq![EffectView::Reply(AddJobReply::Accepted)],
        )
    }
}

/// A request to cancel a job. A known process is killed, the job becomes
/// cancelled under a new sequence id, its declaration leaves the registry,
/// and the cancellation is reported, whether or not the job is known.
pub open spec fn after_cancel(s: ManagerView, id: JobId) -> (ManagerView, Seq<EffectView>) {
    let forgotten = ManagerView { registry: registry_without(s.registry, id), dirty: true, ..s };
    if has_job(s.jobs, id) {
        let job = s.jobs[job_index(s.jobs, id)];
        (
            with_job(
                forgotten,
                id,
                JobView {
                    status: JobStatus::Cancelled,
                    sequence_id: next_sequence(job.sequence_id),
                    ..job
                },
            ),
            (match job.pid {
                Some(pid) => seq![EffectView::Kill(pid)],
                None => Seq::empty(),
            }) + seq![EffectView::EmitCancelled(id)],
        )
    } else {
        (forgotten, seq![EffectView::EmitCancelled(id)])
    }
}

/// The report that the process of a job runs. The process of a cancelled
/// job is killed at once. Any other known job takes the process id and
/// counts as downloading, under a new sequence id.
pub open spec fn after_started(s: ManagerView, id: JobId, pid: u32) -> (
    ManagerView,
    Seq<EffectView>,
) {
    if !has_job(s.jobs, id) {
        (s, Seq::empty())
    } else {
        let job = s.jobs[job_index(s.jobs, id)];
        if job.status == JobStatus::Cancelled {
            (s, seq![EffectView::Kill(pid)])
        } else {
            (
                with_job(
                    s,
                    id,
                    JobView {
                        pid: Some(pid),
                        status: JobStatus::Downloading,
                        sequence_id: next_sequence(job.sequence_id),
                        ..job
                    },
                ),
                Seq::empty(),
            )
        }
    }
}

/// A progress report. It is dropped for a job that is unknown or
/// cancelled. Otherwise the job takes the values under a new sequence id,
/// and the payload replaces whatever was pending for the job.
pub open spec fn after_progress(
    s: ManagerView,
    id: JobId,
    percentage: Percent,
    speed: Seq<char>,
    eta: Seq<char>,
    filename: Option<Seq<char>>,
    phase: Seq<char>,
) -> ManagerView {
    if !has_job(s.jobs, id) || s.jobs[job_index(s.jobs, id)].status == JobStatus::Cancelled {
        s
    } else {
        let job = s.jobs[job_index(s.jobs, id)];
        ManagerView {
            pending_updates: updates_put(
                s.pending_updates,
                DownloadProgressPayloadView {
                    job_id: id,
                    percentage,
                    sequence_id: next_sequence(job.sequence_id),
                    speed,
                    eta,
                    filename,
                    phase: Some(phase),
                },
            ),
            ..with_job(
                s,
                id,
                JobView {
                    progress: percentage,
                    speed: Some(speed),
                    eta: Some(eta),
                    filename: if filename.is_some() {
                        filename
                    } else {
                        job.filename
                    },
                    phase: Some(phase),
                    sequence_id: next_sequence(job.sequence_id),
                    ..job
                },
            )
        }
    }
}

/// The report that a job has finished. It is dropped for a cancelled job.
/// Otherwise a known job counts as completed under a new sequence id, its
/// declaration leaves the registry, and the completion is reported.
pub open spec fn after_completed(s: ManagerView, id: JobId, output_path: Seq<char>) -> (
    ManagerView,
    Seq<EffectView>,
) {
    if has_job(s.jobs, id) && s.jobs[job_index(s.jobs, id)].status == JobStatus::Cancelled {
        (s, Seq::empty())
    } else {
        let forgotten = ManagerView {
            registry: registry_without(s.registry, id),
            dirty: true,
            ..s
        };
        (
            if has_job(s.jobs, id) {
                let job = s.jobs[job_index(s.jobs, id)];
                with_job(
                    forgotten,
                    id,
                    JobView {
                        status: JobStatus::Completed,
                        progress: PERCENT_FULL,
                        output_path: Some(output_path),
                        phase: Some("Done"@),
                        sequence_id: next_sequence(job.sequence_id),
                        ..job
                    },
                )
            } else {
                forgotten
            },
            seq![EffectView::EmitComplete { job_id: id, output_path }],
        )
    }
}

/// The registry with what is left of a failure noted on the declaration
/// with identifier `id`, where there is one.
pub open spec fn registry_with_remnant(
    registry: Seq<QueuedJobView>,
    id: JobId,
    error: Seq<char>,
    stderr: Seq<char>,
) -> Seq<QueuedJobView> {
    if entry_index(registry, id) < registry.len() {
        registry.update(
            entry_index(registry, id),
            QueuedJobView {
                status: Some("error"@),
                error: Some(error),
                stderr: Some(stderr),
                ..registry[entry_index(registry, id)]
            },
        )
    } else {
        registry
    }
}

/// The report that a job has failed. It is dropped for a cancelled job.
/// Otherwise a known job takes the error under a new sequence id. After an
/// error that a retry cannot mend the declaration leaves the registry;
/// after any other it stays, with what is left of the failure noted on it.
/// The error is reported either way.
pub open spec fn after_error(s: ManagerView, id: JobId, payload: DownloadErrorPayloadView) -> (
    ManagerView,
    Seq<EffectView>,
) {
    if has_job(s.jobs, id) && s.jobs[job_index(s.jobs, id)].status == JobStatus::Cancelled {
        (s, Seq::empty())
    } else {
        let noted = ManagerView {
            registry: if is_fatal_text(payload.error) || is_fatal_text(payload.stderr) {
                registry_without(s.registry, id)
            } else {
                registry_with_remnant(s.registry, id, payload.error, payload.stderr)
            },
            dirty: true,
            ..s
        };
        (
            if has_job(s.jobs, id) {
                let job = s.jobs[job_index(s.jobs, id)];
                with_job(
                    noted,
                    id,
                    JobView {
                        status: JobStatus::Error,
                        error: Some(payload.error),
                        stderr: Some(payload.stderr),
                        logs: Some(payload.logs),
                        exit_code: payload.exit_code,
                        sequence_id: next_sequence(job.sequence_id),
                        ..job
                    },
                )
            } else {
                noted
            },
            seq![EffectView::EmitError(payload)],
        )
    }
}

/// What the table says of a job whose file could not be moved because the
/// destination was there already.
pub open spec fn conflict_text() -> Seq<char> {
    "Destination file already exists"@
}

/// The report that the finished file of a job could not be moved because
/// the destination is there already. It is dropped for a cancelled job.
/// Otherwise a known job counts as failed under a new sequence id, its
/// declaration stays in the registry with the path of the staged file
/// noted on it, and the conflict is reported.
pub open spec fn after_conflict(
    s: ManagerView,
    id: JobId,
    temp_path: Seq<char>,
    output_path: Seq<char>,
) -> (ManagerView, Seq<EffectView>) {
    if has_job(s.jobs, id) && s.jobs[job_index(s.jobs, id)].status == JobStatus::Cancelled {
        (s, Seq::empty())
    } else {
        let noted = ManagerView {
            registry: registry_with_remnant(s.registry, id, conflict_text(), temp_path),
            dirty: true,
            ..s
        };
        (
            if has_job(s.jobs, id) {
                let job = s.jobs[job_index(s.jobs, id)];
                with_job(
                    noted,
                    id,
                    JobView {
                        status: JobStatus::Error,
                        error: Some(conflict_text()),
                        sequence_id: next_sequence(job.sequence_id),
                        ..job
                    },
                )
            } else {
                noted
            },
            seq![EffectView::EmitConflict { job_id: id, temp_path, output_path }],
        )
    }
}

/// Whether nothing is queued and nothing is persisted, so that the stage
/// directories can go.
pub open spec fn is_idle(s: ManagerView) -> bool {
    s.queue.len() == 0 && s.registry.len() == 0
}

/// The request to empty the stage directories, where nothing is queued or persisted.
pub open spec fn clean_if_idle(s: ManagerView) -> Seq<EffectView> {
    if is_idle(s) {
        seq![EffectView::CleanTemp]
    } else {
        Seq::empty()
    }
}

/// The counters after one worker has finished.
pub open spec fn released(s: ManagerView) -> ManagerView {
    ManagerView {
        active_process_instances: if s.active_process_instances > 0 {
            (s.active_process_instances - 1) as u32
        } else {
            0
        },
        completed_session_count: if s.active_process_instances > 0 && s.completed_session_count
            < u32::MAX {
            (s.completed_session_count + 1) as u32
        } else {
            s.completed_session_count
        },
        active_network_jobs: if s.active_network_jobs > 0 {
            (s.active_network_jobs - 1) as u32
        } else {
            0
        },
        ..s
    }
}

/// The report that a worker is gone. Both counters go down by one, not
/// below zero. Where no process is left, the user is told how many workers
/// finished since the last time, and the stage directories go if nothing
/// is queued or persisted. Then workers are started while slots are free.
pub open spec fn after_finished(s: ManagerView, limits: Limits) -> (ManagerView, Seq<EffectView>) {
    let r = released(s);
    if r.active_process_instances == 0 {
        let told = ManagerView { completed_session_count: 0, ..r };
        (
            dispatch(told, limits).0,
            (if r.completed_session_count > 0 {
                seq![EffectView::Notify(r.completed_session_count)]
            } else {
                Seq::empty()
            }) + clean_if_idle(r) + dispatch(told, limits).1,
        )
    } else {
        dispatch(r, limits)
    }
}

/// Whether a declaration read back from disk carries a failure.
pub open spec fn has_failed(q: QueuedJobView) -> bool {
    q.status == Some("error"@)
}

/// The state in which a declaration read back from disk enters the table.
pub open spec fn resumed_job(q: QueuedJobView) -> JobView {
    if has_failed(q) {
        JobView { status: JobStatus::Error, error: q.error, stderr: q.stderr, ..admitted_job(q) }
    } else {
        admitted_job(q)
    }
}

/// The state after a declaration read back from disk was taken up: it
/// enters the table and the registry, and the queue unless it carries a
/// failure. A declaration whose job is in the table already changes nothing.
pub open spec fn taken_up(t: ManagerView, q: QueuedJobView) -> ManagerView {
    if has_job(t.jobs, q.id) {
        t
    } else {
        ManagerView {
            jobs: t.jobs.push(resumed_job(q)),
            registry: registry_put(t.registry, q),
            queue: if has_failed(q) {
                t.queue
            } else {
                t.queue.push(q)
            },
            ..t
        }
    }
}

/// Takes up the declarations that are not in the table yet, in order.
/// Gives the next state and the declarations taken up.
pub open spec fn resume_all(s: ManagerView, jobs: Seq<QueuedJobView>) -> (
    ManagerView,
    Seq<QueuedJobView>,
)
    decreases jobs.len(),
{
    if jobs.len() == 0 {
        (s, Seq::empty())
    } else {
        let (t, taken) = resume_all(s, jobs.drop_last());
        let q = jobs.last();
        (
            taken_up(t, q),
            if has_job(t.jobs, q.id) {
                taken
            } else {
                taken.push(q)
            },
        )
    }
}

/// A request to resume with the declarations read back from disk.
pub open spec fn after_resume(s: ManagerView, jobs: Seq<QueuedJobView>, limits: Limits) -> (
    ManagerView,
    Seq<EffectView>,
) {
    let (t, taken) = resume_all(s, jobs);
    (dispatch(t, limits).0, dispatch(t, limits).1 + seq![EffectView::Resumed(taken)])
}

/// What one message does to the state, and what it asks of the caller.
pub open spec fn step(s: ManagerView, msg: JobMessageView, limits: Limits) -> (
    ManagerView,
    Seq<EffectView>,
) {
    match msg {
        JobMessageView::AddJob { job } => after_add(s, job, limits),
        JobMessageView::CancelJob { id } => after_cancel(s, id),
        JobMessageView::UpdateProgress { id, percentage, speed, eta, filename, phase } => (
            after_progress(s, id, percentage, speed, eta, filename, phase),
            Seq::empty(),
        ),
        JobMessageView::ProcessStarted { id, pid } => after_started(s, id, pid),
        JobMessageView::JobCompleted { id, output_path } => after_completed(s, id, output_path),
        JobMessageView::JobError { id, payload } => after_error(s, id, payload),
        JobMessageView::FileConflict { id, temp_path, output_path } => after_conflict(
            s,
            id,
            temp_path,
            output_path,
        ),
        JobMessageView::WorkerFinished => after_finished(s, limits),
        JobMessageView::ResumePending { jobs } => after_resume(s, jobs, limits),
        JobMessageView::ClearPending => (
            s,
            seq![EffectView::ClearPersistence] + clean_if_idle(s),
        ),
    }
}

/// The state of a manager that has seen nothing yet.
pub open spec fn empty_manager() -> ManagerView {
    ManagerView {
        jobs: Seq::empty(),
        queue: Seq::empty(),
        registry: Seq::empty(),
        dirty: false,
        active_network_jobs: 0,
        active_process_instances: 0,
        completed_session_count: 0,
        pending_updates: Seq::empty(),
    }
}


proof fn lemma_job_index(jobs: Seq<JobView>, id: JobId, k: int)
    requires
        0 <= k <= jobs.len(),
        forall|j: int| 0 <= j < k ==> (#[trigger] jobs[j]).id != id,
        k < jobs.len() ==> jobs[k].id == id,
    ensures
        job_index(jobs, id) == k,
    decreases k,
{
    if k > 0 {
        let t = jobs.drop_first();
        assert forall|j: int| 0 <= j < k - 1 implies (#[trigger] t[j]).id != id by {
            assert(t[j] == jobs[j + 1]);
        }
        lemma_job_index(t, id, k - 1);
    }
}

proof fn lemma_entry_index(entries: Seq<QueuedJobView>, id: JobId, k: int)
    requires
        0 <= k <= entries.len(),
        forall|j: int| 0 <= j < k ==> (#[trigger] entries[j]).id != id,
        k < entries.len() ==> entries[k].id == id,
    ensures
        entry_index(entries, id) == k,
    decreases k,
{
    if k > 0 {
        let t = entries.drop_first();
        assert forall|j: int| 0 <= j < k - 1 implies (#[trigger] t[j]).id != id by {
            assert(t[j] == entries[j + 1]);
        }
        lemma_entry_index(t, id, k - 1);
    }
}

proof fn lemma_update_index(updates: Seq<DownloadProgressPayloadView>, id: JobId, k: int)
    requires
        0 <= k <= updates.len(),
        forall|j: int| 0 <= j < k ==> (#[trigger] updates[j]).job_id != id,
        k < updates.len() ==> updates[k].job_id == id,
    ensures
        update_index(updates, id) == k,
    decreases k,
{
    if k > 0 {
        let t = updates.drop_first();
        assert forall|j: int| 0 <= j < k - 1 implies (#[trigger] t[j]).job_id != id by {
            assert(t[j] == updates[j + 1]);
        }
        lemma_update_index(t, id, k - 1);
    }
}

fn find_job(jobs: &Vec<Job>, id: JobId) -> (k: usize)
    ensures
        k == job_index(job_views(jobs@), id),
        k <= jobs.len(),
{
    let mut k: usize = 0;
    while k < jobs.len() && jobs[k].id != id
        invariant
            k <= jobs.len(),
            forall|j: int| 0 <= j < k ==> (#[trigger] job_views(jobs@)[j]).id != id,
        decreases jobs.len() - k,
    {
        k = k + 1;
    }
    proof {
        lemma_job_index(job_views(jobs@), id, k as int);
    }
    k
}

fn find_entry(entries: &Vec<QueuedJob>, id: JobId) -> (k: usize)
    ensures
        k == entry_index(queued_views(entries@), id),
        k <= entries.len(),
{
    let mut k: usize = 0;
    while k < entries.len() && entries[k].id != id
        invariant
            k <= entries.len(),
            forall|j: int| 0 <= j < k ==> (#[trigger] queued_views(entries@)[j]).id != id,
        decreases entries.len() - k,
    {
        k = k + 1;
    }
    proof {
        lemma_entry_index(queued_views(entries@), id, k as int);
    }
    k
}

fn find_update(updates: &Vec<DownloadProgressPayload>, id: JobId) -> (k: usize)
    ensures
        k == update_index(progress_views(updates@), id),
        k <= updates.len(),
{
    let mut k: usize = 0;
    while k < updates.len() && updates[k].job_id != id
        invariant
            k <= updates.len(),
            forall|j: int| 0 <= j < k ==> (#[trigger] progress_views(updates@)[j]).job_id != id,
        decreases updates.len() - k,
    {
        k = k + 1;
    }
    proof {
        lemma_update_index(progress_views(updates@), id, k as int);
    }
    k
}

fn bump(seq: u64) -> (next: u64)
    ensures
        next == next_sequence(seq),
{
    if seq < u64::MAX {
        seq + 1
    } else {
        seq
    }
}

/// Whether the text of an error says that a retry is pointless.
pub fn is_fatal_error(msg: &str) -> (fatal: bool)
    ensures
        fatal == is_fatal_text(msg@),
{
    let chars = chars_of(msg);
    let lower = to_lower(chars.as_slice());
    let m = lower.as_slice();
    let unavailable = chars_of("video unavailable");
    let removed = chars_of("video has been removed");
    let fragment = chars_of("fragment");
    let not_received = chars_of("not received");
    let not_found = chars_of("http error 404");
    contains(m, unavailable.as_slice()) || contains(m, removed.as_slice()) || (contains(
        m,
        fragment.as_slice(),
    ) && contains(m, not_received.as_slice())) || contains(m, not_found.as_slice())
}

/// The job manager.
#[derive(Debug)]
pub struct JobManager {
    jobs: Vec<Job>,
    queue: VecDeque<QueuedJob>,
    registry: Vec<QueuedJob>,
    dirty: bool,
    active_network_jobs: u32,
    active_process_instances: u32,
    completed_session_count: u32,
    pending_updates: Vec<DownloadProgressPayload>,
}

impl View for JobManager {
    type V = ManagerView;

    closed spec fn view(&self) -> ManagerView {
        ManagerView {
            jobs: job_views(self.jobs@),
            queue: queued_views(self.queue@),
            registry: queued_views(self.registry@),
            dirty: self.dirty,
            active_network_jobs: self.active_network_jobs,
            active_process_instances: self.active_process_instances,
            completed_session_count: self.completed_session_count,
            pending_updates: progress_views(self.pending_updates@),
        }
    }
}

impl JobManager {
    /// A manager that has seen nothing yet.
    pub fn new() -> (m: Self)
        ensures
            m@ == empty_manager(),
            crate::invariants::well_formed(m@),
    {
        let m = JobManager {
            jobs: Vec::new(),
            queue: VecDeque::new(),
            registry: Vec::new(),
            dirty: false,
            active_network_jobs: 0,
            active_process_instances: 0,
            completed_session_count: 0,
            pending_updates: Vec::new(),
        };
        assert(m@.jobs =~= Seq::empty());
        assert(m@.queue =~= Seq::empty());
        assert(m@.registry =~= Seq::empty());
        assert(m@.pending_updates =~= Seq::empty());
        m
    }

    fn job_is_cancelled(&self, id: JobId) -> (r: bool)
        ensures
            r == (has_job(self@.jobs, id) && self@.jobs[job_index(self@.jobs, id)].status
                == JobStatus::Cancelled),
    {
        let i = find_job(&self.jobs, id);
        i < self.jobs.len() && self.jobs[i].status == JobStatus::Cancelled
    }

    fn set_job(&mut self, i: usize, job: Job)
        requires
            i < old(self)@.jobs.len(),
        ensures
            final(self)@ == (ManagerView {
                jobs: old(self)@.jobs.update(i as int, job@),
                ..old(self)@
            }),
    {
        self.jobs.set(i, job);
        assert(job_views(self.jobs@) =~= job_views(old(self).jobs@).update(i as int, job@));
    }

    fn forget(&mut self, id: JobId)
        ensures
            final(self)@ == (ManagerView {
                registry: registry_without(old(self)@.registry, id),
                dirty: true,
                ..old(self)@
            }),
    {
        let i = find_entry(&self.registry, id);
        if i < self.registry.len() {
            let _ = self.registry.remove(i);
            assert(queued_views(self.registry@) =~= queued_views(old(self).registry@).remove(
                i as int,
            ));
        }
        self.dirty = true;
    }

    fn note_remnant(&mut self, id: JobId, error: &str, stderr: &str)
        ensures
            final(self)@ == (ManagerView {
                registry: registry_with_remnant(old(self)@.registry, id, error@, stderr@),
                dirty: true,
                ..old(self)@
            }),
    {
        let i = find_entry(&self.registry, id);
        if i < self.registry.len() {
            let mut entry = self.registry[i].clone();
            entry.status = Some("error".to_owned());
            entry.error = Some(error.to_owned());
            entry.stderr = Some(stderr.to_owned());
            let ghost put = entry@;
            self.registry.set(i, entry);
            assert(queued_views(self.registry@) =~= queued_views(old(self).registry@).update(
                i as int,
                put,
            ));
        }
        self.dirty = true;
    }

    fn register(&mut self, job: QueuedJob)
        ensures
            final(self)@ == (ManagerView {
                registry: registry_put(old(self)@.registry, job@),
                ..old(self)@
            }),
    {
        let i = find_entry(&self.registry, job.id);
        if i < self.registry.len() {
            self.registry.set(i, job);
            assert(queued_views(self.registry@) =~= queued_views(old(self).registry@).update(
                i as int,
                job@,
            ));
        } else {
            self.registry.push(job);
            assert(queued_views(self.registry@) =~= queued_views(old(self).registry@).push(job@));
        }
    }

    fn url_active(&self, url: &str) -> (r: bool)
        ensures
            r == url_is_active(self@.jobs, url@),
    {
        let mut i: usize = 0;
        while i < self.jobs.len()
            invariant
                i <= self.jobs.len(),
                forall|j: int|
                    0 <= j < i ==> !(#[trigger] self@.jobs[j].url == url@ && is_active(
                        self@.jobs[j].status,
                    )),
            decreases self.jobs.len() - i,
        {
            let job = &self.jobs[i];
            if same_text(job.url.as_str(), url) && (job.status == JobStatus::Pending || job.status
                == JobStatus::Downloading) {
                assert(self@.jobs[i as int].url == url@ && is_active(self@.jobs[i as int].status));
                return true;
            }
            i = i + 1;
        }
        false
    }

    /// Hands queued jobs to workers while slots are free, adding to `effects`.
    fn start_workers(&mut self, limits: Limits, effects: &mut Vec<Effect>)
        ensures
            final(self)@ == dispatch(old(self)@, limits).0,
            effect_views(final(effects)@) == effect_views(old(effects)@) + dispatch(
                old(self)@,
                limits,
            ).1,
    {
        assert(effect_views(effects@) =~= effect_views(old(effects)@) + Seq::empty());
        while self.active_network_jobs < limits.max_concurrent_downloads
            && self.active_process_instances < limits.max_total_instances && self.queue.len() > 0
            invariant
                dispatch(old(self)@, limits).0 == dispatch(self@, limits).0,
                effect_views(old(effects)@) + dispatch(old(self)@, limits).1 == effect_views(
                    effects@,
                ) + dispatch(self@, limits).1,
            decreases self.queue.len(),
        {
            let ghost before = self@;
            let ghost sent = effect_views(effects@);
            let next = self.queue.pop_front().unwrap();
            assert(queued_views(self.queue@) =~= before.queue.drop_first());
            assert(next@ == before.queue.first());
            if self.job_is_cancelled(next.id) {
            } else {
                self.active_network_jobs = self.active_network_jobs + 1;
                self.active_process_instances = self.active_process_instances + 1;
                effects.push(Effect::SpawnWorker(next));
                assert(effect_views(effects@) =~= sent + seq![EffectView::SpawnWorker(next@)]);
                assert(sent + dispatch(before, limits).1 =~= effect_views(effects@) + dispatch(
                    self@,
                    limits,
                ).1);
            }
        }
        assert(dispatch(self@, limits).1 =~= Seq::empty());
        assert(effect_views(effects@) + Seq::empty() =~= effect_views(effects@));
    }

    fn add_job(&mut self, job: QueuedJob, limits: Limits) -> (effects: Vec<Effect>)
        ensures
            (final(self)@, effect_views(effects@)) == after_add(old(self)@, job@, limits),
    {
        let mut effects: Vec<Effect> = Vec::new();
        assert(effect_views(effects@) =~= Seq::empty());
        if find_job(&self.jobs, job.id) < self.jobs.len() {
            effects.push(Effect::Reply(AddJobReply::AlreadyExists));
            assert(effect_views(effects@) =~= seq![EffectView::Reply(AddJobReply::AlreadyExists)]);
        } else if self.url_active(job.url.as_str()) {
            effects.push(Effect::Reply(AddJobReply::DuplicateUrl));
            assert(effect_views(effects@) =~= seq![EffectView::Reply(AddJobReply::DuplicateUrl)]);
        } else {
            let live = Job::admitted(&job);
            self.jobs.push(live);
            assert(job_views(self.jobs@) =~= old(self)@.jobs.push(admitted_job(job@)));
            self.register(job.clone());
            self.queue.push_back(job);
            assert(queued_views(self.queue@) =~= old(self)@.queue.push(job@));
            self.dirty = true;
            let ghost admitted = self@;
            self.start_workers(limits, &mut effects);
            let ghost spawned = effect_views(effects@);
            effects.push(Effect::Reply(AddJobReply::Accepted));
            assert(effect_views(effects@) =~= spawned + seq![
                EffectView::Reply(AddJobReply::Accepted),
            ]);
            assert(spawned =~= dispatch(admitted, limits).1);
        }
        effects
    }

    fn cancel_job(&mut self, id: JobId) -> (effects: Vec<Effect>)
        ensures
            (final(self)@, effect_views(effects@)) == after_cancel(old(self)@, id),
    {
        let mut effects: Vec<Effect> = Vec::new();
        let i = find_job(&self.jobs, id);
        self.forget(id);
        if i < self.jobs.len() {
            let mut job = self.jobs[i].clone();
            match job.pid {
                Some(pid) => {
                    effects.push(Effect::Kill(pid));
                },
                None => {},
            }
            job.status = JobStatus::Cancelled;
            job.sequence_id = bump(job.sequence_id);
            self.set_job(i, job);
        }
        effects.push(Effect::EmitCancelled(id));
        assert(effect_views(effects@) =~= after_cancel(old(self)@, id).1);
        effects
    }

    fn process_started(&mut self, id: JobId, pid: u32) -> (effects: Vec<Effect>)
        ensures
            (final(self)@, effect_views(effects@)) == after_started(old(self)@, id, pid),
    {
        let mut effects: Vec<Effect> = Vec::new();
        let i = find_job(&self.jobs, id);
        if i < self.jobs.len() {
            if self.jobs[i].status == JobStatus::Cancelled {
                effects.push(Effect::Kill(pid));
            } else {
                let mut job = self.jobs[i].clone();
                job.pid = Some(pid);
                job.status = JobStatus::Downloading;
                job.sequence_id = bump(job.sequence_id);
                self.set_job(i, job);
            }
        }
        assert(effect_views(effects@) =~= after_started(old(self)@, id, pid).1);
        effects
    }

    fn update_progress(
        &mut self,
        id: JobId,
        percentage: Percent,
        speed: String,
        eta: String,
        filename: Option<String>,
        phase: String,
    )
        ensures
            final(self)@ == after_progress(
                old(self)@,
                id,
                percentage,
                speed@,
                eta@,
                opt_view(filename),
                phase@,
            ),
    {
        let i = find_job(&self.jobs, id);
        if i >= self.jobs.len() || self.jobs[i].status == JobStatus::Cancelled {
            return ;
        }
        let mut job = self.jobs[i].clone();
        job.progress = percentage;
        job.speed = Some(speed.clone());
        job.eta = Some(eta.clone());
        if filename.is_some() {
            job.filename = clone_opt(&filename);
        }
        job.phase = Some(phase.clone());
        job.sequence_id = bump(job.sequence_id);
        let payload = DownloadProgressPayload {
            job_id: id,
            percentage,
            sequence_id: job.sequence_id,
            speed,
            eta,
            filename,
            phase: Some(phase),
        };
        self.set_job(i, job);
        let k = find_update(&self.pending_updates, id);
        let ghost put = payload@;
        let ghost updates = progress_views(self.pending_updates@);
        if k < self.pending_updates.len() {
            self.pending_updates.set(k, payload);
            assert(progress_views(self.pending_updates@) =~= updates.update(k as int, put));
        } else {
            self.pending_updates.push(payload);
            assert(progress_views(self.pending_updates@) =~= updates.push(put));
        }
    }

    fn job_completed(&mut self, id: JobId, output_path: String) -> (effects: Vec<Effect>)
        ensures
            (final(self)@, effect_views(effects@)) == after_completed(old(self)@, id, output_path@),
    {
        let mut effects: Vec<Effect> = Vec::new();
        if self.job_is_cancelled(id) {
            assert(effect_views(effects@) =~= Seq::empty());
            return effects;
        }
        let i = find_job(&self.jobs, id);
        self.forget(id);
        if i < self.jobs.len() {
            let mut job = self.jobs[i].clone();
            job.status = JobStatus::Completed;
            job.progress = PERCENT_FULL;
            job.output_path = Some(output_path.clone());
            job.phase = Some("Done".to_owned());
            job.sequence_id = bump(job.sequence_id);
            self.set_job(i, job);
        }
        effects.push(Effect::EmitComplete { job_id: id, output_path });
        assert(effect_views(effects@) =~= after_completed(old(self)@, id, output_path@).1);
        effects
    }

    fn job_error(&mut self, id: JobId, payload: DownloadErrorPayload) -> (effects: Vec<Effect>)
        ensures
            (final(self)@, effect_views(effects@)) == after_error(old(self)@, id, payload@),
    {
        let mut effects: Vec<Effect> = Vec::new();
        if self.job_is_cancelled(id) {
            assert(effect_views(effects@) =~= Seq::empty());
            return effects;
        }
        let i = find_job(&self.jobs, id);
        if is_fatal_error(payload.error.as_str()) || is_fatal_error(payload.stderr.as_str()) {
            self.forget(id);
        } else {
            self.note_remnant(id, payload.error.as_str(), payload.stderr.as_str());
        }
        if i < self.jobs.len() {
            let mut job = self.jobs[i].clone();
            job.status = JobStatus::Error;
            job.error = Some(payload.error.clone());
            job.stderr = Some(payload.stderr.clone());
            job.logs = Some(payload.logs.clone());
            job.exit_code = payload.exit_code;
            job.sequence_id = bump(job.sequence_id);
            self.set_job(i, job);
        }
        effects.push(Effect::EmitError(payload));
        assert(effect_views(effects@) =~= after_error(old(self)@, id, payload@).1);
        effects
    }

    fn file_conflict(&mut self, id: JobId, temp_path: String, output_path: String) -> (effects:
        Vec<Effect>)
        ensures
            (final(self)@, effect_views(effects@)) == after_conflict(
                old(self)@,
                id,
                temp_path@,
                output_path@,
            ),
    {
        let mut effects: Vec<Effect> = Vec::new();
        if self.job_is_cancelled(id) {
            assert(effect_views(effects@) =~= Seq::empty());
            return effects;
        }
        let i = find_job(&self.jobs, id);
        self.note_remnant(id, "Destination file already exists", temp_path.as_str());
        if i < self.jobs.len() {
            let mut job = self.jobs[i].clone();
            job.status = JobStatus::Error;
            job.error = Some("Destination file already exists".to_owned());
            job.sequence_id = bump(job.sequence_id);
            self.set_job(i, job);
        }
        effects.push(Effect::EmitConflict { job_id: id, temp_path, output_path });
        assert(effect_views(effects@) =~= after_conflict(
            old(self)@,
            id,
            temp_path@,
            output_path@,
        ).1);
        effects
    }

    fn push_clean_if_idle(&self, effects: &mut Vec<Effect>)
        ensures
            effect_views(final(effects)@) == effect_views(old(effects)@) + clean_if_idle(self@),
    {
        if self.queue.len() == 0 && self.registry.len() == 0 {
            effects.push(Effect::CleanTemp);
            assert(effect_views(effects@) =~= effect_views(old(effects)@) + seq![
                EffectView::CleanTemp,
            ]);
        } else {
            assert(effect_views(effects@) =~= effect_views(old(effects)@) + Seq::empty());
        }
    }

    fn worker_finished(&mut self, limits: Limits) -> (effects: Vec<Effect>)
        ensures
            (final(self)@, effect_views(effects@)) == after_finished(old(self)@, limits),
    {
        let mut effects: Vec<Effect> = Vec::new();
        assert(effect_views(effects@) =~= Seq::empty());
        if self.active_process_instances > 0 {
            self.active_process_instances = self.active_process_instances - 1;
            if self.completed_session_count < u32::MAX {
                self.completed_session_count = self.completed_session_count + 1;
            }
        }
        if self.active_network_jobs > 0 {
            self.active_network_jobs = self.active_network_jobs - 1;
        }
        assert(self@ == released(old(self)@));
        if self.active_process_instances == 0 {
            if self.completed_session_count > 0 {
                effects.push(Effect::Notify(self.completed_session_count));
                assert(effect_views(effects@) =~= seq![
                    EffectView::Notify(self@.completed_session_count),
                ]);
            }
            self.push_clean_if_idle(&mut effects);
            self.completed_session_count = 0;
        }
        let ghost sent = effect_views(effects@);
        self.start_workers(limits, &mut effects);
        assert(effect_views(effects@) =~= after_finished(old(self)@, limits).1);
        effects
    }

    fn resume_one(&mut self, q: &QueuedJob) -> (taken: bool)
        ensures
            taken == !has_job(old(self)@.jobs, q@.id),
            final(self)@ == taken_up(old(self)@, q@),
    {
        if find_job(&self.jobs, q.id) < self.jobs.len() {
            return false;
        }
        let mut live = Job::admitted(q);
        let failed = match &q.status {
            Some(st) => same_text(st.as_str(), "error"),
            None => false,
        };
        if failed {
            live.status = JobStatus::Error;
            live.error = clone_opt(&q.error);
            live.stderr = clone_opt(&q.stderr);
        }
        self.jobs.push(live);
        assert(job_views(self.jobs@) =~= old(self)@.jobs.push(resumed_job(q@)));
        self.register(q.clone());
        if !failed {
            self.queue.push_back(q.clone());
            assert(queued_views(self.queue@) =~= old(self)@.queue.push(q@));
        }
        true
    }

    fn resume_pending(&mut self, jobs: Vec<QueuedJob>, limits: Limits) -> (effects: Vec<Effect>)
        ensures
            (final(self)@, effect_views(effects@)) == after_resume(
                old(self)@,
                queued_views(jobs@),
                limits,
            ),
    {
        let mut taken: Vec<QueuedJob> = Vec::new();
        let mut i: usize = 0;
        assert(queued_views(taken@) =~= Seq::empty());
        while i < jobs.len()
            invariant
                i <= jobs.len(),
                (self@, queued_views(taken@)) == resume_all(
                    old(self)@,
                    queued_views(jobs@).take(i as int),
                ),
            decreases jobs.len() - i,
        {
            let ghost sofar = queued_views(jobs@).take(i as int);
            let ghost next = queued_views(jobs@).take(i + 1);
            let ghost before = self@;
            proof {
                assert(next.drop_last() =~= sofar);
                assert(next.last() == jobs@[i as int]@);
            }
            if self.resume_one(&jobs[i]) {
                let ghost sent = queued_views(taken@);
                taken.push(jobs[i].clone());
                assert(queued_views(taken@) =~= sent.push(jobs@[i as int]@));
            }
            i = i + 1;
        }
        assert(queued_views(jobs@).take(jobs.len() as int) =~= queued_views(jobs@));
        let mut effects: Vec<Effect> = Vec::new();
        assert(effect_views(effects@) =~= Seq::empty());
        self.start_workers(limits, &mut effects);
        let ghost spawned = effect_views(effects@);
        let ghost resumed = queued_views(taken@);
        effects.push(Effect::Resumed(taken));
        assert(effect_views(effects@) =~= spawned + seq![EffectView::Resumed(resumed)]);
        effects
    }

    fn clear_pending(&self) -> (effects: Vec<Effect>)
        ensures
            effect_views(effects@) == seq![EffectView::ClearPersistence] + clean_if_idle(self@),
    {
        let mut effects: Vec<Effect> = Vec::new();
        effects.push(Effect::ClearPersistence);
        assert(effect_views(effects@) =~= seq![EffectView::ClearPersistence]);
        self.push_clean_if_idle(&mut effects);
        effects
    }

    /// Hands queued jobs to workers while slots are free under `limits`. A
    /// queued job that was cancelled meanwhile is dropped. A counter that is
    /// within its limit stays within it, and one that rises does not rise
    /// past its limit: a worker is started only into a free slot.
    pub fn process_queue(&mut self, limits: Limits) -> (effects: Vec<Effect>)
        ensures
            (final(self)@, effect_views(effects@)) == dispatch(old(self)@, limits),
            crate::invariants::within_limits(old(self)@, limits)
                ==> crate::invariants::within_limits(final(self)@, limits),
            crate::invariants::counters_ordered(old(self)@)
                ==> crate::invariants::counters_ordered(final(self)@),
            crate::invariants::well_formed(old(self)@) ==> crate::invariants::well_formed(
                final(self)@,
            ),
            final(self)@.active_network_jobs > old(self)@.active_network_jobs
                ==> final(self)@.active_network_jobs <= limits.max_concurrent_downloads,
            final(self)@.active_process_instances > old(self)@.active_process_instances
                ==> final(self)@.active_process_instances <= limits.max_total_instances,
    {
        proof {
            crate::invariants::lemma_dispatch(self@, limits);
        }
        let mut effects: Vec<Effect> = Vec::new();
        assert(effect_views(effects@) =~= Seq::empty());
        self.start_workers(limits, &mut effects);
        assert(effect_views(effects@) =~= dispatch(old(self)@, limits).1);
        effects
    }

    /// Adds a job, and hands back the answer apart from what else is to be
    /// done.
    pub fn try_add(&mut self, job: QueuedJob, limits: Limits) -> (r: (AddJobReply, Vec<Effect>))
        ensures
            final(self)@ == after_add(old(self)@, job@, limits).0,
            effect_views(r.1@).push(EffectView::Reply(r.0)) == after_add(
                old(self)@,
                job@,
                limits,
            ).1,
            crate::invariants::well_formed(old(self)@) ==> crate::invariants::well_formed(
                final(self)@,
            ),
            crate::invariants::within_limits(old(self)@, limits)
                ==> crate::invariants::within_limits(final(self)@, limits),
    {
        proof {
            crate::invariants::lemma_step_well_formed(
                self@,
                JobMessageView::AddJob { job: job@ },
                limits,
            );
        }
        let mut effects = self.add_job(job, limits);
        let ghost all = effect_views(effects@);
        match effects.pop() {
            Some(Effect::Reply(reply)) => {
                assert(effect_views(effects@).push(EffectView::Reply(reply)) =~= all);
                (reply, effects)
            },
            _ => {
                assert(all[all.len() - 1] is Reply);
                assert(false);
                (AddJobReply::AlreadyExists, effects)
            },
        }
    }

    /// Takes in one message: changes the state as [`step`] says, and hands
    /// back what is to be done, in order.
    pub fn handle_message(&mut self, msg: JobMessage, limits: Limits) -> (effects: Vec<Effect>)
        ensures
            (final(self)@, effect_views(effects@)) == step(old(self)@, msg@, limits),
            crate::invariants::well_formed(old(self)@) ==> crate::invariants::well_formed(
                final(self)@,
            ),
            crate::invariants::within_limits(old(self)@, limits)
                ==> crate::invariants::within_limits(final(self)@, limits),
    {
        proof {
            crate::invariants::lemma_step_well_formed(self@, msg@, limits);
        }
        match msg {
            JobMessage::AddJob { job } => self.add_job(job, limits),
            JobMessage::CancelJob { id } => self.cancel_job(id),
            JobMessage::UpdateProgress { id, percentage, speed, eta, filename, phase } => {
                self.update_progress(id, percentage, speed, eta, filename, phase);
                let effects: Vec<Effect> = Vec::new();
                assert(effect_views(effects@) =~= Seq::empty());
                effects
            },
            JobMessage::ProcessStarted { id, pid } => self.process_started(id, pid),
            JobMessage::JobCompleted { id, output_path } => self.job_completed(id, output_path),
            JobMessage::JobError { id, payload } => self.job_error(id, payload),
            JobMessage::FileConflict { id, temp_path, output_path } => self.file_conflict(
                id,
                temp_path,
                output_path,
            ),
            JobMessage::WorkerFinished => self.worker_finished(limits),
            JobMessage::ResumePending { jobs } => self.resume_pending(jobs, limits),
            JobMessage::ClearPending => self.clear_pending(),
        }
    }
}


/// The kill requests that end every job with a known process, in the order
/// of the table.
pub open spec fn shutdown_kills(jobs: Seq<JobView>) -> Seq<EffectView>
    decreases jobs.len(),
{
    if jobs.len() == 0 {
        Seq::empty()
    } else {
        shutdown_kills(jobs.drop_last()) + (match jobs.last().pid {
            Some(pid) => seq![EffectView::Kill(pid)],
            None => Seq::empty(),
        })
    }
}

/// The sum of the progress of the active jobs.
pub open spec fn active_progress(jobs: Seq<JobView>) -> nat
    decreases jobs.len(),
{
    if jobs.len() == 0 {
        0
    } else {
        active_progress(jobs.drop_last()) + (if is_active(jobs.last().status) {
            jobs.last().progress as nat
        } else {
            0
        })
    }
}

/// The number of active jobs.
pub open spec fn active_count(jobs: Seq<JobView>) -> nat
    decreases jobs.len(),
{
    if jobs.len() == 0 {
        0
    } else {
        active_count(jobs.drop_last()) + (if is_active(jobs.last().status) {
            1nat
        } else {
            0
        })
    }
}

/// Whether a job of the table has failed.
pub open spec fn any_failed(jobs: Seq<JobView>) -> bool {
    exists|i: int| 0 <= i < jobs.len() && (#[trigger] jobs[i]).status == JobStatus::Error
}

/// What the taskbar shows: nothing while no job is active, else the mean
/// progress of the active jobs and whether any job has failed.
pub open spec fn overall_progress(jobs: Seq<JobView>) -> Option<(Percent, bool)> {
    if active_count(jobs) == 0 {
        None
    } else {
        Some(((active_progress(jobs) / active_count(jobs)) as Percent, any_failed(jobs)))
    }
}

proof fn lemma_active_progress_bound(jobs: Seq<JobView>)
    ensures
        active_progress(jobs) <= active_count(jobs) * u32::MAX,
        active_count(jobs) <= jobs.len(),
    decreases jobs.len(),
{
    if jobs.len() > 0 {
        lemma_active_progress_bound(jobs.drop_last());
        assert((active_count(jobs.drop_last()) + 1) * u32::MAX == active_count(jobs.drop_last())
            * u32::MAX + u32::MAX) by (nonlinear_arith);
    }
}

impl JobManager {
    /// Jobs that use the network now.
    pub fn active_network_jobs(&self) -> (n: u32)
        ensures
            n == self@.active_network_jobs,
    {
        self.active_network_jobs
    }

    /// Worker processes alive now.
    pub fn active_process_instances(&self) -> (n: u32)
        ensures
            n == self@.active_process_instances,
    {
        self.active_process_instances
    }

    /// Takes the pending payloads out, as one batch; `None` where nothing
    /// has changed since the last flush.
    pub fn flush_updates(&mut self) -> (batch: Option<crate::models::BatchProgressPayload>)
        ensures
            final(self)@ == (ManagerView { pending_updates: Seq::empty(), ..old(self)@ }),
            batch.is_none() <==> old(self)@.pending_updates.len() == 0,
            batch.is_some() ==> progress_views(batch.unwrap().updates@)
                == old(self)@.pending_updates,
            crate::invariants::well_formed(old(self)@) ==> crate::invariants::well_formed(
                final(self)@,
            ),
    {
        if self.pending_updates.len() == 0 {
            assert(self@.pending_updates =~= Seq::empty());
            return None;
        }
        let mut updates: Vec<DownloadProgressPayload> = Vec::new();
        updates.append(&mut self.pending_updates);
        assert(updates@ =~= old(self).pending_updates@);
        assert(self@.pending_updates =~= Seq::empty());
        Some(crate::models::BatchProgressPayload { updates })
    }

    /// A copy of the job table, in the order in which the jobs came in.
    pub fn sync_state(&self) -> (jobs: Vec<Job>)
        ensures
            job_views(jobs@) == self@.jobs,
    {
        self.jobs.clone()
    }

    /// The registry as it is to be written out, where it has changed since
    /// it was last written.
    pub fn persistence_snapshot(&self) -> (snapshot: Option<Vec<QueuedJob>>)
        ensures
            snapshot.is_some() == self@.dirty,
            snapshot.is_some() ==> queued_views(snapshot.unwrap()@) == self@.registry,
    {
        if self.dirty {
            Some(self.registry.clone())
        } else {
            None
        }
    }

    /// Notes that the latest snapshot was handed on to be written.
    pub fn mark_persisted(&mut self)
        ensures
            final(self)@ == (ManagerView { dirty: false, ..old(self)@ }),
            crate::invariants::well_formed(old(self)@) ==> crate::invariants::well_formed(
                final(self)@,
            ),
    {
        self.dirty = false;
    }

    /// The kill requests with which a shutdown begins.
    pub fn begin_shutdown(&self) -> (effects: Vec<Effect>)
        ensures
            effect_views(effects@) == shutdown_kills(self@.jobs),
    {
        let mut effects: Vec<Effect> = Vec::new();
        let mut i: usize = 0;
        assert(effect_views(effects@) =~= Seq::empty());
        while i < self.jobs.len()
            invariant
                i <= self.jobs.len(),
                effect_views(effects@) == shutdown_kills(self@.jobs.take(i as int)),
            decreases self.jobs.len() - i,
        {
            let ghost sent = effect_views(effects@);
            proof {
                assert(self@.jobs.take(i + 1).drop_last() =~= self@.jobs.take(i as int));
                assert(self@.jobs.take(i + 1).last() == self@.jobs[i as int]);
            }
            match self.jobs[i].pid {
                Some(pid) => {
                    effects.push(Effect::Kill(pid));
                    assert(effect_views(effects@) =~= sent + seq![EffectView::Kill(pid)]);
                },
                None => {
                    assert(effect_views(effects@) =~= sent + Seq::empty());
                },
            }
            i = i + 1;
        }
        assert(self@.jobs.take(self.jobs.len() as int) =~= self@.jobs);
        effects
    }

    /// Whether every worker has finished, so that a shutdown can end.
    pub fn is_drained(&self) -> (r: bool)
        ensures
            r == (self@.active_process_instances == 0),
    {
        self.active_process_instances == 0
    }

    /// What ends a shutdown: the stage directories go where nothing is
    /// queued or persisted.
    pub fn finish_shutdown(&self) -> (effects: Vec<Effect>)
        ensures
            effect_views(effects@) == clean_if_idle(self@),
    {
        let mut effects: Vec<Effect> = Vec::new();
        assert(effect_views(effects@) =~= Seq::empty());
        self.push_clean_if_idle(&mut effects);
        assert(Seq::<EffectView>::empty() + clean_if_idle(self@) =~= clean_if_idle(self@));
        effects
    }

    /// What the taskbar shows.
    pub fn taskbar_progress(&self) -> (shown: Option<(Percent, bool)>)
        ensures
            shown == overall_progress(self@.jobs),
    {
        let mut sum: u128 = 0;
        let mut count: u128 = 0;
        let mut failed = false;
        let mut i: usize = 0;
        while i < self.jobs.len()
            invariant
                i <= self.jobs.len(),
                sum == active_progress(self@.jobs.take(i as int)),
                count == active_count(self@.jobs.take(i as int)),
                failed == any_failed(self@.jobs.take(i as int)),
            decreases self.jobs.len() - i,
        {
            let ghost head = self@.jobs.take(i as int);
            let ghost next = self@.jobs.take(i + 1);
            proof {
                assert(next.drop_last() =~= head);
                assert(next.last() == self@.jobs[i as int]);
                lemma_active_progress_bound(head);
                assert(active_count(head) * u32::MAX <= usize::MAX * u32::MAX)
                    by (nonlinear_arith)
                    requires
                        active_count(head) <= usize::MAX,
                ;
            }
            let job = &self.jobs[i];
            if job.status == JobStatus::Pending || job.status == JobStatus::Downloading {
                sum = sum + job.progress as u128;
                count = count + 1;
            }
            proof {
                if job.status == JobStatus::Error {
                    assert(next[i as int].status == JobStatus::Error);
                } else if failed {
                    let k = choose|k: int|
                        0 <= k < head.len() && (#[trigger] head[k]).status == JobStatus::Error;
                    assert(next[k] == head[k]);
                } else {
                    assert forall|k: int| 0 <= k < next.len() implies (#[trigger] next[k]).status
                        != JobStatus::Error by {
                        if k < i {
                            assert(head[k] == next[k]);
                        }
                    }
                }
            }
            if job.status == JobStatus::Error {
                failed = true;
            }
            i = i + 1;
        }
        assert(self@.jobs.take(self.jobs.len() as int) =~= self@.jobs);
        if count == 0 {
            None
        } else {
            proof {
                lemma_active_progress_bound(self@.jobs);
                assert(sum / count <= u32::MAX) by (nonlinear_arith)
                    requires
                        sum <= count * u32::MAX,
                        count > 0,
                ;
            }
            Some(((sum / count) as u32, failed))
        }
    }
}

} // verus!
