//! What holds of the job manager in every run: the concurrency bounds, the
//! growth of sequence ids, and that a cancelled job stays cancelled.

use vstd::prelude::*;
use crate::config::Limits;
use crate::manager::{
    after_progress, dispatch, empty_manager, has_capacity, has_job, job_index, next_sequence,
    released, resume_all, step, taken_up, update_index, updates_put, EffectView, ManagerView,
};
use crate::models::{DownloadProgressPayloadView, JobId, JobMessageView, JobStatus, JobView};

verus! {

/// No more jobs use the network, and no more worker processes live, than
/// the limits allow.
pub open spec fn within_limits(s: ManagerView, limits: Limits) -> bool {
    s.active_network_jobs <= limits.max_concurrent_downloads && s.active_process_instances
        <= limits.max_total_instances
}

/// Every job that uses the network is a worker process.
pub open spec fn counters_ordered(s: ManagerView) -> bool {
    s.active_process_instances >= s.active_network_jobs
}

/// How a job may differ between an earlier and a later state: it keeps its
/// identifier, its sequence id does not fall, a change shows in a greater
/// sequence id unless that has reached its largest value, and once it is
/// cancelled it stays so.
pub open spec fn job_follows(before: JobView, after: JobView) -> bool {
    &&& after.id == before.id
    &&& after.sequence_id >= before.sequence_id
    &&& (after == before || before.sequence_id == u64::MAX || after.sequence_id
        > before.sequence_id)
    &&& (before.status == JobStatus::Cancelled ==> after.status == JobStatus::Cancelled)
}

/// How the job table may differ between an earlier and a later state: no
/// job leaves, and each job of the earlier state is followed by the job at
/// the same place.
pub open spec fn table_follows(before: Seq<JobView>, after: Seq<JobView>) -> bool {
    before.len() <= after.len() && forall|i: int|
        0 <= i < before.len() ==> job_follows(#[trigger] before[i], after[i])
}

/// The state after a run of messages, each handled under the same limits.
pub open spec fn run(s: ManagerView, msgs: Seq<JobMessageView>, limits: Limits) -> ManagerView
    decreases msgs.len(),
{
    if msgs.len() == 0 {
        s
    } else {
        step(run(s, msgs.drop_last(), limits), msgs.last(), limits).0
    }
}

/// Where the first job with identifier `id` stands, if the table has one.
pub proof fn lemma_job_index_found(jobs: Seq<JobView>, id: JobId)
    ensures
        0 <= job_index(jobs, id) <= jobs.len(),
        has_job(jobs, id) ==> jobs[job_index(jobs, id)].id == id,
        forall|j: int| 0 <= j < job_index(jobs, id) ==> (#[trigger] jobs[j]).id != id,
    decreases jobs.len(),
{
    if jobs.len() == 0 || jobs.first().id == id {
    } else {
        let t = jobs.drop_first();
        lemma_job_index_found(t, id);
        assert forall|j: int| 0 <= j < job_index(jobs, id) implies (#[trigger] jobs[j]).id
            != id by {
            if j > 0 {
                assert(jobs[j] == t[j - 1]);
            }
        }
    }
}

/// Hands to workers change nothing but the queue and the two counters, and
/// keep the counters within the limits and in order.
pub proof fn lemma_dispatch(s: ManagerView, limits: Limits)
    ensures
        dispatch(s, limits).0.jobs == s.jobs,
        dispatch(s, limits).0.registry == s.registry,
        dispatch(s, limits).0.pending_updates == s.pending_updates,
        dispatch(s, limits).0.dirty == s.dirty,
        dispatch(s, limits).0.completed_session_count == s.completed_session_count,
        within_limits(s, limits) ==> within_limits(dispatch(s, limits).0, limits),
        counters_ordered(s) ==> counters_ordered(dispatch(s, limits).0),
        dispatch(s, limits).0.active_network_jobs >= s.active_network_jobs,
        dispatch(s, limits).0.active_network_jobs > s.active_network_jobs
            ==> dispatch(s, limits).0.active_network_jobs <= limits.max_concurrent_downloads,
        dispatch(s, limits).0.active_process_instances > s.active_process_instances
            ==> dispatch(s, limits).0.active_process_instances <= limits.max_total_instances,
    decreases s.queue.len(),
{
    if has_capacity(s, limits) && s.queue.len() > 0 {
        let next = s.queue.first();
        let rest = ManagerView { queue: s.queue.drop_first(), ..s };
        if has_job(s.jobs, next.id) && s.jobs[job_index(s.jobs, next.id)].status
            == JobStatus::Cancelled {
            lemma_dispatch(rest, limits);
        } else {
            let started = ManagerView {
                active_network_jobs: (s.active_network_jobs + 1) as u32,
                active_process_instances: (s.active_process_instances + 1) as u32,
                ..rest
            };
            lemma_dispatch(started, limits);
        }
    }
}

/// Whether an effect starts a worker for a job that is cancelled in `jobs`.
pub open spec fn starts_cancelled(effect: EffectView, jobs: Seq<JobView>) -> bool {
    match effect {
        EffectView::SpawnWorker(q) => has_job(jobs, q.id) && jobs[job_index(jobs, q.id)].status
            == JobStatus::Cancelled,
        _ => false,
    }
}

/// No worker is started for a job that was cancelled while it waited in
/// the queue.
pub proof fn cancelled_jobs_are_not_started(s: ManagerView, limits: Limits)
    ensures
        forall|k: int|
            0 <= k < dispatch(s, limits).1.len() ==> !starts_cancelled(
                #[trigger] dispatch(s, limits).1[k],
                s.jobs,
            ),
    decreases s.queue.len(),
{
    if has_capacity(s, limits) && s.queue.len() > 0 {
        let next = s.queue.first();
        let rest = ManagerView { queue: s.queue.drop_first(), ..s };
        lemma_job_index_found(s.jobs, next.id);
        if has_job(s.jobs, next.id) && s.jobs[job_index(s.jobs, next.id)].status
            == JobStatus::Cancelled {
            cancelled_jobs_are_not_started(rest, limits);
            let tail = dispatch(rest, limits).1;
            let all = dispatch(s, limits).1;
            assert forall|k: int| 0 <= k < all.len() implies !starts_cancelled(
                #[trigger] all[k],
                s.jobs,
            ) by {
                assert(all[k] == tail[k]);
            }
        } else {
            let started = ManagerView {
                active_network_jobs: (s.active_network_jobs + 1) as u32,
                active_process_instances: (s.active_process_instances + 1) as u32,
                ..rest
            };
            cancelled_jobs_are_not_started(started, limits);
            let tail = dispatch(started, limits).1;
            let all = dispatch(s, limits).1;
            assert forall|k: int| 0 <= k < all.len() implies !starts_cancelled(
                #[trigger] all[k],
                s.jobs,
            ) by {
                if k > 0 {
                    assert(all[k] == tail[k - 1]);
                }
            }
        }
    }
}

/// Taking up declarations from disk only adds jobs at the end of the table
/// and leaves the counters as they are.
pub proof fn lemma_resume_all(s: ManagerView, jobs: Seq<crate::models::QueuedJobView>)
    ensures
        table_follows(s.jobs, resume_all(s, jobs).0.jobs),
        forall|i: int| 0 <= i < s.jobs.len() ==> resume_all(s, jobs).0.jobs[i] == s.jobs[i],
        resume_all(s, jobs).0.active_network_jobs == s.active_network_jobs,
        resume_all(s, jobs).0.active_process_instances == s.active_process_instances,
        resume_all(s, jobs).0.pending_updates == s.pending_updates,
    decreases jobs.len(),
{
    if jobs.len() > 0 {
        lemma_resume_all(s, jobs.drop_last());
        let t = resume_all(s, jobs.drop_last()).0;
        let u = taken_up(t, jobs.last());
        assert forall|i: int| 0 <= i < s.jobs.len() implies u.jobs[i] == s.jobs[i] by {
            assert(t.jobs[i] == s.jobs[i]);
        }
    }
}

/// One step keeps the counters within the limits under which it is taken.
pub proof fn lemma_step_within_limits(s: ManagerView, msg: JobMessageView, limits: Limits)
    requires
        within_limits(s, limits),
    ensures
        within_limits(step(s, msg, limits).0, limits),
{
    match msg {
        JobMessageView::AddJob { job } => {
            let admitted = ManagerView {
                jobs: s.jobs.push(crate::models::admitted_job(job)),
                registry: crate::manager::registry_put(s.registry, job),
                queue: s.queue.push(job),
                dirty: true,
                ..s
            };
            lemma_dispatch(admitted, limits);
        },
        JobMessageView::WorkerFinished => {
            let r = released(s);
            lemma_dispatch(r, limits);
            lemma_dispatch(ManagerView { completed_session_count: 0, ..r }, limits);
        },
        JobMessageView::ResumePending { jobs } => {
            lemma_resume_all(s, jobs);
            lemma_dispatch(resume_all(s, jobs).0, limits);
        },
        _ => {},
    }
}

/// One step keeps the workers that use the network among the worker processes.
pub proof fn lemma_step_counters_ordered(s: ManagerView, msg: JobMessageView, limits: Limits)
    requires
        counters_ordered(s),
    ensures
        counters_ordered(step(s, msg, limits).0),
{
    match msg {
        JobMessageView::AddJob { job } => {
            let admitted = ManagerView {
                jobs: s.jobs.push(crate::models::admitted_job(job)),
                registry: crate::manager::registry_put(s.registry, job),
                queue: s.queue.push(job),
                dirty: true,
                ..s
            };
            lemma_dispatch(admitted, limits);
        },
        JobMessageView::WorkerFinished => {
            let r = released(s);
            lemma_dispatch(r, limits);
            lemma_dispatch(ManagerView { completed_session_count: 0, ..r }, limits);
        },
        JobMessageView::ResumePending { jobs } => {
            lemma_resume_all(s, jobs);
            lemma_dispatch(resume_all(s, jobs).0, limits);
        },
        _ => {},
    }
}

/// Concurrency bounds. From a manager that has seen nothing, after any run
/// of messages handled under fixed limits, no more jobs use the network and
/// no more worker processes live than the limits allow, and every job that
/// uses the network is a worker process. Each prefix of a run is a run, so
/// this holds at every instant of it.
pub proof fn concurrency_bounds(msgs: Seq<JobMessageView>, limits: Limits)
    ensures
        within_limits(run(empty_manager(), msgs, limits), limits),
        counters_ordered(run(empty_manager(), msgs, limits)),
    decreases msgs.len(),
{
    if msgs.len() > 0 {
        concurrency_bounds(msgs.drop_last(), limits);
        let before = run(empty_manager(), msgs.drop_last(), limits);
        lemma_step_within_limits(before, msgs.last(), limits);
        lemma_step_counters_ordered(before, msgs.last(), limits);
    }
}

/// A counter that rises in a step does not rise past its limit, whatever
/// it was before: only a free slot under the limits of that step is filled.
pub proof fn counters_rise_only_into_free_slots(
    s: ManagerView,
    msg: JobMessageView,
    limits: Limits,
)
    ensures
        step(s, msg, limits).0.active_network_jobs > s.active_network_jobs ==> step(
            s,
            msg,
            limits,
        ).0.active_network_jobs <= limits.max_concurrent_downloads,
        step(s, msg, limits).0.active_process_instances > s.active_process_instances ==> step(
            s,
            msg,
            limits,
        ).0.active_process_instances <= limits.max_total_instances,
{
    match msg {
        JobMessageView::AddJob { job } => {
            let admitted = ManagerView {
                jobs: s.jobs.push(crate::models::admitted_job(job)),
                registry: crate::manager::registry_put(s.registry, job),
                queue: s.queue.push(job),
                dirty: true,
                ..s
            };
            lemma_dispatch(admitted, limits);
        },
        JobMessageView::WorkerFinished => {
            let r = released(s);
            lemma_dispatch(r, limits);
            lemma_dispatch(ManagerView { completed_session_count: 0, ..r }, limits);
        },
        JobMessageView::ResumePending { jobs } => {
            lemma_resume_all(s, jobs);
            lemma_dispatch(resume_all(s, jobs).0, limits);
        },
        _ => {},
    }
}

/// One step lets every job of the table follow itself: none leaves, no
/// sequence id falls, every change shows in the sequence id, and a
/// cancelled job stays cancelled.
pub proof fn lemma_step_table_follows(s: ManagerView, msg: JobMessageView, limits: Limits)
    ensures
        table_follows(s.jobs, step(s, msg, limits).0.jobs),
{
    match msg {
        JobMessageView::AddJob { job } => {
            let admitted = ManagerView {
                jobs: s.jobs.push(crate::models::admitted_job(job)),
                registry: crate::manager::registry_put(s.registry, job),
                queue: s.queue.push(job),
                dirty: true,
                ..s
            };
            lemma_dispatch(admitted, limits);
        },
        JobMessageView::CancelJob { id } => {
            lemma_job_index_found(s.jobs, id);
        },
        JobMessageView::UpdateProgress { id, percentage, speed, eta, filename, phase } => {
            lemma_job_index_found(s.jobs, id);
        },
        JobMessageView::ProcessStarted { id, pid } => {
            lemma_job_index_found(s.jobs, id);
        },
        JobMessageView::JobCompleted { id, output_path } => {
            lemma_job_index_found(s.jobs, id);
        },
        JobMessageView::JobError { id, payload } => {
            lemma_job_index_found(s.jobs, id);
        },
        JobMessageView::FileConflict { id, temp_path, output_path } => {
            lemma_job_index_found(s.jobs, id);
        },
        JobMessageView::WorkerFinished => {
            let r = released(s);
            lemma_dispatch(r, limits);
            lemma_dispatch(ManagerView { completed_session_count: 0, ..r }, limits);
        },
        JobMessageView::ResumePending { jobs } => {
            lemma_resume_all(s, jobs);
            lemma_dispatch(resume_all(s, jobs).0, limits);
        },
        JobMessageView::ClearPending => {},
    }
}

/// Following is transitive.
pub proof fn lemma_table_follows_transitive(a: Seq<JobView>, b: Seq<JobView>, c: Seq<JobView>)
    requires
        table_follows(a, b),
        table_follows(b, c),
    ensures
        table_follows(a, c),
{
    assert forall|i: int| 0 <= i < a.len() implies job_follows(#[trigger] a[i], c[i]) by {
        assert(job_follows(a[i], b[i]));
        assert(job_follows(b[i], c[i]));
    }
}

/// Sequence monotonicity and absorbing cancellation, over any run. After
/// any run of messages from any state, every job that was in the table is
/// still there, under the same identifier and at the same place; its
/// sequence id has not fallen; if the job differs from what it was, its
/// sequence id is greater than it was, unless that had reached the largest
/// value; and if it was cancelled, it still is.
pub proof fn jobs_only_move_forward(s: ManagerView, msgs: Seq<JobMessageView>, limits: Limits)
    ensures
        table_follows(s.jobs, run(s, msgs, limits).jobs),
    decreases msgs.len(),
{
    if msgs.len() > 0 {
        jobs_only_move_forward(s, msgs.drop_last(), limits);
        let before = run(s, msgs.drop_last(), limits);
        lemma_step_table_follows(before, msgs.last(), limits);
        lemma_table_follows_transitive(s.jobs, before.jobs, run(s, msgs, limits).jobs);
    }
}

/// Cancellation is absorbing. Once a job is cancelled, no message takes it
/// out of that state: not a completion, not an error, not any other.
pub proof fn cancellation_is_absorbing(
    s: ManagerView,
    id: JobId,
    msgs: Seq<JobMessageView>,
    limits: Limits,
)
    requires
        has_job(s.jobs, id),
        s.jobs[job_index(s.jobs, id)].status == JobStatus::Cancelled,
    ensures
        has_job(run(s, msgs, limits).jobs, id),
        job_index(run(s, msgs, limits).jobs, id) == job_index(s.jobs, id),
        run(s, msgs, limits).jobs[job_index(s.jobs, id)].status == JobStatus::Cancelled,
{
    jobs_only_move_forward(s, msgs, limits);
    lemma_job_index_found(s.jobs, id);
    lemma_job_index_stable(s.jobs, run(s, msgs, limits).jobs, id);
}

/// A job that is in the table stays where it is while the table only grows.
pub proof fn lemma_job_index_stable(before: Seq<JobView>, after: Seq<JobView>, id: JobId)
    requires
        table_follows(before, after),
        has_job(before, id),
    ensures
        job_index(after, id) == job_index(before, id),
    decreases before.len(),
{
    if before.first().id == id {
        assert(job_follows(before[0], after[0]));
    } else {
        assert(job_follows(before[0], after[0]));
        let b = before.drop_first();
        let a = after.drop_first();
        assert forall|i: int| 0 <= i < b.len() implies job_follows(#[trigger] b[i], a[i]) by {
            assert(job_follows(before[i + 1], after[i + 1]));
        }
        lemma_job_index_stable(b, a, id);
    }
}

/// After a cancel request for a job of the table, the job is cancelled.
pub proof fn cancel_takes_effect(s: ManagerView, id: JobId, limits: Limits)
    requires
        has_job(s.jobs, id),
    ensures
        step(s, JobMessageView::CancelJob { id }, limits).0.jobs[job_index(s.jobs, id)].status
            == JobStatus::Cancelled,
{
    lemma_job_index_found(s.jobs, id);
}

/// No pending payload is ahead of its job: each belongs to a job of the
/// table and carries a sequence id that the job has reached.
pub open spec fn updates_behind_jobs(s: ManagerView) -> bool {
    forall|k: int|
        0 <= k < s.pending_updates.len() ==> has_job(
            s.jobs,
            (#[trigger] s.pending_updates[k]).job_id,
        ) && s.pending_updates[k].sequence_id <= s.jobs[job_index(
            s.jobs,
            s.pending_updates[k].job_id,
        )].sequence_id
}

proof fn lemma_updates_behind_after(s: ManagerView, t: ManagerView)
    requires
        updates_behind_jobs(s),
        table_follows(s.jobs, t.jobs),
        t.pending_updates == s.pending_updates,
    ensures
        updates_behind_jobs(t),
{
    assert forall|k: int| 0 <= k < t.pending_updates.len() implies has_job(
        t.jobs,
        (#[trigger] t.pending_updates[k]).job_id,
    ) && t.pending_updates[k].sequence_id <= t.jobs[job_index(
        t.jobs,
        t.pending_updates[k].job_id,
    )].sequence_id by {
        let id = s.pending_updates[k].job_id;
        lemma_job_index_stable(s.jobs, t.jobs, id);
        lemma_job_index_found(s.jobs, id);
        assert(job_follows(s.jobs[job_index(s.jobs, id)], t.jobs[job_index(s.jobs, id)]));
    }
}

proof fn lemma_update_index_found(updates: Seq<DownloadProgressPayloadView>, id: JobId)
    ensures
        0 <= update_index(updates, id) <= updates.len(),
        update_index(updates, id) < updates.len() ==> updates[update_index(updates, id)].job_id
            == id,
    decreases updates.len(),
{
    if updates.len() == 0 || updates.first().job_id == id {
    } else {
        lemma_update_index_found(updates.drop_first(), id);
    }
}

/// One step keeps the pending payloads behind their jobs.
pub proof fn lemma_step_updates_behind(s: ManagerView, msg: JobMessageView, limits: Limits)
    requires
        updates_behind_jobs(s),
    ensures
        updates_behind_jobs(step(s, msg, limits).0),
{
    let t = step(s, msg, limits).0;
    lemma_step_table_follows(s, msg, limits);
    match msg {
        JobMessageView::UpdateProgress { id, percentage, speed, eta, filename, phase } => {
            if has_job(s.jobs, id) && s.jobs[job_index(s.jobs, id)].status
                != JobStatus::Cancelled {
                lemma_job_index_found(s.jobs, id);
                lemma_update_index_found(s.pending_updates, id);
                let mid = ManagerView { pending_updates: s.pending_updates, ..t };
                lemma_updates_behind_after(s, mid);
                lemma_job_index_stable(s.jobs, t.jobs, id);
                assert forall|k: int| 0 <= k < t.pending_updates.len() implies has_job(
                    t.jobs,
                    (#[trigger] t.pending_updates[k]).job_id,
                ) && t.pending_updates[k].sequence_id <= t.jobs[job_index(
                    t.jobs,
                    t.pending_updates[k].job_id,
                )].sequence_id by {
                    if k < s.pending_updates.len() && k != update_index(s.pending_updates, id) {
                        assert(t.pending_updates[k] == mid.pending_updates[k]);
                    }
                }
            } else {
                lemma_updates_behind_after(s, t);
            }
        },
        JobMessageView::AddJob { job } => {
            let admitted = ManagerView {
                jobs: s.jobs.push(crate::models::admitted_job(job)),
                registry: crate::manager::registry_put(s.registry, job),
                queue: s.queue.push(job),
                dirty: true,
                ..s
            };
            lemma_dispatch(admitted, limits);
            lemma_updates_behind_after(s, t);
        },
        JobMessageView::WorkerFinished => {
            let r = released(s);
            lemma_dispatch(r, limits);
            lemma_dispatch(ManagerView { completed_session_count: 0, ..r }, limits);
            lemma_updates_behind_after(s, t);
        },
        JobMessageView::ResumePending { jobs } => {
            lemma_resume_all(s, jobs);
            lemma_dispatch(resume_all(s, jobs).0, limits);
            lemma_updates_behind_after(s, t);
        },
        _ => {
            lemma_updates_behind_after(s, t);
        },
    }
}

/// Sequence monotonicity of what is emitted. Where no pending payload is
/// ahead of its job, a progress report for a job that is in the table, not
/// cancelled, and whose sequence id can still grow, leaves a pending
/// payload for that job whose sequence id is greater than the job's was,
/// and so greater than that of any payload made for the job before.
pub proof fn progress_payload_is_newest(
    s: ManagerView,
    id: JobId,
    percentage: crate::models::Percent,
    speed: Seq<char>,
    eta: Seq<char>,
    filename: Option<Seq<char>>,
    phase: Seq<char>,
)
    requires
        updates_behind_jobs(s),
        has_job(s.jobs, id),
        s.jobs[job_index(s.jobs, id)].status != JobStatus::Cancelled,
        s.jobs[job_index(s.jobs, id)].sequence_id < u64::MAX,
    ensures
        ({
            let t = after_progress(s, id, percentage, speed, eta, filename, phase);
            let k = update_index(t.pending_updates, id);
            &&& k < t.pending_updates.len()
            &&& t.pending_updates[k].job_id == id
            &&& t.pending_updates[k].sequence_id == s.jobs[job_index(s.jobs, id)].sequence_id + 1
            &&& t.pending_updates[k].sequence_id == t.jobs[job_index(s.jobs, id)].sequence_id
            &&& forall|j: int|
                0 <= j < s.pending_updates.len() && (#[trigger] s.pending_updates[j]).job_id == id
                    ==> s.pending_updates[j].sequence_id < t.pending_updates[k].sequence_id
        }),
{
    let t = after_progress(s, id, percentage, speed, eta, filename, phase);
    lemma_job_index_found(s.jobs, id);
    lemma_update_index_found(s.pending_updates, id);
    let payload = DownloadProgressPayloadView {
        job_id: id,
        percentage,
        sequence_id: next_sequence(s.jobs[job_index(s.jobs, id)].sequence_id),
        speed,
        eta,
        filename,
        phase: Some(phase),
    };
    assert(t.pending_updates == updates_put(s.pending_updates, payload));
    lemma_update_index_after_put(s.pending_updates, payload);
}

proof fn lemma_update_index_after_put(
    updates: Seq<DownloadProgressPayloadView>,
    payload: DownloadProgressPayloadView,
)
    ensures
        update_index(updates_put(updates, payload), payload.job_id) == update_index(
            updates,
            payload.job_id,
        ),
        update_index(updates, payload.job_id) < updates_put(updates, payload).len(),
        updates_put(updates, payload)[update_index(updates, payload.job_id)] == payload,
    decreases updates.len(),
{
    let id = payload.job_id;
    lemma_update_index_found(updates, id);
    if updates.len() == 0 {
    } else if updates.first().job_id == id {
    } else {
        let rest = updates.drop_first();
        lemma_update_index_after_put(rest, payload);
        lemma_update_index_found(rest, id);
        let put = updates_put(updates, payload);
        assert(put.drop_first() =~= updates_put(rest, payload));
        assert(put.first() == updates.first());
    }
}


/// No two jobs of the table have the same identifier.
pub open spec fn jobs_distinct(jobs: Seq<JobView>) -> bool {
    forall|i: int, j: int|
        0 <= i < j < jobs.len() ==> (#[trigger] jobs[i]).id != (#[trigger] jobs[j]).id
}

/// No two declarations have the same identifier.
pub open spec fn entries_distinct(entries: Seq<crate::models::QueuedJobView>) -> bool {
    forall|i: int, j: int|
        0 <= i < j < entries.len() ==> (#[trigger] entries[i]).id != (#[trigger] entries[j]).id
}

/// Every declaration of the registry belongs to a job of the table.
pub open spec fn registry_in_table(s: ManagerView) -> bool {
    forall|k: int| 0 <= k < s.registry.len() ==> has_job(s.jobs, (#[trigger] s.registry[k]).id)
}

/// What holds of the tables of the manager at every instant: each
/// identifier stands for at most one job and at most one declaration of
/// the registry, and the registry holds declarations of known jobs only.
pub open spec fn tables_consistent(s: ManagerView) -> bool {
    jobs_distinct(s.jobs) && entries_distinct(s.registry) && registry_in_table(s)
}

proof fn lemma_entry_index_found(entries: Seq<crate::models::QueuedJobView>, id: JobId)
    ensures
        0 <= crate::manager::entry_index(entries, id) <= entries.len(),
        crate::manager::entry_index(entries, id) < entries.len() ==> entries[crate::manager::entry_index(
            entries,
            id,
        )].id == id,
        forall|j: int|
            0 <= j < crate::manager::entry_index(entries, id) ==> (#[trigger] entries[j]).id != id,
    decreases entries.len(),
{
    if entries.len() == 0 || entries.first().id == id {
    } else {
        let t = entries.drop_first();
        lemma_entry_index_found(t, id);
        assert forall|j: int| 0 <= j < crate::manager::entry_index(entries, id) implies (
        #[trigger] entries[j]).id != id by {
            if j > 0 {
                assert(entries[j] == t[j - 1]);
            }
        }
    }
}

/// A job that was just added at the end of the table is in the table.
proof fn lemma_pushed_job_found(jobs: Seq<JobView>, job: JobView)
    ensures
        has_job(jobs.push(job), job.id),
{
    let after = jobs.push(job);
    lemma_job_index_found(after, job.id);
    if job_index(after, job.id) >= after.len() {
        assert(after[after.len() - 1].id != job.id);
    }
}

/// A table that grows keeps the jobs it has.
proof fn lemma_has_job_stays(before: Seq<JobView>, after: Seq<JobView>, id: JobId)
    requires
        table_follows(before, after),
        has_job(before, id),
    ensures
        has_job(after, id),
{
    lemma_job_index_stable(before, after, id);
}

proof fn lemma_push_distinct(jobs: Seq<JobView>, job: JobView)
    requires
        jobs_distinct(jobs),
        !has_job(jobs, job.id),
    ensures
        jobs_distinct(jobs.push(job)),
{
    lemma_job_index_found(jobs, job.id);
    let after = jobs.push(job);
    assert forall|i: int, j: int| 0 <= i < j < after.len() implies (#[trigger] after[i]).id != (
    #[trigger] after[j]).id by {
        if j < jobs.len() {
            assert(after[i] == jobs[i] && after[j] == jobs[j]);
        } else {
            assert(after[i] == jobs[i]);
        }
    }
}

proof fn lemma_follows_distinct(before: Seq<JobView>, after: Seq<JobView>)
    requires
        jobs_distinct(before),
        table_follows(before, after),
        after.len() == before.len(),
    ensures
        jobs_distinct(after),
{
    assert forall|i: int, j: int| 0 <= i < j < after.len() implies (#[trigger] after[i]).id != (
    #[trigger] after[j]).id by {
        assert(job_follows(before[i], after[i]));
        assert(job_follows(before[j], after[j]));
    }
}

/// Putting a declaration of a known job into the registry keeps the
/// registry consistent with the table.
proof fn lemma_registry_put(s: ManagerView, job: crate::models::QueuedJobView)
    requires
        entries_distinct(s.registry),
        registry_in_table(s),
        has_job(s.jobs, job.id),
    ensures
        entries_distinct(crate::manager::registry_put(s.registry, job)),
        registry_in_table(
            ManagerView { registry: crate::manager::registry_put(s.registry, job), ..s },
        ),
{
    let reg = s.registry;
    let after = crate::manager::registry_put(reg, job);
    let k = crate::manager::entry_index(reg, job.id);
    lemma_entry_index_found(reg, job.id);
    assert forall|i: int, j: int| 0 <= i < j < after.len() implies (#[trigger] after[i]).id != (
    #[trigger] after[j]).id by {
        if k < reg.len() {
            assert(after[i].id == reg[i].id && after[j].id == reg[j].id);
        } else if j < reg.len() {
            assert(after[i] == reg[i] && after[j] == reg[j]);
        } else {
            assert(after[i] == reg[i]);
        }
    }
    assert forall|i: int| 0 <= i < after.len() implies has_job(s.jobs, (#[trigger] after[i]).id) by {
        if i < reg.len() {
            assert(after[i].id == reg[i].id);
        }
    }
}

/// Taking a declaration out of the registry keeps the registry consistent
/// with the table.
proof fn lemma_registry_without(s: ManagerView, id: JobId)
    requires
        entries_distinct(s.registry),
        registry_in_table(s),
    ensures
        entries_distinct(crate::manager::registry_without(s.registry, id)),
        registry_in_table(
            ManagerView { registry: crate::manager::registry_without(s.registry, id), ..s },
        ),
{
    let reg = s.registry;
    let after = crate::manager::registry_without(reg, id);
    let k = crate::manager::entry_index(reg, id);
    lemma_entry_index_found(reg, id);
    if k < reg.len() {
        assert forall|i: int, j: int| 0 <= i < j < after.len() implies (#[trigger] after[i]).id
            != (#[trigger] after[j]).id by {
            let a = if i < k {
                i
            } else {
                i + 1
            };
            let b = if j < k {
                j
            } else {
                j + 1
            };
            assert(after[i] == reg[a] && after[j] == reg[b]);
        }
        assert forall|i: int| 0 <= i < after.len() implies has_job(
            s.jobs,
            (#[trigger] after[i]).id,
        ) by {
            let a = if i < k {
                i
            } else {
                i + 1
            };
            assert(after[i] == reg[a]);
        }
    }
}

/// Noting what is left of a failure keeps the registry consistent with the table.
proof fn lemma_registry_remnant(s: ManagerView, id: JobId, error: Seq<char>, stderr: Seq<char>)
    requires
        entries_distinct(s.registry),
        registry_in_table(s),
    ensures
        entries_distinct(crate::manager::registry_with_remnant(s.registry, id, error, stderr)),
        registry_in_table(
            ManagerView {
                registry: crate::manager::registry_with_remnant(s.registry, id, error, stderr),
                ..s
            },
        ),
{
    let reg = s.registry;
    let after = crate::manager::registry_with_remnant(reg, id, error, stderr);
    lemma_entry_index_found(reg, id);
    assert forall|i: int, j: int| 0 <= i < j < after.len() implies (#[trigger] after[i]).id != (
    #[trigger] after[j]).id by {
        assert(after[i].id == reg[i].id && after[j].id == reg[j].id);
    }
    assert forall|i: int| 0 <= i < after.len() implies has_job(s.jobs, (#[trigger] after[i]).id) by {
        assert(after[i].id == reg[i].id);
    }
}

/// A change of the table under which every job follows itself keeps the
/// tables consistent, as long as no job is added and the registry stays.
proof fn lemma_tables_after_jobs(s: ManagerView, t: ManagerView)
    requires
        tables_consistent(s),
        table_follows(s.jobs, t.jobs),
        t.jobs.len() == s.jobs.len(),
        t.registry == s.registry,
    ensures
        tables_consistent(t),
{
    lemma_follows_distinct(s.jobs, t.jobs);
    assert forall|k: int| 0 <= k < t.registry.len() implies has_job(
        t.jobs,
        (#[trigger] t.registry[k]).id,
    ) by {
        lemma_has_job_stays(s.jobs, t.jobs, s.registry[k].id);
    }
}

/// The state in which a declaration enters the table and the registry has
/// consistent tables.
proof fn lemma_admitted_consistent(
    s: ManagerView,
    job: JobView,
    declaration: crate::models::QueuedJobView,
)
    requires
        tables_consistent(s),
        !has_job(s.jobs, job.id),
        declaration.id == job.id,
    ensures
        jobs_distinct(s.jobs.push(job)),
        entries_distinct(crate::manager::registry_put(s.registry, declaration)),
        registry_in_table(
            ManagerView {
                jobs: s.jobs.push(job),
                registry: crate::manager::registry_put(s.registry, declaration),
                ..s
            },
        ),
{
    lemma_push_distinct(s.jobs, job);
    lemma_pushed_job_found(s.jobs, job);
    let grown = ManagerView { jobs: s.jobs.push(job), ..s };
    assert forall|k: int| 0 <= k < grown.registry.len() implies has_job(
        grown.jobs,
        (#[trigger] grown.registry[k]).id,
    ) by {
        lemma_has_job_stays(s.jobs, grown.jobs, s.registry[k].id);
    }
    lemma_registry_put(grown, declaration);
}

proof fn lemma_resume_consistent(s: ManagerView, jobs: Seq<crate::models::QueuedJobView>)
    requires
        tables_consistent(s),
    ensures
        tables_consistent(resume_all(s, jobs).0),
    decreases jobs.len(),
{
    if jobs.len() > 0 {
        lemma_resume_consistent(s, jobs.drop_last());
        let t = resume_all(s, jobs.drop_last()).0;
        let q = jobs.last();
        if !has_job(t.jobs, q.id) {
            lemma_admitted_consistent(t, crate::manager::resumed_job(q), q);
        }
    }
}

/// One step keeps the tables consistent.
pub proof fn lemma_step_tables_consistent(s: ManagerView, msg: JobMessageView, limits: Limits)
    requires
        tables_consistent(s),
    ensures
        tables_consistent(step(s, msg, limits).0),
{
    let t = step(s, msg, limits).0;
    lemma_step_table_follows(s, msg, limits);
    match msg {
        JobMessageView::AddJob { job } => {
            if !has_job(s.jobs, job.id) && !crate::manager::url_is_active(s.jobs, job.url) {
                lemma_admitted_consistent(s, crate::models::admitted_job(job), job);
                let admitted = ManagerView {
                    jobs: s.jobs.push(crate::models::admitted_job(job)),
                    registry: crate::manager::registry_put(s.registry, job),
                    queue: s.queue.push(job),
                    dirty: true,
                    ..s
                };
                lemma_dispatch(admitted, limits);
            }
        },
        JobMessageView::CancelJob { id } => {
            lemma_job_index_found(s.jobs, id);
            lemma_registry_without(s, id);
            let forgotten = ManagerView {
                registry: crate::manager::registry_without(s.registry, id),
                dirty: true,
                ..s
            };
            lemma_tables_after_jobs(forgotten, t);
        },
        JobMessageView::UpdateProgress { id, percentage, speed, eta, filename, phase } => {
            lemma_job_index_found(s.jobs, id);
            lemma_tables_after_jobs(s, t);
        },
        JobMessageView::ProcessStarted { id, pid } => {
            lemma_job_index_found(s.jobs, id);
            lemma_tables_after_jobs(s, t);
        },
        JobMessageView::JobCompleted { id, output_path } => {
            lemma_job_index_found(s.jobs, id);
            if !(has_job(s.jobs, id) && s.jobs[job_index(s.jobs, id)].status
                == JobStatus::Cancelled) {
                lemma_registry_without(s, id);
                let forgotten = ManagerView {
                    registry: crate::manager::registry_without(s.registry, id),
                    dirty: true,
                    ..s
                };
                lemma_tables_after_jobs(forgotten, t);
            }
        },
        JobMessageView::JobError { id, payload } => {
            lemma_job_index_found(s.jobs, id);
            if !(has_job(s.jobs, id) && s.jobs[job_index(s.jobs, id)].status
                == JobStatus::Cancelled) {
                lemma_registry_without(s, id);
                lemma_registry_remnant(s, id, payload.error, payload.stderr);
                let noted = ManagerView { registry: t.registry, dirty: true, ..s };
                lemma_tables_after_jobs(noted, t);
            }
        },
        JobMessageView::FileConflict { id, temp_path, output_path } => {
            lemma_job_index_found(s.jobs, id);
            if !(has_job(s.jobs, id) && s.jobs[job_index(s.jobs, id)].status
                == JobStatus::Cancelled) {
                lemma_registry_remnant(s, id, crate::manager::conflict_text(), temp_path);
                let noted = ManagerView { registry: t.registry, dirty: true, ..s };
                lemma_tables_after_jobs(noted, t);
            }
        },
        JobMessageView::WorkerFinished => {
            let r = released(s);
            lemma_dispatch(r, limits);
            lemma_dispatch(ManagerView { completed_session_count: 0, ..r }, limits);
        },
        JobMessageView::ResumePending { jobs } => {
            lemma_resume_consistent(s, jobs);
            lemma_dispatch(resume_all(s, jobs).0, limits);
        },
        JobMessageView::ClearPending => {},
    }
}

/// One job and one registry entry per identifier. From a manager that has
/// seen nothing, after any run of messages, no two jobs of the table and no
/// two declarations of the registry share an identifier, and every
/// declaration of the registry belongs to a job of the table.
pub proof fn tables_stay_consistent(msgs: Seq<JobMessageView>, limits: Limits)
    ensures
        tables_consistent(run(empty_manager(), msgs, limits)),
    decreases msgs.len(),
{
    if msgs.len() > 0 {
        tables_stay_consistent(msgs.drop_last(), limits);
        lemma_step_tables_consistent(
            run(empty_manager(), msgs.drop_last(), limits),
            msgs.last(),
            limits,
        );
    }
}

/// From a manager that has seen nothing, after any run of messages, no
/// pending payload is ahead of its job.
pub proof fn updates_stay_behind_jobs(msgs: Seq<JobMessageView>, limits: Limits)
    ensures
        updates_behind_jobs(run(empty_manager(), msgs, limits)),
    decreases msgs.len(),
{
    if msgs.len() > 0 {
        updates_stay_behind_jobs(msgs.drop_last(), limits);
        lemma_step_updates_behind(
            run(empty_manager(), msgs.drop_last(), limits),
            msgs.last(),
            limits,
        );
    }
}

/// What holds of the state of the manager at every instant, whatever the
/// limits: its tables are consistent, every job that uses the network is a
/// worker process, and no pending payload is ahead of its job.
pub open spec fn well_formed(s: ManagerView) -> bool {
    tables_consistent(s) && counters_ordered(s) && updates_behind_jobs(s)
}

/// One step keeps the state well formed, and within the limits under
/// which it is taken.
pub proof fn lemma_step_well_formed(s: ManagerView, msg: JobMessageView, limits: Limits)
    ensures
        well_formed(s) ==> well_formed(step(s, msg, limits).0),
        within_limits(s, limits) ==> within_limits(step(s, msg, limits).0, limits),
{
    if well_formed(s) {
        lemma_step_tables_consistent(s, msg, limits);
        lemma_step_counters_ordered(s, msg, limits);
        lemma_step_updates_behind(s, msg, limits);
    }
    if within_limits(s, limits) {
        lemma_step_within_limits(s, msg, limits);
    }
}

} // verus!
