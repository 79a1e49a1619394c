use multiyt_dlp::config::Limits;
use multiyt_dlp::manager::{is_fatal_error, AddJobReply, Effect, JobManager};
use multiyt_dlp::models::{
    DownloadErrorPayload, DownloadFormatPreset, Job, JobMessage, JobStatus, QueuedJob,
};

fn limits(network: u32, total: u32) -> Limits {
    Limits { max_concurrent_downloads: network, max_total_instances: total }
}

fn queued(id: u128, url: &str) -> QueuedJob {
    QueuedJob {
        id,
        url: url.to_string(),
        download_path: Some("/library".to_string()),
        format_preset: DownloadFormatPreset::BestMp4,
        video_resolution: "1080p".to_string(),
        embed_metadata: true,
        embed_thumbnail: false,
        filename_template: "%(title)s.%(ext)s".to_string(),
        restrict_filenames: false,
        live_from_start: false,
        status: None,
        error: None,
        stderr: None,
    }
}

fn add(manager: &mut JobManager, id: u128, url: &str, l: Limits) -> Vec<Effect> {
    manager.handle_message(JobMessage::AddJob { job: queued(id, url) }, l)
}

fn job(manager: &JobManager, id: u128) -> Job {
    manager.sync_state().into_iter().find(|j| j.id == id).expect("job is in the table")
}

fn spawned(effects: &[Effect]) -> Vec<u128> {
    effects
        .iter()
        .filter_map(|e| match e {
            Effect::SpawnWorker(q) => Some(q.id),
            _ => None,
        })
        .collect()
}

fn progress(id: u128, percentage: u32, phase: &str) -> JobMessage {
    JobMessage::UpdateProgress {
        id,
        percentage,
        speed: "1.00 MiB/s".to_string(),
        eta: "00:10".to_string(),
        filename: Some("clip.mp4".to_string()),
        phase: phase.to_string(),
    }
}

fn failure(id: u128, error: &str, stderr: &str) -> JobMessage {
    JobMessage::JobError {
        id,
        payload: DownloadErrorPayload {
            job_id: id,
            error: error.to_string(),
            exit_code: Some(1),
            stderr: stderr.to_string(),
            logs: "line one\nline two".to_string(),
        },
    }
}

#[test]
fn single_job_runs_to_completion() {
    let l = limits(4, 10);
    let mut m = JobManager::new();
    let effects = add(&mut m, 1, "https://example.com/v?id=1", l);
    assert_eq!(effects.len(), 2);
    assert!(matches!(&effects[0], Effect::SpawnWorker(q) if q.id == 1 && q.url == "https://example.com/v?id=1"));
    assert!(matches!(&effects[1], Effect::Reply(AddJobReply::Accepted)));
    assert_eq!(m.active_network_jobs(), 1);
    assert_eq!(m.active_process_instances(), 1);
    let j = job(&m, 1);
    assert_eq!(j.status, JobStatus::Pending);
    assert_eq!(j.sequence_id, 0);
    assert_eq!(j.preset, Some(DownloadFormatPreset::BestMp4));
    assert_eq!(j.video_resolution.as_deref(), Some("1080p"));
    assert_eq!(j.download_path.as_deref(), Some("/library"));
    assert_eq!(j.embed_metadata, Some(true));
    let saved = m.persistence_snapshot().expect("the registry has changed");
    assert_eq!(saved.len(), 1);
    assert_eq!(saved[0].id, 1);

    assert!(m.handle_message(JobMessage::ProcessStarted { id: 1, pid: 4242 }, l).is_empty());
    let j = job(&m, 1);
    assert_eq!(j.status, JobStatus::Downloading);
    assert_eq!(j.pid, Some(4242));
    assert_eq!(j.sequence_id, 1);

    assert!(m.handle_message(progress(1, 5_000, "Downloading"), l).is_empty());
    let j = job(&m, 1);
    assert_eq!(j.progress, 5_000);
    assert_eq!(j.sequence_id, 2);

    let effects = m.handle_message(
        JobMessage::JobCompleted { id: 1, output_path: "/library/clip.mp4".to_string() },
        l,
    );
    assert_eq!(effects.len(), 1);
    assert!(matches!(&effects[0], Effect::EmitComplete { job_id: 1, output_path } if output_path == "/library/clip.mp4"));
    let j = job(&m, 1);
    assert_eq!(j.status, JobStatus::Completed);
    assert_eq!(j.progress, 10_000);
    assert_eq!(j.phase.as_deref(), Some("Done"));
    assert_eq!(j.output_path.as_deref(), Some("/library/clip.mp4"));
    assert_eq!(j.sequence_id, 3);
    assert_eq!(m.persistence_snapshot().unwrap().len(), 0);

    let effects = m.handle_message(JobMessage::WorkerFinished, l);
    assert_eq!(effects.len(), 2);
    assert!(matches!(&effects[0], Effect::Notify(1)));
    assert!(matches!(&effects[1], Effect::CleanTemp));
    assert_eq!(m.active_network_jobs(), 0);
    assert_eq!(m.active_process_instances(), 0);
}

#[test]
fn same_identifier_is_refused() {
    let l = limits(4, 10);
    let mut m = JobManager::new();
    add(&mut m, 1, "https://example.com/a", l);
    let effects = add(&mut m, 1, "https://example.com/b", l);
    assert_eq!(effects.len(), 1);
    assert!(matches!(&effects[0], Effect::Reply(AddJobReply::AlreadyExists)));
    assert_eq!(m.sync_state().len(), 1);
}

#[test]
fn url_of_an_active_job_is_refused() {
    let l = limits(4, 10);
    let mut m = JobManager::new();
    add(&mut m, 1, "https://example.com/a", l);
    let effects = add(&mut m, 2, "https://example.com/a", l);
    assert_eq!(effects.len(), 1);
    assert!(matches!(&effects[0], Effect::Reply(AddJobReply::DuplicateUrl)));
    m.handle_message(JobMessage::ProcessStarted { id: 1, pid: 7 }, l);
    let effects = add(&mut m, 3, "https://example.com/a", l);
    assert!(matches!(&effects[0], Effect::Reply(AddJobReply::DuplicateUrl)));
    m.handle_message(
        JobMessage::JobCompleted { id: 1, output_path: "/library/a.mp4".to_string() },
        l,
    );
    let effects = add(&mut m, 4, "https://example.com/a", l);
    assert!(matches!(effects.last(), Some(Effect::Reply(AddJobReply::Accepted))));
}

#[test]
fn refusal_messages() {
    assert_eq!(AddJobReply::AlreadyExists.message(), "Job already exists");
    assert_eq!(AddJobReply::DuplicateUrl.message(), "URL is already in queue");
    assert_eq!(AddJobReply::Accepted.message(), "");
}

#[test]
fn no_more_workers_than_the_network_limit() {
    let l = limits(2, 10);
    let mut m = JobManager::new();
    let mut started = Vec::new();
    for id in 1..=6u128 {
        let effects = add(&mut m, id, &format!("https://example.com/{}", id), l);
        started.extend(spawned(&effects));
        assert!(m.active_network_jobs() <= 2);
        assert!(m.active_process_instances() <= 10);
        assert!(m.active_process_instances() >= m.active_network_jobs());
    }
    assert_eq!(started, vec![1, 2]);
    let effects = m.handle_message(JobMessage::WorkerFinished, l);
    assert_eq!(spawned(&effects), vec![3]);
    assert_eq!(m.active_network_jobs(), 2);
    let effects = m.handle_message(JobMessage::WorkerFinished, l);
    assert_eq!(spawned(&effects), vec![4]);
    assert_eq!(m.active_network_jobs(), 2);
}

#[test]
fn no_more_workers_than_the_process_limit() {
    let l = limits(8, 3);
    let mut m = JobManager::new();
    let mut started = Vec::new();
    for id in 1..=5u128 {
        let effects = add(&mut m, id, &format!("https://example.com/{}", id), l);
        started.extend(spawned(&effects));
    }
    assert_eq!(started, vec![1, 2, 3]);
    assert_eq!(m.active_process_instances(), 3);
    assert_eq!(m.active_network_jobs(), 3);
}

#[test]
fn nothing_starts_under_a_limit_of_zero() {
    let l = limits(0, 10);
    let mut m = JobManager::new();
    let effects = add(&mut m, 1, "https://example.com/a", l);
    assert_eq!(spawned(&effects).len(), 0);
    assert!(matches!(effects.last(), Some(Effect::Reply(AddJobReply::Accepted))));
    let effects = m.handle_message(JobMessage::WorkerFinished, limits(1, 10));
    assert_eq!(spawned(&effects), vec![1]);
}

#[test]
fn cancel_kills_and_is_final() {
    let l = limits(4, 10);
    let mut m = JobManager::new();
    add(&mut m, 1, "https://example.com/a", l);
    m.handle_message(JobMessage::ProcessStarted { id: 1, pid: 99 }, l);
    let before = job(&m, 1).sequence_id;
    let effects = m.handle_message(JobMessage::CancelJob { id: 1 }, l);
    assert_eq!(effects.len(), 2);
    assert!(matches!(&effects[0], Effect::Kill(99)));
    assert!(matches!(&effects[1], Effect::EmitCancelled(1)));
    let j = job(&m, 1);
    assert_eq!(j.status, JobStatus::Cancelled);
    assert!(j.sequence_id > before);
    assert_eq!(m.persistence_snapshot().unwrap().len(), 0);

    let after_cancel = job(&m, 1).sequence_id;
    let effects = m.handle_message(
        JobMessage::JobCompleted { id: 1, output_path: "/library/a.mp4".to_string() },
        l,
    );
    assert!(effects.is_empty());
    let effects = m.handle_message(failure(1, "Process Failed (Exit Code 1)", "boom"), l);
    assert!(effects.is_empty());
    let effects = m.handle_message(progress(1, 7_000, "Downloading"), l);
    assert!(effects.is_empty());
    let effects = m.handle_message(
        JobMessage::FileConflict {
            id: 1,
            temp_path: "/tmp/a.mp4".to_string(),
            output_path: "/library/a.mp4".to_string(),
        },
        l,
    );
    assert!(effects.is_empty());
    let j = job(&m, 1);
    assert_eq!(j.status, JobStatus::Cancelled);
    assert_eq!(j.sequence_id, after_cancel);
    assert_eq!(j.output_path, None);
    assert_eq!(j.error, None);
    assert!(m.flush_updates().is_none());
}

#[test]
fn process_of_a_cancelled_job_is_killed_at_once() {
    let l = limits(4, 10);
    let mut m = JobManager::new();
    add(&mut m, 1, "https://example.com/a", l);
    let effects = m.handle_message(JobMessage::CancelJob { id: 1 }, l);
    assert_eq!(effects.len(), 1);
    assert!(matches!(&effects[0], Effect::EmitCancelled(1)));
    let effects = m.handle_message(JobMessage::ProcessStarted { id: 1, pid: 55 }, l);
    assert_eq!(effects.len(), 1);
    assert!(matches!(&effects[0], Effect::Kill(55)));
    let j = job(&m, 1);
    assert_eq!(j.status, JobStatus::Cancelled);
    assert_eq!(j.pid, None);
}

#[test]
fn cancel_of_an_unknown_job_still_reports() {
    let l = limits(4, 10);
    let mut m = JobManager::new();
    let effects = m.handle_message(JobMessage::CancelJob { id: 9 }, l);
    assert_eq!(effects.len(), 1);
    assert!(matches!(&effects[0], Effect::EmitCancelled(9)));
    assert_eq!(m.sync_state().len(), 0);
}

#[test]
fn cancelled_job_in_the_queue_is_dropped() {
    let l = limits(1, 10);
    let mut m = JobManager::new();
    add(&mut m, 1, "https://example.com/a", l);
    add(&mut m, 2, "https://example.com/b", l);
    add(&mut m, 3, "https://example.com/c", l);
    m.handle_message(JobMessage::CancelJob { id: 2 }, l);
    let effects = m.handle_message(JobMessage::WorkerFinished, l);
    assert_eq!(spawned(&effects), vec![3]);
    assert_eq!(m.active_network_jobs(), 1);
}

#[test]
fn sequence_ids_grow_with_every_change() {
    let l = limits(4, 10);
    let mut m = JobManager::new();
    add(&mut m, 1, "https://example.com/a", l);
    let mut last = job(&m, 1).sequence_id;
    m.handle_message(JobMessage::ProcessStarted { id: 1, pid: 1 }, l);
    assert!(job(&m, 1).sequence_id > last);
    last = job(&m, 1).sequence_id;
    let mut emitted = Vec::new();
    for step in 1..=5u32 {
        m.handle_message(progress(1, step * 1_000, "Downloading"), l);
        assert!(job(&m, 1).sequence_id > last);
        last = job(&m, 1).sequence_id;
        let batch = m.flush_updates().expect("the job has changed");
        assert_eq!(batch.updates.len(), 1);
        assert_eq!(batch.updates[0].sequence_id, last);
        emitted.push(batch.updates[0].sequence_id);
    }
    for pair in emitted.windows(2) {
        assert!(pair[0] < pair[1]);
    }
}

#[test]
fn updates_are_coalesced_per_job() {
    let l = limits(4, 10);
    let mut m = JobManager::new();
    add(&mut m, 1, "https://example.com/a", l);
    add(&mut m, 2, "https://example.com/b", l);
    assert!(m.flush_updates().is_none());
    m.handle_message(progress(1, 1_000, "Downloading"), l);
    m.handle_message(progress(2, 2_000, "Downloading"), l);
    m.handle_message(progress(1, 3_000, "Merging Formats"), l);
    let batch = m.flush_updates().expect("two jobs have changed");
    assert_eq!(batch.updates.len(), 2);
    let first = batch.updates.iter().find(|u| u.job_id == 1).unwrap();
    assert_eq!(first.percentage, 3_000);
    assert_eq!(first.phase.as_deref(), Some("Merging Formats"));
    assert_eq!(first.speed, "1.00 MiB/s");
    assert_eq!(first.eta, "00:10");
    assert_eq!(first.filename.as_deref(), Some("clip.mp4"));
    assert_eq!(first.sequence_id, job(&m, 1).sequence_id);
    let second = batch.updates.iter().find(|u| u.job_id == 2).unwrap();
    assert_eq!(second.percentage, 2_000);
    assert!(m.flush_updates().is_none());
}

#[test]
fn progress_without_a_file_name_keeps_the_last_one() {
    let l = limits(4, 10);
    let mut m = JobManager::new();
    add(&mut m, 1, "https://example.com/a", l);
    m.handle_message(progress(1, 1_000, "Downloading"), l);
    m.handle_message(
        JobMessage::UpdateProgress {
            id: 1,
            percentage: 2_000,
            speed: "N/A".to_string(),
            eta: "N/A".to_string(),
            filename: None,
            phase: "Finalizing".to_string(),
        },
        l,
    );
    let j = job(&m, 1);
    assert_eq!(j.filename.as_deref(), Some("clip.mp4"));
    assert_eq!(j.phase.as_deref(), Some("Finalizing"));
    assert_eq!(j.progress, 2_000);
}

#[test]
fn progress_for_an_unknown_job_is_dropped() {
    let l = limits(4, 10);
    let mut m = JobManager::new();
    m.handle_message(progress(5, 1_000, "Downloading"), l);
    assert!(m.flush_updates().is_none());
}

#[test]
fn fatal_error_texts() {
    assert!(is_fatal_error("ERROR: Video unavailable"));
    assert!(is_fatal_error("This video has been removed by the uploader"));
    assert!(is_fatal_error("ERROR: Video has been removed by the uploader"));
    assert!(is_fatal_error("video has been removed"));
    assert!(!is_fatal_error("video has been moved"));
    assert!(is_fatal_error("fragment 3 not received"));
    assert!(is_fatal_error("HTTP Error 404: Not Found"));
    assert!(!is_fatal_error("fragment 3 failed"));
    assert!(!is_fatal_error("HTTP Error 403: Forbidden"));
    assert!(!is_fatal_error(""));
}

#[test]
fn fatal_failure_leaves_the_registry() {
    let l = limits(4, 10);
    let mut m = JobManager::new();
    add(&mut m, 1, "https://example.com/a", l);
    let effects = m.handle_message(failure(1, "Process Failed (Exit Code 1)", "ERROR: Video unavailable"), l);
    assert_eq!(effects.len(), 1);
    assert!(matches!(&effects[0], Effect::EmitError(p) if p.job_id == 1 && p.exit_code == Some(1)));
    assert_eq!(m.persistence_snapshot().unwrap().len(), 0);
    let j = job(&m, 1);
    assert_eq!(j.status, JobStatus::Error);
    assert_eq!(j.error.as_deref(), Some("Process Failed (Exit Code 1)"));
    assert_eq!(j.stderr.as_deref(), Some("ERROR: Video unavailable"));
    assert_eq!(j.logs.as_deref(), Some("line one\nline two"));
    assert_eq!(j.exit_code, Some(1));
}

#[test]
fn other_failure_stays_in_the_registry_for_a_retry() {
    let l = limits(4, 10);
    let mut m = JobManager::new();
    add(&mut m, 1, "https://example.com/a", l);
    let effects = m.handle_message(failure(1, "Authentication Required", "Sign in to confirm"), l);
    assert_eq!(effects.len(), 1);
    let saved = m.persistence_snapshot().unwrap();
    assert_eq!(saved.len(), 1);
    assert_eq!(saved[0].status.as_deref(), Some("error"));
    assert_eq!(saved[0].error.as_deref(), Some("Authentication Required"));
    assert_eq!(saved[0].stderr.as_deref(), Some("Sign in to confirm"));
}

#[test]
fn conflict_is_reported_and_kept_for_a_retry() {
    let l = limits(4, 10);
    let mut m = JobManager::new();
    add(&mut m, 1, "https://example.com/a", l);
    let effects = m.handle_message(
        JobMessage::FileConflict {
            id: 1,
            temp_path: "/tmp/stage/a.mp4".to_string(),
            output_path: "/library/a.mp4".to_string(),
        },
        l,
    );
    assert_eq!(effects.len(), 1);
    assert!(matches!(
        &effects[0],
        Effect::EmitConflict { job_id: 1, temp_path, output_path }
            if temp_path == "/tmp/stage/a.mp4" && output_path == "/library/a.mp4"
    ));
    let j = job(&m, 1);
    assert_eq!(j.status, JobStatus::Error);
    assert_eq!(j.error.as_deref(), Some("Destination file already exists"));
    assert_eq!(m.persistence_snapshot().unwrap().len(), 1);
}

#[test]
fn worker_finished_saturates_at_zero() {
    let l = limits(4, 10);
    let mut m = JobManager::new();
    let effects = m.handle_message(JobMessage::WorkerFinished, l);
    assert_eq!(m.active_network_jobs(), 0);
    assert_eq!(m.active_process_instances(), 0);
    assert_eq!(effects.len(), 1);
    assert!(matches!(&effects[0], Effect::CleanTemp));
}

#[test]
fn notification_counts_the_workers_of_a_session() {
    let l = limits(4, 10);
    let mut m = JobManager::new();
    add(&mut m, 1, "https://example.com/a", l);
    add(&mut m, 2, "https://example.com/b", l);
    let effects = m.handle_message(JobMessage::WorkerFinished, l);
    assert!(effects.is_empty());
    let effects = m.handle_message(JobMessage::WorkerFinished, l);
    assert_eq!(effects.len(), 1);
    assert!(matches!(&effects[0], Effect::Notify(2)));
}

#[test]
fn resume_takes_up_what_is_not_in_the_table() {
    let l = limits(1, 10);
    let mut m = JobManager::new();
    add(&mut m, 1, "https://example.com/a", l);
    let mut failed = queued(3, "https://example.com/c");
    failed.status = Some("error".to_string());
    failed.error = Some("Authentication Required".to_string());
    failed.stderr = Some("Sign in to confirm".to_string());
    let from_disk = vec![
        queued(1, "https://example.com/a"),
        queued(2, "https://example.com/b"),
        failed,
        queued(2, "https://example.com/b"),
        queued(4, "https://example.com/d"),
    ];
    let effects = m.handle_message(JobMessage::ResumePending { jobs: from_disk }, l);
    assert_eq!(effects.len(), 1);
    match &effects[0] {
        Effect::Resumed(jobs) => {
            let ids: Vec<u128> = jobs.iter().map(|j| j.id).collect();
            assert_eq!(ids, vec![2, 3, 4]);
        }
        other => panic!("unexpected effect {:?}", other),
    }
    assert_eq!(m.sync_state().len(), 4);
    let j = job(&m, 3);
    assert_eq!(j.status, JobStatus::Error);
    assert_eq!(j.error.as_deref(), Some("Authentication Required"));
    assert_eq!(j.stderr.as_deref(), Some("Sign in to confirm"));
    assert_eq!(job(&m, 2).status, JobStatus::Pending);
    let effects = m.handle_message(JobMessage::WorkerFinished, l);
    assert_eq!(spawned(&effects), vec![2]);
    let effects = m.handle_message(JobMessage::WorkerFinished, l);
    assert_eq!(spawned(&effects), vec![4]);
    let effects = m.handle_message(JobMessage::WorkerFinished, l);
    assert_eq!(spawned(&effects).len(), 0);
}

#[test]
fn resume_starts_workers_while_slots_are_free() {
    let l = limits(2, 10);
    let mut m = JobManager::new();
    let from_disk = vec![
        queued(1, "https://example.com/a"),
        queued(2, "https://example.com/b"),
        queued(3, "https://example.com/c"),
    ];
    let effects = m.handle_message(JobMessage::ResumePending { jobs: from_disk }, l);
    assert_eq!(spawned(&effects), vec![1, 2]);
    assert!(matches!(effects.last(), Some(Effect::Resumed(jobs)) if jobs.len() == 3));
}

#[test]
fn clear_pending_cleans_only_when_idle() {
    let l = limits(4, 10);
    let mut m = JobManager::new();
    let effects = m.handle_message(JobMessage::ClearPending, l);
    assert_eq!(effects.len(), 2);
    assert!(matches!(&effects[0], Effect::ClearPersistence));
    assert!(matches!(&effects[1], Effect::CleanTemp));
    add(&mut m, 1, "https://example.com/a", l);
    let effects = m.handle_message(JobMessage::ClearPending, l);
    assert_eq!(effects.len(), 1);
    assert!(matches!(&effects[0], Effect::ClearPersistence));
}

#[test]
fn persistence_is_written_only_when_dirty() {
    let l = limits(4, 10);
    let mut m = JobManager::new();
    assert!(m.persistence_snapshot().is_none());
    add(&mut m, 1, "https://example.com/a", l);
    assert!(m.persistence_snapshot().is_some());
    m.mark_persisted();
    assert!(m.persistence_snapshot().is_none());
    m.handle_message(JobMessage::CancelJob { id: 1 }, l);
    assert_eq!(m.persistence_snapshot().unwrap().len(), 0);
}

#[test]
fn shutdown_kills_every_known_process() {
    let l = limits(4, 10);
    let mut m = JobManager::new();
    add(&mut m, 1, "https://example.com/a", l);
    add(&mut m, 2, "https://example.com/b", l);
    add(&mut m, 3, "https://example.com/c", l);
    m.handle_message(JobMessage::ProcessStarted { id: 1, pid: 11 }, l);
    m.handle_message(JobMessage::ProcessStarted { id: 3, pid: 33 }, l);
    let effects = m.begin_shutdown();
    assert_eq!(effects.len(), 2);
    assert!(matches!(&effects[0], Effect::Kill(11)));
    assert!(matches!(&effects[1], Effect::Kill(33)));
    assert!(!m.is_drained());
    for _ in 0..3 {
        m.handle_message(JobMessage::WorkerFinished, l);
    }
    assert!(m.is_drained());
    assert!(m.finish_shutdown().is_empty());
}

#[test]
fn taskbar_shows_the_mean_of_the_active_jobs() {
    let l = limits(4, 10);
    let mut m = JobManager::new();
    assert_eq!(m.taskbar_progress(), None);
    add(&mut m, 1, "https://example.com/a", l);
    add(&mut m, 2, "https://example.com/b", l);
    add(&mut m, 3, "https://example.com/c", l);
    m.handle_message(progress(1, 2_000, "Downloading"), l);
    m.handle_message(progress(2, 5_001, "Downloading"), l);
    assert_eq!(m.taskbar_progress(), Some((2_333, false)));
    m.handle_message(failure(3, "Process Failed (Exit Code 1)", "boom"), l);
    assert_eq!(m.taskbar_progress(), Some((3_500, true)));
    m.handle_message(JobMessage::CancelJob { id: 1 }, l);
    m.handle_message(JobMessage::CancelJob { id: 2 }, l);
    assert_eq!(m.taskbar_progress(), None);
}

#[test]
fn try_add_hands_back_the_answer() {
    let l = limits(4, 10);
    let mut m = JobManager::new();
    let (reply, effects) = m.try_add(queued(1, "https://example.com/a"), l);
    assert_eq!(reply, AddJobReply::Accepted);
    assert_eq!(spawned(&effects), vec![1]);
    let (reply, effects) = m.try_add(queued(1, "https://example.com/a"), l);
    assert_eq!(reply, AddJobReply::AlreadyExists);
    assert!(effects.is_empty());
}

#[test]
fn new_job_has_nothing_set() {
    let j = Job::new(7, "https://example.com/a".to_string());
    assert_eq!(j.id, 7);
    assert_eq!(j.url, "https://example.com/a");
    assert_eq!(j.status, JobStatus::Pending);
    assert_eq!(j.progress, 0);
    assert_eq!(j.sequence_id, 0);
    assert_eq!(j.pid, None);
    assert_eq!(j.preset, None);
    assert_eq!(j.output_path, None);
}

#[test]
fn removed_video_leaves_the_registry() {
    let l = limits(4, 10);
    let mut m = JobManager::new();
    add(&mut m, 1, "https://example.com/a", l);
    m.handle_message(
        failure(1, "Process Failed (Exit Code 1)", "ERROR: Video has been removed by the uploader"),
        l,
    );
    assert_eq!(m.persistence_snapshot().unwrap().len(), 0);
}

#[test]
fn process_queue_fills_only_free_slots() {
    let mut m = JobManager::new();
    for id in 1..=5u128 {
        add(&mut m, id, &format!("https://example.com/{}", id), limits(0, 10));
    }
    assert_eq!(m.active_network_jobs(), 0);
    let effects = m.process_queue(limits(2, 10));
    assert_eq!(spawned(&effects), vec![1, 2]);
    assert_eq!(effects.len(), 2);
    assert_eq!(m.active_network_jobs(), 2);
    assert_eq!(m.active_process_instances(), 2);
    assert!(m.process_queue(limits(2, 10)).is_empty());
    let effects = m.process_queue(limits(10, 3));
    assert_eq!(spawned(&effects), vec![3]);
    assert_eq!(m.active_process_instances(), 3);
    assert!(m.process_queue(limits(1, 1)).is_empty());
    assert_eq!(m.active_network_jobs(), 3);
    m.handle_message(JobMessage::CancelJob { id: 4 }, limits(0, 0));
    let effects = m.process_queue(limits(10, 10));
    assert_eq!(spawned(&effects), vec![5]);
}
