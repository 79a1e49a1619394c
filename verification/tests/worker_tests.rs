use multiyt_dlp::models::{DownloadFormatPreset, JobMessage, QueuedJob};
use multiyt_dlp::stream::StreamState;
use multiyt_dlp::worker::{
    after_exit, artifact_candidates, construct_error, decide_exit, extension, finish_message,
    first_media_file, initial_update, is_media_file, join_path, missing_artifact,
    missing_directory, moving_update, sanitized, sanitizing_update, spawn_failure,
    spawned_messages, ExitDecision, MoveAction, MoveEvent, MoveOutcome, MoveResult, RobustMove,
    Worker, WorkerCommand, WorkerEvent, WorkerPhase, MAX_WALK_DEPTH,
};

const STAGE: &str = "/tmp/stage/7";

fn queued(restrict: bool) -> QueuedJob {
    QueuedJob {
        id: 7,
        url: "https://example.com/v?id=1".to_string(),
        download_path: None,
        format_preset: DownloadFormatPreset::Best,
        video_resolution: "best".to_string(),
        embed_metadata: false,
        embed_thumbnail: false,
        filename_template: "%(title)s.%(ext)s".to_string(),
        restrict_filenames: restrict,
        live_from_start: false,
        status: None,
        error: None,
        stderr: None,
    }
}

fn state_with(out: &[&str], err: &[&str]) -> StreamState {
    let mut state = StreamState::new();
    for line in out {
        state.on_line(line, false, STAGE);
    }
    for line in err {
        state.on_line(line, true, STAGE);
    }
    state
}

fn error_of(msg: &JobMessage) -> (String, Option<i32>, String, String) {
    match msg {
        JobMessage::JobError { id, payload } => {
            assert_eq!(*id, payload.job_id);
            (
                payload.error.clone(),
                payload.exit_code,
                payload.stderr.clone(),
                payload.logs.clone(),
            )
        }
        other => panic!("not an error: {:?}", other),
    }
}

#[test]
fn worker_opens_with_an_initial_update() {
    let u = initial_update();
    assert_eq!(u.percentage, 0);
    assert_eq!(u.speed, "Starting...");
    assert_eq!(u.eta, "Calculating...");
    assert_eq!(u.filename, None);
    assert_eq!(u.phase, "Initializing Process...");
    let msg = u.into_message(7);
    assert!(matches!(
        msg,
        JobMessage::UpdateProgress { id: 7, percentage: 0, ref phase, .. } if phase == "Initializing Process..."
    ));
}

#[test]
fn other_fixed_updates() {
    let u = sanitizing_update();
    assert_eq!(u.phase, "Sanitizing Filenames (Retry)");
    assert_eq!(u.speed, "Retrying...");
    assert_eq!(u.eta, "--");
    let u = moving_update(Some("clip.mp4".to_string()));
    assert_eq!(u.percentage, 10_000);
    assert_eq!(u.phase, "Moving to Library");
    assert_eq!(u.speed, "Finalizing");
    assert_eq!(u.eta, "00:00");
    assert_eq!(u.filename.as_deref(), Some("clip.mp4"));
}

#[test]
fn spawned_worker_reports_its_process() {
    let msgs = spawned_messages(&queued(false), Some(123));
    assert_eq!(msgs.len(), 1);
    assert!(matches!(msgs[0], JobMessage::ProcessStarted { id: 7, pid: 123 }));
    let msgs = spawned_messages(&queued(true), Some(123));
    assert_eq!(msgs.len(), 2);
    assert!(matches!(msgs[0], JobMessage::ProcessStarted { id: 7, pid: 123 }));
    assert!(matches!(
        msgs[1],
        JobMessage::UpdateProgress { id: 7, ref phase, .. } if phase == "Sanitizing Filenames (Retry)"
    ));
    assert_eq!(spawned_messages(&queued(false), None).len(), 0);
}

#[test]
fn error_message_joins_the_log_lines() {
    let logs = vec!["a".to_string(), "b".to_string(), "c".to_string()];
    let msg = construct_error(7, "boom".to_string(), Some(2), "err".to_string(), &logs);
    assert_eq!(error_of(&msg), ("boom".to_string(), Some(2), "err".to_string(), "a\nb\nc".to_string()));
    let msg = construct_error(7, "boom".to_string(), None, String::new(), &Vec::new());
    assert_eq!(error_of(&msg), ("boom".to_string(), None, String::new(), String::new()));
}

#[test]
fn spawn_failure_names_the_reason() {
    let msg = spawn_failure(7, "No such file or directory (os error 2)");
    assert_eq!(
        error_of(&msg),
        (
            "Failed to spawn process: No such file or directory (os error 2)".to_string(),
            None,
            "No such file or directory (os error 2)".to_string(),
            String::new()
        )
    );
    let msg = missing_directory(7);
    assert_eq!(error_of(&msg).0, "Missing download dir");
}

#[test]
fn success_leads_to_the_search_for_the_file() {
    let state = state_with(&[], &[]);
    assert!(matches!(after_exit(&queued(false), true, Some(0), &state), ExitDecision::Locate));
    assert!(matches!(decide_exit(7, true, Some(0), false, true, &state), ExitDecision::Locate));
}

#[test]
fn file_name_fault_is_retried_once_with_restricted_names() {
    let state = state_with(
        &["[download] Destination: what?.mp4"],
        &["ERROR: unable to open for writing: [Errno 22] Invalid argument: 'what?.mp4'"],
    );
    assert!(matches!(
        after_exit(&queued(false), false, Some(1), &state),
        ExitDecision::RetrySanitized
    ));
    let second = sanitized(&queued(false));
    assert!(second.restrict_filenames);
    assert_eq!(second.id, 7);
    assert_eq!(second.url, "https://example.com/v?id=1");
    match after_exit(&second, false, Some(1), &state) {
        ExitDecision::Fail(msg) => {
            let (error, code, stderr, logs) = error_of(&msg);
            assert_eq!(error, "Process Failed (Exit Code 1)");
            assert_eq!(code, Some(1));
            assert_eq!(
                stderr,
                "ERROR: unable to open for writing: [Errno 22] Invalid argument: 'what?.mp4'"
            );
            assert_eq!(
                logs,
                "[download] Destination: what?.mp4\nERROR: unable to open for writing: [Errno 22] Invalid argument: 'what?.mp4'"
            );
        }
        other => panic!("unexpected decision {:?}", other),
    }
}

#[test]
fn file_name_faults_are_told_by_pattern() {
    for line in [
        "ERROR: [Errno 2] No such file or directory",
        "error: invalid ARGUMENT",
        "ERROR: file cannot be written",
        "[WinError 123] The filename is incorrect",
        "ERROR: Postprocessing: Error opening input files",
    ] {
        let state = state_with(&[], &[line]);
        assert!(matches!(
            after_exit(&queued(false), false, Some(1), &state),
            ExitDecision::RetrySanitized
        ));
    }
    let state = state_with(&[], &["ERROR: HTTP Error 403: Forbidden"]);
    assert!(matches!(after_exit(&queued(false), false, Some(1), &state), ExitDecision::Fail(_)));
}

#[test]
fn short_messages_of_a_failed_run() {
    let state = state_with(&[], &["ERROR: No supported JavaScript runtime could be found"]);
    match decide_exit(7, false, Some(1), false, false, &state) {
        ExitDecision::Fail(msg) => assert_eq!(error_of(&msg).0, "Missing compliant JS Runtime"),
        other => panic!("unexpected decision {:?}", other),
    }
    let state = state_with(&[], &["ERROR: Sign in to confirm you're not a bot"]);
    match decide_exit(7, false, Some(1), false, false, &state) {
        ExitDecision::Fail(msg) => assert_eq!(error_of(&msg).0, "Authentication Required"),
        other => panic!("unexpected decision {:?}", other),
    }
    let state = state_with(&["on stdout: Sign in to confirm"], &["boom"]);
    match decide_exit(7, false, None, false, false, &state) {
        ExitDecision::Fail(msg) => {
            let (error, code, stderr, _) = error_of(&msg);
            assert_eq!(error, "Process Failed (Exit Code -1)");
            assert_eq!(code, None);
            assert_eq!(stderr, "boom");
        }
        other => panic!("unexpected decision {:?}", other),
    }
    let state = state_with(&[], &[]);
    match decide_exit(7, false, Some(-9), true, true, &state) {
        ExitDecision::Fail(msg) => assert_eq!(error_of(&msg).0, "Process Failed (Exit Code -9)"),
        other => panic!("unexpected decision {:?}", other),
    }
    match decide_exit(7, false, Some(i32::MIN), true, true, &state) {
        ExitDecision::Fail(msg) => {
            assert_eq!(error_of(&msg).0, "Process Failed (Exit Code -2147483648)")
        }
        other => panic!("unexpected decision {:?}", other),
    }
}

#[test]
fn joined_paths() {
    assert_eq!(join_path("/a/b", "c.mp4"), "/a/b/c.mp4");
    assert_eq!(join_path("/a/b/", "c.mp4"), "/a/b/c.mp4");
    assert_eq!(join_path("C:\\a\\", "c.mp4"), "C:\\a\\c.mp4");
    assert_eq!(join_path("", "c.mp4"), "c.mp4");
}

#[test]
fn finished_file_is_looked_for_at_the_printed_path_first() {
    let mut state = StreamState::new();
    assert_eq!(artifact_candidates(&state, STAGE).len(), 0);
    state.on_line("{\"filename\": \"part.f137.mp4\"}", false, STAGE);
    assert_eq!(artifact_candidates(&state, STAGE), vec!["/tmp/stage/7/part.f137.mp4"]);
    state.on_line("/tmp/stage/7/final.mp4", false, STAGE);
    assert_eq!(
        artifact_candidates(&state, STAGE),
        vec!["/tmp/stage/7/final.mp4", "/tmp/stage/7/final.mp4"]
    );
    assert_eq!(MAX_WALK_DEPTH, 3);
}

#[test]
fn media_files_are_told_by_extension() {
    for name in ["a.mp4", "a.mkv", "a.webm", "a.mp3", "a.flac", "a.m4a", "a.wav", "/x.y/a.b.mp4"] {
        assert!(is_media_file(name), "{}", name);
    }
    for name in ["a.part", "a.MP4", "mp4", ".mp4", "a.mp4.part", "a.", "/dir.mp4/file", ""] {
        assert!(!is_media_file(name), "{}", name);
    }
    assert_eq!(extension("a.tar.gz").as_deref(), Some("gz"));
    assert_eq!(extension(".hidden"), None);
    assert_eq!(extension("noext"), None);
    assert_eq!(extension("dir.x/noext"), None);
}

#[test]
fn first_media_file_is_picked() {
    let paths = vec![
        "/s/a.part".to_string(),
        "/s/b.jpg".to_string(),
        "/s/c.mkv".to_string(),
        "/s/d.mp4".to_string(),
    ];
    assert_eq!(first_media_file(&paths), Some(2));
    assert_eq!(first_media_file(&vec!["/s/a.part".to_string()]), None);
    assert_eq!(first_media_file(&Vec::new()), None);
}

#[test]
fn move_outcomes_end_the_run() {
    let state = state_with(&["line"], &[]);
    let (msg, keep) = finish_message(7, &MoveOutcome::Moved, "/s/a.mp4", "/lib/a.mp4", Some(0), &state);
    assert!(matches!(msg, JobMessage::JobCompleted { id: 7, ref output_path } if output_path == "/lib/a.mp4"));
    assert!(!keep);
    let (msg, keep) =
        finish_message(7, &MoveOutcome::Conflict, "/s/a.mp4", "/lib/a.mp4", Some(0), &state);
    assert!(matches!(
        msg,
        JobMessage::FileConflict { id: 7, ref temp_path, ref output_path }
            if temp_path == "/s/a.mp4" && output_path == "/lib/a.mp4"
    ));
    assert!(keep);
    let (msg, keep) = finish_message(
        7,
        &MoveOutcome::Failed("disk full".to_string()),
        "/s/a.mp4",
        "/lib/a.mp4",
        Some(0),
        &state,
    );
    assert_eq!(
        error_of(&msg),
        ("File move failed: disk full".to_string(), Some(0), "disk full".to_string(), "line".to_string())
    );
    assert!(!keep);
    let msg = missing_artifact(7, Some(0), &state);
    assert_eq!(
        error_of(&msg),
        (
            "Download succeeded but file not found".to_string(),
            Some(0),
            "Could not locate output file in temp dir".to_string(),
            "line".to_string()
        )
    );
}

#[test]
fn existing_destination_is_never_overwritten() {
    let mut mv = RobustMove::new();
    assert_eq!(
        mv.on_event(MoveEvent::DestinationExists),
        MoveAction::Finish(MoveResult::AlreadyExists)
    );
    assert_eq!(mv.on_event(MoveEvent::RenameFailed), MoveAction::RetryAfter(200));
    assert_eq!(
        mv.on_event(MoveEvent::DestinationExists),
        MoveAction::Finish(MoveResult::AlreadyExists)
    );
    assert_eq!(
        mv.on_event(MoveEvent::RenameRefused),
        MoveAction::Finish(MoveResult::AlreadyExists)
    );
}

#[test]
fn rename_is_retried_three_times_before_the_copy() {
    let mut mv = RobustMove::new();
    assert_eq!(mv.on_event(MoveEvent::RenameFailed), MoveAction::RetryAfter(200));
    assert_eq!(mv.on_event(MoveEvent::RenameFailed), MoveAction::RetryAfter(200));
    assert_eq!(mv.on_event(MoveEvent::RenameFailed), MoveAction::RetryAfter(200));
    assert_eq!(mv.on_event(MoveEvent::RenameFailed), MoveAction::CopyThenDelete);
    assert_eq!(mv.on_event(MoveEvent::Copied), MoveAction::Finish(MoveResult::Moved));
    let mut mv = RobustMove::new();
    for _ in 0..4 {
        mv.on_event(MoveEvent::RenameFailed);
    }
    assert_eq!(mv.on_event(MoveEvent::CopyFailed), MoveAction::Finish(MoveResult::Failed));
    let mut mv = RobustMove::new();
    assert_eq!(mv.on_event(MoveEvent::Renamed), MoveAction::Finish(MoveResult::Moved));
    let mut mv = RobustMove::new();
    for _ in 0..300 {
        mv.on_event(MoveEvent::RenameFailed);
    }
    assert_eq!(mv.on_event(MoveEvent::RenameFailed), MoveAction::CopyThenDelete);
}

fn line(text: &str, is_stderr: bool) -> WorkerEvent {
    WorkerEvent::Line { line: text.to_string(), is_stderr }
}

#[test]
fn worker_runs_from_the_first_update_to_its_end() {
    let mut w = Worker::new(queued(false), STAGE.to_string());
    assert_eq!(w.phase(), WorkerPhase::Created);
    let turn = w.on_event(WorkerEvent::Begin);
    assert_eq!(turn.reports.len(), 1);
    assert!(matches!(
        turn.reports[0],
        JobMessage::UpdateProgress { id: 7, percentage: 0, ref phase, .. } if phase == "Initializing Process..."
    ));
    assert!(matches!(turn.command, WorkerCommand::Prepare(ref j) if j.id == 7 && !j.restrict_filenames));
    assert_eq!(w.phase(), WorkerPhase::Preparing);

    let turn = w.on_event(WorkerEvent::Spawned(Some(4242)));
    assert_eq!(turn.reports.len(), 1);
    assert!(matches!(turn.reports[0], JobMessage::ProcessStarted { id: 7, pid: 4242 }));
    assert!(matches!(turn.command, WorkerCommand::ReadOutput));

    let turn = w.on_event(line("{\"downloaded_bytes\": 1, \"total_bytes\": 4, \"filename\": \"clip.mp4\"}", false));
    assert_eq!(turn.reports.len(), 1);
    assert!(matches!(
        turn.reports[0],
        JobMessage::UpdateProgress { id: 7, percentage: 2_500, ref phase, .. } if phase == "Downloading"
    ));
    assert!(matches!(turn.command, WorkerCommand::ReadOutput));
    let turn = w.on_event(line("[youtube] something else", false));
    assert_eq!(turn.reports.len(), 0);
    assert!(matches!(turn.command, WorkerCommand::ReadOutput));
    let turn = w.on_event(line("/tmp/stage/7/clip.mp4", false));
    assert_eq!(turn.reports.len(), 0);

    let turn = w.on_event(WorkerEvent::Exited { succeeded: true, exit_code: Some(0) });
    assert_eq!(turn.reports.len(), 0);
    assert!(matches!(
        turn.command,
        WorkerCommand::Locate(ref c) if *c == vec!["/tmp/stage/7/clip.mp4".to_string(), "/tmp/stage/7/clip.mp4".to_string()]
    ));
    assert_eq!(w.phase(), WorkerPhase::Locating);

    let turn = w.on_event(WorkerEvent::Located(Some("/tmp/stage/7/clip.mp4".to_string())));
    assert_eq!(turn.reports.len(), 1);
    assert!(matches!(
        turn.reports[0],
        JobMessage::UpdateProgress { id: 7, percentage: 10_000, ref phase, ref filename, .. }
            if phase == "Moving to Library" && filename.as_deref() == Some("clip.mp4")
    ));
    assert!(matches!(
        turn.command,
        WorkerCommand::Move { ref staged, ref file_name } if staged == "/tmp/stage/7/clip.mp4" && file_name == "clip.mp4"
    ));

    let turn = w.on_event(WorkerEvent::Moved {
        outcome: MoveOutcome::Moved,
        destination: "/library/clip.mp4".to_string(),
    });
    assert_eq!(turn.reports.len(), 1);
    assert!(matches!(
        turn.reports[0],
        JobMessage::JobCompleted { id: 7, ref output_path } if output_path == "/library/clip.mp4"
    ));
    assert!(matches!(turn.command, WorkerCommand::End { remove_stage: true }));
    assert!(!w.is_done());

    let turn = w.on_event(WorkerEvent::CleanedUp);
    assert_eq!(turn.reports.len(), 1);
    assert!(matches!(turn.reports[0], JobMessage::WorkerFinished));
    assert!(matches!(turn.command, WorkerCommand::Nothing));
    assert!(w.is_done());

    for event in [WorkerEvent::CleanedUp, WorkerEvent::Begin, WorkerEvent::Spawned(Some(1))] {
        let turn = w.on_event(event);
        assert_eq!(turn.reports.len(), 0);
        assert!(matches!(turn.command, WorkerCommand::Nothing));
        assert!(w.is_done());
    }
}

#[test]
fn worker_retries_once_with_restricted_names() {
    let mut w = Worker::new(queued(false), STAGE.to_string());
    w.on_event(WorkerEvent::Begin);
    w.on_event(WorkerEvent::Spawned(Some(1)));
    w.on_event(line("ERROR: [Errno 22] Invalid argument: 'what?.mp4'", true));
    let turn = w.on_event(WorkerEvent::Exited { succeeded: false, exit_code: Some(1) });
    assert_eq!(turn.reports.len(), 0);
    assert!(matches!(turn.command, WorkerCommand::Prepare(ref j) if j.restrict_filenames && j.id == 7));
    assert_eq!(w.phase(), WorkerPhase::Preparing);

    let turn = w.on_event(WorkerEvent::Spawned(Some(2)));
    assert_eq!(turn.reports.len(), 2);
    assert!(matches!(turn.reports[0], JobMessage::ProcessStarted { id: 7, pid: 2 }));
    assert!(matches!(
        turn.reports[1],
        JobMessage::UpdateProgress { ref phase, .. } if phase == "Sanitizing Filenames (Retry)"
    ));
    w.on_event(line("ERROR: [Errno 22] Invalid argument: 'what_.mp4'", true));
    let turn = w.on_event(WorkerEvent::Exited { succeeded: false, exit_code: Some(1) });
    assert_eq!(turn.reports.len(), 1);
    let (error, code, stderr, logs) = error_of(&turn.reports[0]);
    assert_eq!(error, "Process Failed (Exit Code 1)");
    assert_eq!(code, Some(1));
    assert_eq!(stderr, "ERROR: [Errno 22] Invalid argument: 'what_.mp4'");
    assert_eq!(logs, "ERROR: [Errno 22] Invalid argument: 'what_.mp4'");
    assert!(matches!(turn.command, WorkerCommand::End { remove_stage: true }));
    let turn = w.on_event(WorkerEvent::CleanedUp);
    assert!(matches!(turn.reports[0], JobMessage::WorkerFinished));
}

#[test]
fn worker_without_a_directory_or_a_process_ends_at_once() {
    let mut w = Worker::new(queued(false), STAGE.to_string());
    w.on_event(WorkerEvent::Begin);
    let turn = w.on_event(WorkerEvent::NoDirectory);
    assert_eq!(error_of(&turn.reports[0]).0, "Missing download dir");
    assert!(matches!(turn.command, WorkerCommand::End { remove_stage: false }));
    assert_eq!(w.phase(), WorkerPhase::Ending);

    let mut w = Worker::new(queued(false), STAGE.to_string());
    w.on_event(WorkerEvent::Begin);
    let turn = w.on_event(WorkerEvent::SpawnFailed("not found".to_string()));
    assert_eq!(error_of(&turn.reports[0]).0, "Failed to spawn process: not found");
    assert!(matches!(turn.command, WorkerCommand::End { remove_stage: true }));

    let mut w = Worker::new(queued(false), STAGE.to_string());
    w.on_event(WorkerEvent::Begin);
    let turn = w.on_event(WorkerEvent::Spawned(None));
    assert_eq!(turn.reports.len(), 0);
    assert!(matches!(turn.command, WorkerCommand::ReadOutput));
}

#[test]
fn worker_keeps_the_stage_after_a_conflict() {
    let mut w = Worker::new(queued(false), STAGE.to_string());
    w.on_event(WorkerEvent::Begin);
    w.on_event(WorkerEvent::Spawned(Some(1)));
    w.on_event(WorkerEvent::Exited { succeeded: true, exit_code: Some(0) });
    w.on_event(WorkerEvent::Located(Some("/tmp/stage/7/a.mp4".to_string())));
    let turn = w.on_event(WorkerEvent::Moved {
        outcome: MoveOutcome::Conflict,
        destination: "/library/a.mp4".to_string(),
    });
    assert!(matches!(
        turn.reports[0],
        JobMessage::FileConflict { id: 7, ref temp_path, ref output_path }
            if temp_path == "/tmp/stage/7/a.mp4" && output_path == "/library/a.mp4"
    ));
    assert!(matches!(turn.command, WorkerCommand::End { remove_stage: false }));
}

#[test]
fn worker_reports_a_file_that_is_not_there() {
    for found in [None, Some("/tmp/stage/7/".to_string())] {
        let mut w = Worker::new(queued(false), STAGE.to_string());
        w.on_event(WorkerEvent::Begin);
        w.on_event(WorkerEvent::Spawned(Some(1)));
        w.on_event(line("some output", false));
        w.on_event(WorkerEvent::Exited { succeeded: true, exit_code: Some(0) });
        let turn = w.on_event(WorkerEvent::Located(found));
        assert_eq!(
            error_of(&turn.reports[0]),
            (
                "Download succeeded but file not found".to_string(),
                Some(0),
                "Could not locate output file in temp dir".to_string(),
                "some output".to_string()
            )
        );
        assert!(matches!(turn.command, WorkerCommand::End { remove_stage: true }));
    }
}

#[test]
fn events_out_of_turn_change_nothing() {
    let mut w = Worker::new(queued(false), STAGE.to_string());
    for event in [
        WorkerEvent::Spawned(Some(1)),
        WorkerEvent::CleanedUp,
        WorkerEvent::Exited { succeeded: true, exit_code: Some(0) },
        line("[Merger] x", false),
    ] {
        let turn = w.on_event(event);
        assert_eq!(turn.reports.len(), 0);
        assert!(matches!(turn.command, WorkerCommand::Nothing));
        assert_eq!(w.phase(), WorkerPhase::Created);
    }
    w.on_event(WorkerEvent::Begin);
    let turn = w.on_event(WorkerEvent::Begin);
    assert_eq!(turn.reports.len(), 0);
    assert_eq!(w.phase(), WorkerPhase::Preparing);
    w.on_event(WorkerEvent::Spawned(Some(1)));
    let turn = w.on_event(WorkerEvent::Spawned(Some(2)));
    assert_eq!(turn.reports.len(), 0);
    assert!(matches!(turn.command, WorkerCommand::Nothing));
    assert_eq!(w.phase(), WorkerPhase::Running);
}
