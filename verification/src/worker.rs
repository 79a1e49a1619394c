//! The decisions of the worker that supervises one run of the extraction
//! tool: what to report when the process starts, what to do when it ends,
//! where to look for the finished file, and how to move it into the library.
//!
//! The worker's caller does the outside work (spawning, reading, moving) and
//! asks these functions what each outcome means.

use vstd::prelude::*;
use crate::models::{
    opt_view, DownloadErrorPayload, DownloadErrorPayloadView, JobId, JobMessage, JobMessageView,
    QueuedJob, QueuedJobView, PERCENT_FULL,
};
use crate::pattern::{matches_pattern, pattern_matches};
use crate::retry::RetryPolicy;
use crate::stream::{
    file_name_of, is_separator, last_component, ProgressUpdate, ProgressUpdateView, StreamState,
    StreamView,
};
use crate::text::{
    chars_of, contains, contains_text, copy_range, join, joined, push_signed, push_str, same_chars,
    signed_decimal, string_of, views,
};

verus! {

/// How many lines of output may wait to be read.
pub const LINE_CHANNEL_CAPACITY: usize = 1000;

/// Milliseconds for which a worker lets its last update settle before it
/// moves the finished file.
pub const SETTLE_DELAY_MS: u64 = 50;

/// How deep below the stage directory a finished file is looked for.
pub const MAX_WALK_DEPTH: usize = 3;

/// How often the removal of a stage directory is tried again.
pub const CLEANUP_ATTEMPTS: u32 = 5;

/// The first delay between two tries to remove a stage directory, in milliseconds.
pub const CLEANUP_BASE_DELAY_MS: u64 = 100;

/// The pause between two tries to rename a file, in milliseconds.
pub const MOVE_RETRY_DELAY_MS: u64 = 200;

/// How many failed renames are answered with another try.
pub const MOVE_RETRIES: u8 = 3;

/// The retry policy for removing a stage directory.
pub fn cleanup_policy() -> (policy: RetryPolicy)
    ensures
        policy.max_retries() == CLEANUP_ATTEMPTS,
        policy.attempts_made() == 0,
        policy.base_delay() == CLEANUP_BASE_DELAY_MS,
{
    RetryPolicy::with_base_delay(CLEANUP_ATTEMPTS, CLEANUP_BASE_DELAY_MS)
}

/// The first update of a worker, before anything has happened.
pub open spec fn initial_update_view() -> ProgressUpdateView {
    ProgressUpdateView {
        percentage: 0,
        speed: "Starting..."@,
        eta: "Calculating..."@,
        filename: None,
        phase: "Initializing Process..."@,
    }
}

/// The first update of a worker.
pub fn initial_update() -> (u: ProgressUpdate)
    ensures
        u@ == initial_update_view(),
{
    ProgressUpdate {
        percentage: 0,
        speed: "Starting...".to_owned(),
        eta: "Calculating...".to_owned(),
        filename: None,
        phase: "Initializing Process...".to_owned(),
    }
}

/// The update that announces a run with restricted file names.
pub open spec fn sanitizing_update_view() -> ProgressUpdateView {
    ProgressUpdateView {
        percentage: 0,
        speed: "Retrying..."@,
        eta: "--"@,
        filename: None,
        phase: "Sanitizing Filenames (Retry)"@,
    }
}

/// The update that announces a run with restricted file names.
pub fn sanitizing_update() -> (u: ProgressUpdate)
    ensures
        u@ == sanitizing_update_view(),
{
    ProgressUpdate {
        percentage: 0,
        speed: "Retrying...".to_owned(),
        eta: "--".to_owned(),
        filename: None,
        phase: "Sanitizing Filenames (Retry)".to_owned(),
    }
}

/// The update that goes out before the finished file is moved.
pub open spec fn moving_update_view(filename: Option<Seq<char>>) -> ProgressUpdateView {
    ProgressUpdateView {
        percentage: PERCENT_FULL,
        speed: "Finalizing"@,
        eta: "00:00"@,
        filename,
        phase: "Moving to Library"@,
    }
}

/// The update that goes out before the finished file is moved.
pub fn moving_update(filename: Option<String>) -> (u: ProgressUpdate)
    ensures
        u@ == moving_update_view(opt_view(filename)),
{
    ProgressUpdate {
        percentage: PERCENT_FULL,
        speed: "Finalizing".to_owned(),
        eta: "00:00".to_owned(),
        filename,
        phase: "Moving to Library".to_owned(),
    }
}

/// The views of a sequence of messages.
pub open spec fn message_views(v: Seq<JobMessage>) -> Seq<JobMessageView> {
    v.map_values(|m: JobMessage| m@)
}

/// The message that carries an update for job `id`.
pub open spec fn update_message(id: JobId, u: ProgressUpdateView) -> JobMessageView {
    JobMessageView::UpdateProgress {
        id,
        percentage: u.percentage,
        speed: u.speed,
        eta: u.eta,
        filename: u.filename,
        phase: u.phase,
    }
}

/// What a worker reports once its process runs: the process id where the
/// system gave one, then, on a run with restricted file names, that this is
/// such a run.
pub open spec fn spawned_reports(job: QueuedJobView, pid: Option<u32>) -> Seq<JobMessageView> {
    (match pid {
        Some(p) => seq![JobMessageView::ProcessStarted { id: job.id, pid: p }],
        None => Seq::empty(),
    }) + (if job.restrict_filenames {
        seq![update_message(job.id, sanitizing_update_view())]
    } else {
        Seq::empty()
    })
}

/// What a worker reports once its process runs.
pub fn spawned_messages(job: &QueuedJob, pid: Option<u32>) -> (out: Vec<JobMessage>)
    ensures
        message_views(out@) == spawned_reports(job@, pid),
{
    let mut out: Vec<JobMessage> = Vec::new();
    match pid {
        Some(p) => {
            out.push(JobMessage::ProcessStarted { id: job.id, pid: p });
        },
        None => {},
    }
    if job.restrict_filenames {
        out.push(sanitizing_update().into_message(job.id));
    }
    assert(message_views(out@) =~= spawned_reports(job@, pid));
    out
}

/// The message that reports a failure of job `id`.
pub open spec fn error_report(
    id: JobId,
    error: Seq<char>,
    exit_code: Option<i32>,
    stderr: Seq<char>,
    logs: Seq<Seq<char>>,
) -> JobMessageView {
    JobMessageView::JobError {
        id,
        payload: DownloadErrorPayloadView {
            job_id: id,
            error,
            exit_code,
            stderr,
            logs: joined(logs, "\n"@),
        },
    }
}

/// Builds the message that reports a failure; the log lines go out as one
/// text, a line each.
pub fn construct_error(
    job_id: JobId,
    msg: String,
    exit_code: Option<i32>,
    stderr: String,
    logs: &Vec<String>,
) -> (m: JobMessage)
    ensures
        m@ == error_report(job_id, msg@, exit_code, stderr@, views(logs@)),
{
    JobMessage::JobError {
        id: job_id,
        payload: DownloadErrorPayload {
            job_id,
            error: msg,
            exit_code,
            stderr,
            logs: join(logs, "\n"),
        },
    }
}

/// The report of a process that could not be started, with the system's reason.
pub open spec fn spawn_failure_report(id: JobId, reason: Seq<char>) -> JobMessageView {
    error_report(id, "Failed to spawn process: "@ + reason, None, reason, Seq::empty())
}

/// The report of a process that could not be started.
pub fn spawn_failure(job_id: JobId, reason: &str) -> (m: JobMessage)
    ensures
        m@ == spawn_failure_report(job_id, reason@),
{
    let logs: Vec<String> = Vec::new();
    assert(views(logs@) =~= Seq::empty());
    construct_error(
        job_id,
        crate::text::concat("Failed to spawn process: ", reason),
        None,
        reason.to_owned(),
        &logs,
    )
}

/// The report of a job that has no directory to download to.
pub open spec fn missing_directory_report(id: JobId) -> JobMessageView {
    error_report(id, "Missing download dir"@, None, Seq::empty(), Seq::empty())
}

/// The report of a job that has no directory to download to.
pub fn missing_directory(job_id: JobId) -> (m: JobMessage)
    ensures
        m@ == missing_directory_report(job_id),
{
    let logs: Vec<String> = Vec::new();
    assert(views(logs@) =~= Seq::empty());
    construct_error(job_id, "Missing download dir".to_owned(), None, String::new(), &logs)
}

/// Matches the complaints of a tool that could not write under the name it
/// had made up for a file.
pub open spec fn naming_fault_pattern() -> Seq<char> {
    "(?i)(No such file|Invalid argument|cannot be written|WinError 123|Postprocessing: Error opening input files)"@
}

/// The short account of a failed run.
pub open spec fn short_error(stderr: Seq<char>, exit_code: Option<i32>) -> Seq<char> {
    if contains_text(stderr, "No supported JavaScript runtime"@) {
        "Missing compliant JS Runtime"@
    } else if contains_text(stderr, "Sign in to confirm"@) {
        "Authentication Required"@
    } else {
        "Process Failed (Exit Code "@ + signed_decimal(
            match exit_code {
                Some(code) => code as int,
                None => -1,
            },
        ) + ")"@
    }
}

fn short_error_message(stderr: &str, exit_code: Option<i32>) -> (msg: String)
    ensures
        msg@ == short_error(stderr@, exit_code),
{
    let text = chars_of(stderr);
    let no_runtime = chars_of("No supported JavaScript runtime");
    let sign_in = chars_of("Sign in to confirm");
    if contains(text.as_slice(), no_runtime.as_slice()) {
        "Missing compliant JS Runtime".to_owned()
    } else if contains(text.as_slice(), sign_in.as_slice()) {
        "Authentication Required".to_owned()
    } else {
        let mut out = chars_of("Process Failed (Exit Code ");
        let code: i32 = match exit_code {
            Some(c) => c,
            None => -1,
        };
        push_signed(&mut out, code);
        push_str(&mut out, ")");
        string_of(out.as_slice())
    }
}

/// What a worker does when its process has ended.
#[derive(Debug)]
pub enum ExitDecision {
    /// The run succeeded: find the finished file and move it.
    Locate,
    /// The run failed on a file name: run once more with restricted names.
    RetrySanitized,
    /// The run failed: report it.
    Fail(JobMessage),
}

pub ghost enum ExitDecisionView {
    Locate,
    RetrySanitized,
    Fail(JobMessageView),
}

impl View for ExitDecision {
    type V = ExitDecisionView;

    open spec fn view(&self) -> ExitDecisionView {
        match *self {
            ExitDecision::Locate => ExitDecisionView::Locate,
            ExitDecision::RetrySanitized => ExitDecisionView::RetrySanitized,
            ExitDecision::Fail(m) => ExitDecisionView::Fail(m@),
        }
    }
}

/// What follows the end of a process. `naming_fault` says whether the log
/// shows a complaint about a file name; it counts only for a failed run that
/// did not restrict its file names.
pub open spec fn exit_decision(
    id: JobId,
    succeeded: bool,
    exit_code: Option<i32>,
    restricted: bool,
    naming_fault: bool,
    s: StreamView,
) -> ExitDecisionView {
    if succeeded {
        ExitDecisionView::Locate
    } else if !restricted && naming_fault {
        ExitDecisionView::RetrySanitized
    } else {
        ExitDecisionView::Fail(
            error_report(
                id,
                short_error(joined(s.stderr, "\n"@), exit_code),
                exit_code,
                joined(s.stderr, "\n"@),
                s.logs,
            ),
        )
    }
}

/// A run with restricted file names is never answered with another run:
/// the retry happens at most once.
pub proof fn restricted_run_is_not_retried(
    id: JobId,
    succeeded: bool,
    exit_code: Option<i32>,
    naming_fault: bool,
    s: StreamView,
)
    ensures
        !(exit_decision(id, succeeded, exit_code, true, naming_fault, s) is RetrySanitized),
{
}

/// Decides what follows the end of a process, given whether the log shows a
/// complaint about a file name.
pub fn decide_exit(
    job_id: JobId,
    succeeded: bool,
    exit_code: Option<i32>,
    restricted: bool,
    naming_fault: bool,
    state: &StreamState,
) -> (d: ExitDecision)
    ensures
        d@ == exit_decision(job_id, succeeded, exit_code, restricted, naming_fault, state@),
{
    if succeeded {
        ExitDecision::Locate
    } else if !restricted && naming_fault {
        ExitDecision::RetrySanitized
    } else {
        let stderr_lines = state.stderr();
        let stderr = join(&stderr_lines, "\n");
        let logs = state.logs();
        let msg = short_error_message(stderr.as_str(), exit_code);
        ExitDecision::Fail(construct_error(job_id, msg, exit_code, stderr, &logs))
    }
}

/// Decides what follows the end of the process of `job`: the log is held
/// against [`naming_fault_pattern`], and [`decide_exit`] does the rest.
pub fn after_exit(job: &QueuedJob, succeeded: bool, exit_code: Option<i32>, state: &StreamState) -> (d:
    ExitDecision)
    ensures
        d@ == exit_decision(
            job.id,
            succeeded,
            exit_code,
            job.restrict_filenames,
            pattern_matches(naming_fault_pattern(), joined(state@.logs, "\n"@)),
            state@,
        ),
{
    let naming_fault = if !succeeded && !job.restrict_filenames {
        let logs = state.logs();
        let blob = join(&logs, "\n");
        matches_pattern(
            "(?i)(No such file|Invalid argument|cannot be written|WinError 123|Postprocessing: Error opening input files)",
            blob.as_str(),
        )
    } else {
        false
    };
    decide_exit(job.id, succeeded, exit_code, job.restrict_filenames, naming_fault, state)
}

/// The declaration for the second run: as the first, with file names restricted.
pub fn sanitized(job: &QueuedJob) -> (next: QueuedJob)
    ensures
        next@ == (QueuedJobView { restrict_filenames: true, ..job@ }),
{
    let mut next = job.clone();
    next.restrict_filenames = true;
    next
}

/// `name` below the directory `dir`.
pub open spec fn joined_path(dir: Seq<char>, name: Seq<char>) -> Seq<char> {
    if dir.len() == 0 || is_separator(dir.last()) {
        dir + name
    } else {
        dir + "/"@ + name
    }
}

/// Builds the path of `name` below the directory `dir`.
pub fn join_path(dir: &str, name: &str) -> (path: String)
    ensures
        path@ == joined_path(dir@, name@),
{
    let mut out = chars_of(dir);
    let n: usize = out.len();
    if n > 0 && out[n - 1] != '/' && out[n - 1] != '\\' {
        push_str(&mut out, "/");
    }
    push_str(&mut out, name);
    string_of(out.as_slice())
}

/// Where the finished file is looked for first, best guess first: the path
/// that the tool printed, then the file name it reported, below the stage
/// directory.
pub open spec fn artifact_guesses(s: StreamView, stage_dir: Seq<char>) -> Seq<Seq<char>> {
    (match s.output_path {
        Some(p) => seq![p],
        None => Seq::empty(),
    }) + (match s.filename {
        Some(name) => seq![joined_path(stage_dir, name)],
        None => Seq::empty(),
    })
}

/// Where the finished file is looked for first, best guess first.
pub fn artifact_candidates(state: &StreamState, stage_dir: &str) -> (paths: Vec<String>)
    ensures
        views(paths@) == artifact_guesses(state@, stage_dir@),
{
    let mut paths: Vec<String> = Vec::new();
    match state.output_path() {
        Some(p) => {
            paths.push(p);
        },
        None => {},
    }
    match state.filename() {
        Some(name) => {
            paths.push(join_path(stage_dir, name.as_str()));
        },
        None => {},
    }
    assert(views(paths@) =~= artifact_guesses(state@, stage_dir@));
    paths
}

/// The extension of a path: what follows the last point of its file name,
/// where that point is not the first character of the name and something
/// follows it.
pub open spec fn extension_of(path: Seq<char>) -> Option<Seq<char>> {
    let name = last_component(path);
    let stem = without_extension(name);
    if 1 < stem.len() < name.len() {
        Some(name.subrange(stem.len() as int, name.len() as int))
    } else {
        None
    }
}

/// A file name up to and including its last point; empty where it has none.
pub open spec fn without_extension(name: Seq<char>) -> Seq<char>
    decreases name.len(),
{
    if name.len() == 0 || name.last() == '.' {
        name
    } else {
        without_extension(name.drop_last())
    }
}

/// Whether `ext` is one of the extensions of a finished media file.
pub open spec fn is_media_extension(ext: Seq<char>) -> bool {
    ext == "mp4"@ || ext == "mkv"@ || ext == "webm"@ || ext == "mp3"@ || ext == "flac"@ || ext
        == "m4a"@ || ext == "wav"@
}

/// Whether a path names a finished media file.
pub open spec fn is_media_path(path: Seq<char>) -> bool {
    match extension_of(path) {
        Some(ext) => is_media_extension(ext),
        None => false,
    }
}

proof fn lemma_without_extension(name: Seq<char>, k: int)
    requires
        0 <= k <= name.len(),
        forall|j: int| k <= j < name.len() ==> #[trigger] name[j] != '.',
        k > 0 ==> name[k - 1] == '.',
    ensures
        without_extension(name) == name.subrange(0, k),
    decreases name.len() - k,
{
    if k == name.len() {
        assert(name.subrange(0, k) =~= name);
    } else {
        lemma_without_extension(name.drop_last(), k);
        assert(name.drop_last().subrange(0, k) =~= name.subrange(0, k));
    }
}

fn is_word(s: &[char], word: &str) -> (r: bool)
    ensures
        r == (s@ == word@),
{
    let w = chars_of(word);
    same_chars(s, w.as_slice())
}

/// The extension of `path`, if it has one.
pub fn extension(path: &str) -> (ext: Option<String>)
    ensures
        opt_view(ext) == extension_of(path@),
{
    let name = match crate::stream::file_name(path) {
        Some(n) => chars_of(n.as_str()),
        None => Vec::new(),
    };
    assert(name@ == last_component(path@));
    let mut k: usize = name.len();
    while k > 0 && name[k - 1] != '.'
        invariant
            k <= name.len(),
            forall|j: int| k <= j < name.len() ==> #[trigger] name@[j] != '.',
        decreases k,
    {
        k = k - 1;
    }
    proof {
        lemma_without_extension(name@, k as int);
    }
    if 1 < k && k < name.len() {
        let part = copy_range(name.as_slice(), k, name.len());
        Some(string_of(part.as_slice()))
    } else {
        None
    }
}

/// Whether `path` names a finished media file.
pub fn is_media_file(path: &str) -> (r: bool)
    ensures
        r == is_media_path(path@),
{
    match extension(path) {
        Some(ext) => {
            let chars = chars_of(ext.as_str());
            let e = chars.as_slice();
            is_word(e, "mp4") || is_word(e, "mkv") || is_word(e, "webm") || is_word(e, "mp3")
                || is_word(e, "flac") || is_word(e, "m4a") || is_word(e, "wav")
        },
        None => false,
    }
}

/// The first of `paths` that names a finished media file.
pub fn first_media_file(paths: &Vec<String>) -> (found: Option<usize>)
    ensures
        match found {
            Some(i) => i < paths.len() && is_media_path(paths@[i as int]@) && forall|j: int|
                0 <= j < i ==> !is_media_path(#[trigger] paths@[j]@),
            None => forall|j: int| 0 <= j < paths.len() ==> !is_media_path(#[trigger] paths@[j]@),
        },
{
    let mut i: usize = 0;
    while i < paths.len()
        invariant
            i <= paths.len(),
            forall|j: int| 0 <= j < i ==> !is_media_path(#[trigger] paths@[j]@),
        decreases paths.len() - i,
    {
        if is_media_file(paths[i].as_str()) {
            return Some(i);
        }
        i = i + 1;
    }
    None
}

/// How the move of a finished file into the library ended.
#[derive(Debug)]
pub enum MoveOutcome {
    Moved,
    /// The destination was there already; the staged file is untouched.
    Conflict,
    /// The move failed, for the reason given.
    Failed(String),
}

pub ghost enum MoveOutcomeView {
    Moved,
    Conflict,
    Failed(Seq<char>),
}

impl View for MoveOutcome {
    type V = MoveOutcomeView;

    open spec fn view(&self) -> MoveOutcomeView {
        match *self {
            MoveOutcome::Moved => MoveOutcomeView::Moved,
            MoveOutcome::Conflict => MoveOutcomeView::Conflict,
            MoveOutcome::Failed(reason) => MoveOutcomeView::Failed(reason@),
        }
    }
}

/// The report that ends a successful run, by how the move ended.
pub open spec fn finish_report(
    id: JobId,
    outcome: MoveOutcomeView,
    staged: Seq<char>,
    destination: Seq<char>,
    exit_code: Option<i32>,
    logs: Seq<Seq<char>>,
) -> JobMessageView {
    match outcome {
        MoveOutcomeView::Moved => JobMessageView::JobCompleted { id, output_path: destination },
        MoveOutcomeView::Conflict => JobMessageView::FileConflict {
            id,
            temp_path: staged,
            output_path: destination,
        },
        MoveOutcomeView::Failed(reason) => error_report(
            id,
            "File move failed: "@ + reason,
            exit_code,
            reason,
            logs,
        ),
    }
}

/// Whether the stage directory stays after the run: only a conflict keeps
/// it, so that the staged file can still be had.
pub open spec fn keeps_stage(outcome: MoveOutcomeView) -> bool {
    outcome is Conflict
}

/// The report that ends a successful run, and whether the stage directory stays.
pub fn finish_message(
    job_id: JobId,
    outcome: &MoveOutcome,
    staged: &str,
    destination: &str,
    exit_code: Option<i32>,
    state: &StreamState,
) -> (r: (JobMessage, bool))
    ensures
        r.0@ == finish_report(job_id, outcome@, staged@, destination@, exit_code, state@.logs),
        r.1 == keeps_stage(outcome@),
{
    match outcome {
        MoveOutcome::Moved => (
            JobMessage::JobCompleted { id: job_id, output_path: destination.to_owned() },
            false,
        ),
        MoveOutcome::Conflict => (
            JobMessage::FileConflict {
                id: job_id,
                temp_path: staged.to_owned(),
                output_path: destination.to_owned(),
            },
            true,
        ),
        MoveOutcome::Failed(reason) => {
            let logs = state.logs();
            (
                construct_error(
                    job_id,
                    crate::text::concat("File move failed: ", reason.as_str()),
                    exit_code,
                    reason.clone(),
                    &logs,
                ),
                false,
            )
        },
    }
}

/// The report of a run that succeeded and left no file to be found.
pub open spec fn missing_artifact_report(
    id: JobId,
    exit_code: Option<i32>,
    logs: Seq<Seq<char>>,
) -> JobMessageView {
    error_report(
        id,
        "Download succeeded but file not found"@,
        exit_code,
        "Could not locate output file in temp dir"@,
        logs,
    )
}

/// The report of a run that succeeded and left no file to be found.
pub fn missing_artifact(job_id: JobId, exit_code: Option<i32>, state: &StreamState) -> (m:
    JobMessage)
    ensures
        m@ == missing_artifact_report(job_id, exit_code, state@.logs),
{
    let logs = state.logs();
    construct_error(
        job_id,
        "Download succeeded but file not found".to_owned(),
        exit_code,
        "Could not locate output file in temp dir".to_owned(),
        &logs,
    )
}

/// What happened to one step of a move.
#[derive(Clone, Copy, Debug, PartialEq, Eq, Structural)]
pub enum MoveEvent {
    /// The destination is there already.
    DestinationExists,
    /// The rename went through.
    Renamed,
    /// The rename was refused because the destination had appeared meanwhile.
    RenameRefused,
    /// The rename failed for another reason.
    RenameFailed,
    /// The copy went through, and the source was removed.
    Copied,
    CopyFailed,
}

/// How a move ends.
#[derive(Clone, Copy, Debug, PartialEq, Eq, Structural)]
pub enum MoveResult {
    Moved,
    AlreadyExists,
    Failed,
}

/// What to do next in a move.
#[derive(Clone, Copy, Debug, PartialEq, Eq, Structural)]
pub enum MoveAction {
    /// Wait this many milliseconds; then look whether the destination
    /// exists, and rename where it does not.
    RetryAfter(u64),
    /// Copy the file to the destination and remove the source.
    CopyThenDelete,
    Finish(MoveResult),
}

/// The number of failed renames after one more, counted up to one past the
/// limit of retries.
pub open spec fn failures_after(failures: u8) -> u8 {
    if failures <= MOVE_RETRIES {
        (failures + 1) as u8
    } else {
        failures
    }
}

/// The action that answers an event, after `failures` failed renames.
pub open spec fn move_action(failures: u8, event: MoveEvent) -> MoveAction {
    match event {
        MoveEvent::DestinationExists => MoveAction::Finish(MoveResult::AlreadyExists),
        MoveEvent::Renamed => MoveAction::Finish(MoveResult::Moved),
        MoveEvent::RenameRefused => MoveAction::Finish(MoveResult::AlreadyExists),
        MoveEvent::RenameFailed => if failures_after(failures) > MOVE_RETRIES {
            MoveAction::CopyThenDelete
        } else {
            MoveAction::RetryAfter(MOVE_RETRY_DELAY_MS)
        },
        MoveEvent::Copied => MoveAction::Finish(MoveResult::Moved),
        MoveEvent::CopyFailed => MoveAction::Finish(MoveResult::Failed),
    }
}

/// The move of a finished file into the library, step by step. The caller
/// first looks whether the destination exists and, where it does not,
/// renames; it reports each outcome here and does what it is told.
#[derive(Debug)]
pub struct RobustMove {
    failures: u8,
}

impl RobustMove {
    /// Failed renames so far.
    pub closed spec fn failures(&self) -> u8 {
        self.failures
    }

    /// A move in which nothing has failed yet.
    pub fn new() -> (m: Self)
        ensures
            m.failures() == 0,
    {
        RobustMove { failures: 0 }
    }

    /// Takes in the outcome of a step and says what to do next. A destination
    /// that exists ends the move at once: nothing is renamed or copied over it.
    pub fn on_event(&mut self, event: MoveEvent) -> (action: MoveAction)
        ensures
            action == move_action(old(self).failures(), event),
            final(self).failures() == if event == MoveEvent::RenameFailed || event
                == MoveEvent::RenameRefused {
                failures_after(old(self).failures())
            } else {
                old(self).failures()
            },
            event == MoveEvent::DestinationExists ==> action == MoveAction::Finish(
                MoveResult::AlreadyExists,
            ),
    {
        match event {
            MoveEvent::DestinationExists => MoveAction::Finish(MoveResult::AlreadyExists),
            MoveEvent::Renamed => MoveAction::Finish(MoveResult::Moved),
            MoveEvent::RenameRefused => {
                if self.failures <= MOVE_RETRIES {
                    self.failures = self.failures + 1;
                }
                MoveAction::Finish(MoveResult::AlreadyExists)
            },
            MoveEvent::RenameFailed => {
                if self.failures <= MOVE_RETRIES {
                    self.failures = self.failures + 1;
                }
                if self.failures > MOVE_RETRIES {
                    MoveAction::CopyThenDelete
                } else {
                    MoveAction::RetryAfter(MOVE_RETRY_DELAY_MS)
                }
            },
            MoveEvent::Copied => MoveAction::Finish(MoveResult::Moved),
            MoveEvent::CopyFailed => MoveAction::Finish(MoveResult::Failed),
        }
    }
}

/// Where a worker stands in its run.
#[derive(Clone, Copy, Debug, PartialEq, Eq, Structural)]
pub enum WorkerPhase {
    /// Nothing has been reported yet.
    Created,
    /// The stage directory is made and the tool is started.
    Preparing,
    /// The tool runs and its output is read.
    Running,
    /// The tool has succeeded and its file is looked for.
    Locating,
    /// The file is moved into the library.
    Moving,
    /// The outcome is reported and the stage directory is seen to.
    Ending,
    /// The end of the worker is reported. Nothing follows.
    Done,
}

/// What happened to the last thing a worker asked for.
#[derive(Debug)]
pub enum WorkerEvent {
    /// The worker was started.
    Begin,
    /// There is no directory to download to.
    NoDirectory,
    /// The tool could not be started, for the reason given.
    SpawnFailed(String),
    /// The tool runs, under this process id where the system gave one.
    Spawned(Option<u32>),
    /// The tool wrote a line.
    Line { line: String, is_stderr: bool },
    /// The tool has ended and its output is read to the end.
    Exited { succeeded: bool, exit_code: Option<i32> },
    /// The finished file was looked for; this is its path if it was found.
    Located(Option<String>),
    /// The move of the finished file to `destination` has ended.
    Moved { outcome: MoveOutcome, destination: String },
    /// The stage directory was seen to.
    CleanedUp,
}

pub ghost enum WorkerEventView {
    Begin,
    NoDirectory,
    SpawnFailed(Seq<char>),
    Spawned(Option<u32>),
    Line { line: Seq<char>, is_stderr: bool },
    Exited { succeeded: bool, exit_code: Option<i32> },
    Located(Option<Seq<char>>),
    Moved { outcome: MoveOutcomeView, destination: Seq<char> },
    CleanedUp,
}

impl View for WorkerEvent {
    type V = WorkerEventView;

    open spec fn view(&self) -> WorkerEventView {
        match *self {
            WorkerEvent::Begin => WorkerEventView::Begin,
            WorkerEvent::NoDirectory => WorkerEventView::NoDirectory,
            WorkerEvent::SpawnFailed(reason) => WorkerEventView::SpawnFailed(reason@),
            WorkerEvent::Spawned(pid) => WorkerEventView::Spawned(pid),
            WorkerEvent::Line { line, is_stderr } => WorkerEventView::Line {
                line: line@,
                is_stderr,
            },
            WorkerEvent::Exited { succeeded, exit_code } => WorkerEventView::Exited {
                succeeded,
                exit_code,
            },
            WorkerEvent::Located(found) => WorkerEventView::Located(opt_view(found)),
            WorkerEvent::Moved { outcome, destination } => WorkerEventView::Moved {
                outcome: outcome@,
                destination: destination@,
            },
            WorkerEvent::CleanedUp => WorkerEventView::CleanedUp,
        }
    }
}

/// What a worker asks its caller to do next.
#[derive(Debug)]
pub enum WorkerCommand {
    /// Nothing: the event came out of turn, or the worker is done.
    Nothing,
    /// Find the directory to download to, make a fresh stage directory, and
    /// start the tool for this declaration.
    Prepare(QueuedJob),
    /// Read the next line of the tool's output, or wait for its end.
    ReadOutput,
    /// Look for the finished file: at these paths first, then below the
    /// stage directory.
    Locate(Vec<String>),
    /// Move the staged file into the library under this name.
    Move { staged: String, file_name: String },
    /// See to the stage directory: remove it, or leave it where it holds a
    /// file that could not be moved.
    End { remove_stage: bool },
}

pub ghost enum WorkerCommandView {
    Nothing,
    Prepare(QueuedJobView),
    ReadOutput,
    Locate(Seq<Seq<char>>),
    Move { staged: Seq<char>, file_name: Seq<char> },
    End { remove_stage: bool },
}

impl View for WorkerCommand {
    type V = WorkerCommandView;

    open spec fn view(&self) -> WorkerCommandView {
        match *self {
            WorkerCommand::Nothing => WorkerCommandView::Nothing,
            WorkerCommand::Prepare(job) => WorkerCommandView::Prepare(job@),
            WorkerCommand::ReadOutput => WorkerCommandView::ReadOutput,
            WorkerCommand::Locate(paths) => WorkerCommandView::Locate(views(paths@)),
            WorkerCommand::Move { staged, file_name } => WorkerCommandView::Move {
                staged: staged@,
                file_name: file_name@,
            },
            WorkerCommand::End { remove_stage } => WorkerCommandView::End { remove_stage },
        }
    }
}

/// What a worker answers to an event: what it reports to the manager, in
/// order, and what it asks for next.
#[derive(Debug)]
pub struct WorkerTurn {
    pub reports: Vec<JobMessage>,
    pub command: WorkerCommand,
}

/// The state of a worker, what it reports, and what it asks for.
pub ghost struct WorkerTurnView {
    pub worker: WorkerView,
    pub reports: Seq<JobMessageView>,
    pub command: WorkerCommandView,
}

/// The worker for one job.
#[derive(Debug)]
pub struct Worker {
    job: QueuedJob,
    stage_dir: String,
    stream: StreamState,
    phase: WorkerPhase,
    exit_code: Option<i32>,
    staged: Option<String>,
}

pub ghost struct WorkerView {
    /// The declaration under which the tool runs; after a retry, the one
    /// with restricted file names.
    pub job: QueuedJobView,
    /// The directory that the tool writes to.
    pub stage_dir: Seq<char>,
    /// What the output of the current run has shown.
    pub stream: StreamView,
    pub phase: WorkerPhase,
    /// The exit code of the run that succeeded.
    pub exit_code: Option<i32>,
    /// The finished file, while it is moved.
    pub staged: Option<Seq<char>>,
}

impl View for Worker {
    type V = WorkerView;

    closed spec fn view(&self) -> WorkerView {
        WorkerView {
            job: self.job@,
            stage_dir: self.stage_dir@,
            stream: self.stream@,
            phase: self.phase,
            exit_code: self.exit_code,
            staged: opt_view(self.staged),
        }
    }
}

/// A worker that has not begun.
pub open spec fn new_worker(job: QueuedJobView, stage_dir: Seq<char>) -> WorkerView {
    WorkerView {
        job,
        stage_dir,
        stream: crate::stream::initial_stream(),
        phase: WorkerPhase::Created,
        exit_code: None,
        staged: None,
    }
}

/// Whether the log of a run shows a complaint about a file name.
pub open spec fn shows_naming_fault(s: StreamView) -> bool {
    pattern_matches(naming_fault_pattern(), joined(s.logs, "\n"@))
}

/// What an update comes to as a report: one message, or none.
pub open spec fn update_reports(id: JobId, update: Option<ProgressUpdateView>) -> Seq<
    JobMessageView,
> {
    match update {
        Some(u) => seq![update_message(id, u)],
        None => Seq::empty(),
    }
}

/// A worker's answer to an event that ends its run with a report.
pub open spec fn ending(w: WorkerView, report: JobMessageView, remove_stage: bool) -> WorkerTurnView {
    WorkerTurnView {
        worker: WorkerView { phase: WorkerPhase::Ending, ..w },
        reports: seq![report],
        command: WorkerCommandView::End { remove_stage },
    }
}

/// What a worker does when the tool has ended.
pub open spec fn exited_step(w: WorkerView, succeeded: bool, exit_code: Option<i32>) -> WorkerTurnView {
    match exit_decision(
        w.job.id,
        succeeded,
        exit_code,
        w.job.restrict_filenames,
        shows_naming_fault(w.stream),
        w.stream,
    ) {
        ExitDecisionView::Locate => WorkerTurnView {
            worker: WorkerView { phase: WorkerPhase::Locating, exit_code, ..w },
            reports: Seq::empty(),
            command: WorkerCommandView::Locate(artifact_guesses(w.stream, w.stage_dir)),
        },
        ExitDecisionView::RetrySanitized => WorkerTurnView {
            worker: WorkerView {
                phase: WorkerPhase::Preparing,
                job: QueuedJobView { restrict_filenames: true, ..w.job },
                ..w
            },
            reports: Seq::empty(),
            command: WorkerCommandView::Prepare(
                QueuedJobView { restrict_filenames: true, ..w.job },
            ),
        },
        ExitDecisionView::Fail(report) => ending(
            WorkerView { exit_code, ..w },
            report,
            true,
        ),
    }
}

/// What a worker does when the finished file was looked for.
pub open spec fn located_step(w: WorkerView, found: Option<Seq<char>>) -> WorkerTurnView {
    if found.is_some() && file_name_of(found.unwrap()).is_some() {
        WorkerTurnView {
            worker: WorkerView { phase: WorkerPhase::Moving, staged: found, ..w },
            reports: seq![update_message(w.job.id, moving_update_view(w.stream.filename))],
            command: WorkerCommandView::Move {
                staged: found.unwrap(),
                file_name: file_name_of(found.unwrap()).unwrap(),
            },
        }
    } else {
        ending(w, missing_artifact_report(w.job.id, w.exit_code, w.stream.logs), true)
    }
}

/// What one event does to a worker: the next state, the reports to the
/// manager, and what is asked for next. The first report of a worker is its
/// initial update. The process id is reported when the tool runs. A run
/// that fails on a file name is followed by one run with restricted names.
/// The outcome is reported once; then the stage directory is seen to, and
/// the end of the worker is reported last. An event that comes out of turn
/// changes nothing.
pub open spec fn worker_step(w: WorkerView, event: WorkerEventView) -> WorkerTurnView {
    let idle = WorkerTurnView { worker: w, reports: Seq::empty(), command: WorkerCommandView::Nothing };
    match w.phase {
        WorkerPhase::Created => match event {
            WorkerEventView::Begin => WorkerTurnView {
                worker: WorkerView { phase: WorkerPhase::Preparing, ..w },
                reports: seq![update_message(w.job.id, initial_update_view())],
                command: WorkerCommandView::Prepare(w.job),
            },
            _ => idle,
        },
        WorkerPhase::Preparing => match event {
            WorkerEventView::NoDirectory => ending(w, missing_directory_report(w.job.id), false),
            WorkerEventView::SpawnFailed(reason) => ending(
                w,
                spawn_failure_report(w.job.id, reason),
                true,
            ),
            WorkerEventView::Spawned(pid) => WorkerTurnView {
                worker: WorkerView {
                    phase: WorkerPhase::Running,
                    stream: crate::stream::initial_stream(),
                    ..w
                },
                reports: spawned_reports(w.job, pid),
                command: WorkerCommandView::ReadOutput,
            },
            _ => idle,
        },
        WorkerPhase::Running => match event {
            WorkerEventView::Line { line, is_stderr } => WorkerTurnView {
                worker: WorkerView {
                    stream: crate::stream::after_line(
                        w.stream,
                        line,
                        crate::stream::is_too_long(line),
                        is_stderr,
                        w.stage_dir,
                    ).0,
                    ..w
                },
                reports: update_reports(
                    w.job.id,
                    crate::stream::after_line(
                        w.stream,
                        line,
                        crate::stream::is_too_long(line),
                        is_stderr,
                        w.stage_dir,
                    ).1,
                ),
                command: WorkerCommandView::ReadOutput,
            },
            WorkerEventView::Exited { succeeded, exit_code } => exited_step(
                w,
                succeeded,
                exit_code,
            ),
            _ => idle,
        },
        WorkerPhase::Locating => match event {
            WorkerEventView::Located(found) => located_step(w, found),
            _ => idle,
        },
        WorkerPhase::Moving => match event {
            WorkerEventView::Moved { outcome, destination } => ending(
                w,
                finish_report(
                    w.job.id,
                    outcome,
                    match w.staged {
                        Some(path) => path,
                        None => Seq::empty(),
                    },
                    destination,
                    w.exit_code,
                    w.stream.logs,
                ),
                !keeps_stage(outcome),
            ),
            _ => idle,
        },
        WorkerPhase::Ending => match event {
            WorkerEventView::CleanedUp => WorkerTurnView {
                worker: WorkerView { phase: WorkerPhase::Done, ..w },
                reports: seq![JobMessageView::WorkerFinished],
                command: WorkerCommandView::Nothing,
            },
            _ => idle,
        },
        WorkerPhase::Done => idle,
    }
}

impl Worker {
    /// The worker for `job`, whose tool writes to `stage_dir`.
    pub fn new(job: QueuedJob, stage_dir: String) -> (w: Self)
        ensures
            w@ == new_worker(job@, stage_dir@),
    {
        Worker {
            job,
            stage_dir,
            stream: StreamState::new(),
            phase: WorkerPhase::Created,
            exit_code: None,
            staged: None,
        }
    }

    /// Where the worker stands.
    pub fn phase(&self) -> (p: WorkerPhase)
        ensures
            p == self@.phase,
    {
        self.phase
    }

    /// Whether the end of the worker is reported.
    pub fn is_done(&self) -> (done: bool)
        ensures
            done == (self@.phase == WorkerPhase::Done),
    {
        self.phase == WorkerPhase::Done
    }

    fn idle(&self) -> (turn: WorkerTurn)
        ensures
            message_views(turn.reports@) == Seq::<JobMessageView>::empty(),
            turn.command@ == WorkerCommandView::Nothing,
    {
        let reports: Vec<JobMessage> = Vec::new();
        assert(message_views(reports@) =~= Seq::empty());
        WorkerTurn { reports, command: WorkerCommand::Nothing }
    }

    fn end_with(&mut self, report: JobMessage, remove_stage: bool) -> (turn: WorkerTurn)
        ensures
            final(self)@ == (WorkerView { phase: WorkerPhase::Ending, ..old(self)@ }),
            message_views(turn.reports@) == seq![report@],
            turn.command@ == (WorkerCommandView::End { remove_stage }),
    {
        self.phase = WorkerPhase::Ending;
        let mut reports: Vec<JobMessage> = Vec::new();
        reports.push(report);
        assert(message_views(reports@) =~= seq![report@]);
        WorkerTurn { reports, command: WorkerCommand::End { remove_stage } }
    }

    /// Takes in what happened to the last thing asked for, and says what is
    /// reported and what is asked for next.
    pub fn on_event(&mut self, event: WorkerEvent) -> (turn: WorkerTurn)
        ensures
            final(self)@ == worker_step(old(self)@, event@).worker,
            message_views(turn.reports@) == worker_step(old(self)@, event@).reports,
            turn.command@ == worker_step(old(self)@, event@).command,
    {
        match self.phase {
            WorkerPhase::Created => match event {
                WorkerEvent::Begin => {
                    self.phase = WorkerPhase::Preparing;
                    let mut reports: Vec<JobMessage> = Vec::new();
                    reports.push(initial_update().into_message(self.job.id));
                    assert(message_views(reports@) =~= seq![
                        update_message(self.job.id, initial_update_view()),
                    ]);
                    WorkerTurn { reports, command: WorkerCommand::Prepare(self.job.clone()) }
                },
                _ => self.idle(),
            },
            WorkerPhase::Preparing => match event {
                WorkerEvent::NoDirectory => {
                    let report = missing_directory(self.job.id);
                    self.end_with(report, false)
                },
                WorkerEvent::SpawnFailed(reason) => {
                    let report = spawn_failure(self.job.id, reason.as_str());
                    self.end_with(report, true)
                },
                WorkerEvent::Spawned(pid) => {
                    self.phase = WorkerPhase::Running;
                    self.stream = StreamState::new();
                    WorkerTurn {
                        reports: spawned_messages(&self.job, pid),
                        command: WorkerCommand::ReadOutput,
                    }
                },
                _ => self.idle(),
            },
            WorkerPhase::Running => match event {
                WorkerEvent::Line { line, is_stderr } => {
                    let update = self.stream.on_line(
                        line.as_str(),
                        is_stderr,
                        self.stage_dir.as_str(),
                    );
                    let mut reports: Vec<JobMessage> = Vec::new();
                    assert(message_views(reports@) =~= Seq::empty());
                    match update {
                        Some(u) => {
                            let ghost shown = u@;
                            reports.push(u.into_message(self.job.id));
                            assert(message_views(reports@) =~= seq![
                                update_message(self.job.id, shown),
                            ]);
                        },
                        None => {},
                    }
                    WorkerTurn { reports, command: WorkerCommand::ReadOutput }
                },
                WorkerEvent::Exited { succeeded, exit_code } => {
                    match after_exit(&self.job, succeeded, exit_code, &self.stream) {
                        ExitDecision::Locate => {
                            self.phase = WorkerPhase::Locating;
                            self.exit_code = exit_code;
                            let reports: Vec<JobMessage> = Vec::new();
                            assert(message_views(reports@) =~= Seq::empty());
                            WorkerTurn {
                                reports,
                                command: WorkerCommand::Locate(
                                    artifact_candidates(&self.stream, self.stage_dir.as_str()),
                                ),
                            }
                        },
                        ExitDecision::RetrySanitized => {
                            self.phase = WorkerPhase::Preparing;
                            self.job = sanitized(&self.job);
                            let reports: Vec<JobMessage> = Vec::new();
                            assert(message_views(reports@) =~= Seq::empty());
                            WorkerTurn { reports, command: WorkerCommand::Prepare(self.job.clone()) }
                        },
                        ExitDecision::Fail(report) => {
                            self.exit_code = exit_code;
                            self.end_with(report, true)
                        },
                    }
                },
                _ => self.idle(),
            },
            WorkerPhase::Locating => match event {
                WorkerEvent::Located(found) => {
                    let name = match &found {
                        Some(path) => crate::stream::file_name(path.as_str()),
                        None => None,
                    };
                    match (found, name) {
                        (Some(path), Some(file_name)) => {
                            self.phase = WorkerPhase::Moving;
                            self.staged = Some(path.clone());
                            let mut reports: Vec<JobMessage> = Vec::new();
                            reports.push(
                                moving_update(self.stream.filename()).into_message(self.job.id),
                            );
                            assert(message_views(reports@) =~= seq![
                                update_message(
                                    self.job.id,
                                    moving_update_view(self@.stream.filename),
                                ),
                            ]);
                            WorkerTurn {
                                reports,
                                command: WorkerCommand::Move { staged: path, file_name },
                            }
                        },
                        _ => {
                            let report = missing_artifact(self.job.id, self.exit_code, &self.stream);
                            self.end_with(report, true)
                        },
                    }
                },
                _ => self.idle(),
            },
            WorkerPhase::Moving => match event {
                WorkerEvent::Moved { outcome, destination } => {
                    let staged = match &self.staged {
                        Some(path) => path.clone(),
                        None => String::new(),
                    };
                    let (report, keep) = finish_message(
                        self.job.id,
                        &outcome,
                        staged.as_str(),
                        destination.as_str(),
                        self.exit_code,
                        &self.stream,
                    );
                    self.end_with(report, !keep)
                },
                _ => self.idle(),
            },
            WorkerPhase::Ending => match event {
                WorkerEvent::CleanedUp => {
                    self.phase = WorkerPhase::Done;
                    let mut reports: Vec<JobMessage> = Vec::new();
                    reports.push(JobMessage::WorkerFinished);
                    assert(message_views(reports@) =~= seq![JobMessageView::WorkerFinished]);
                    WorkerTurn { reports, command: WorkerCommand::Nothing }
                },
                _ => self.idle(),
            },
            WorkerPhase::Done => self.idle(),
        }
    }
}

/// The state of a worker after a run of events.
pub open spec fn worker_after(w: WorkerView, events: Seq<WorkerEventView>) -> WorkerView
    decreases events.len(),
{
    if events.len() == 0 {
        w
    } else {
        worker_after(worker_step(w, events.first()).worker, events.drop_first())
    }
}

/// All that a worker reports over a run of events, in order.
pub open spec fn worker_reports(w: WorkerView, events: Seq<WorkerEventView>) -> Seq<
    JobMessageView,
>
    decreases events.len(),
{
    if events.len() == 0 {
        Seq::empty()
    } else {
        worker_step(w, events.first()).reports + worker_reports(
            worker_step(w, events.first()).worker,
            events.drop_first(),
        )
    }
}

/// A worker that is done reports nothing more.
pub proof fn done_worker_is_silent(w: WorkerView, events: Seq<WorkerEventView>)
    requires
        w.phase == WorkerPhase::Done,
    ensures
        worker_reports(w, events) == Seq::<JobMessageView>::empty(),
        worker_after(w, events) == w,
    decreases events.len(),
{
    if events.len() > 0 {
        done_worker_is_silent(w, events.drop_first());
        assert(worker_reports(w, events) =~= Seq::empty());
    }
}

/// One event brings the end of the worker only as its single report, and
/// leaves the worker done.
pub proof fn lemma_end_is_reported_alone(w: WorkerView, event: WorkerEventView)
    ensures
        forall|k: int|
            0 <= k < worker_step(w, event).reports.len() && #[trigger] worker_step(
                w,
                event,
            ).reports[k] is WorkerFinished ==> worker_step(w, event).reports.len() == 1
                && worker_step(w, event).worker.phase == WorkerPhase::Done,
{
}

/// The end of a worker is reported last, and once: over any run of events
/// from any state, a report of the end of the worker is the last of all
/// its reports.
pub proof fn end_of_worker_is_last_and_once(w: WorkerView, events: Seq<WorkerEventView>)
    ensures
        forall|k: int|
            0 <= k < worker_reports(w, events).len() && #[trigger] worker_reports(
                w,
                events,
            )[k] is WorkerFinished ==> k == worker_reports(w, events).len() - 1,
    decreases events.len(),
{
    if events.len() > 0 {
        let turn = worker_step(w, events.first());
        let rest = worker_reports(turn.worker, events.drop_first());
        let all = worker_reports(w, events);
        lemma_end_is_reported_alone(w, events.first());
        end_of_worker_is_last_and_once(turn.worker, events.drop_first());
        assert forall|k: int| 0 <= k < all.len() && #[trigger] all[k] is WorkerFinished implies k
            == all.len() - 1 by {
            if k < turn.reports.len() {
                assert(all[k] == turn.reports[k]);
                done_worker_is_silent(turn.worker, events.drop_first());
            } else {
                assert(all[k] == rest[k - turn.reports.len()]);
            }
        }
    }
}

/// The first report of a worker is its initial update: over any run of
/// events, a worker that has not begun reports nothing, or its initial
/// update before everything else.
pub proof fn first_report_is_the_initial_update(w: WorkerView, events: Seq<WorkerEventView>)
    requires
        w.phase == WorkerPhase::Created,
    ensures
        worker_reports(w, events).len() > 0 ==> worker_reports(w, events)[0] == update_message(
            w.job.id,
            initial_update_view(),
        ),
    decreases events.len(),
{
    if events.len() > 0 {
        let turn = worker_step(w, events.first());
        if events.first() is Begin {
            assert(worker_reports(w, events)[0] == turn.reports[0]);
        } else {
            first_report_is_the_initial_update(w, events.drop_first());
            assert(worker_reports(w, events) =~= worker_reports(w, events.drop_first()));
        }
    }
}

/// The process id is reported only when the tool has just been started.
pub proof fn process_is_reported_after_the_spawn(w: WorkerView, event: WorkerEventView)
    ensures
        forall|k: int|
            0 <= k < worker_step(w, event).reports.len() && #[trigger] worker_step(
                w,
                event,
            ).reports[k] is ProcessStarted ==> w.phase == WorkerPhase::Preparing
                && event is Spawned,
{
}

} // verus!
